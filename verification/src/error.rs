//! What can go wrong while the TSC is sampled and measured.
use vstd::prelude::*;
use vstd::string::*;

verus! {

/// Why the counter and the clock could not be sampled.
#[derive(Debug, Clone, Copy, PartialEq, Eq, Structural)]
pub enum SampleError {
    /// The CPU has no RDTSC instruction.
    RdtscUnsupported,
    /// The raw monotonic clock could not be read; the system's error number.
    ClockFailed(i32),
}

/// Why a measurement gave no rate.
#[derive(Debug, Clone, Copy, PartialEq, Eq, Structural)]
pub enum TscError {
    /// The frequency register could not be read, so there is nothing to compare with.
    MsrUnreadable,
    /// The counter and the clock could not be sampled.
    Sample(SampleError),
    /// The sleep between two samples failed; the system's error number.
    SleepFailed(i32),
    /// In no round did both the counter and the clock advance.
    NoAdvance,
}

impl TscError {
    /// The error number that the system gave, for the errors that come from the system.
    pub open spec fn spec_os_code(self) -> Option<i32> {
        match self {
            TscError::Sample(SampleError::ClockFailed(code)) => Some(code),
            TscError::SleepFailed(code) => Some(code),
            _ => None,
        }
    }

    /// The text of the error; `os_error` is the system's text for [`TscError::os_code`].
    pub open spec fn spec_message(self, os_error: Seq<char>) -> Seq<char> {
        match self {
            TscError::MsrUnreadable => "MSR_AMD64_GUEST_TSC_FREQ unreadable"@,
            TscError::Sample(SampleError::RdtscUnsupported) =>
                "RDTSC instruction not supported on this CPU"@,
            TscError::Sample(SampleError::ClockFailed(_)) =>
                "clock_gettime(CLOCK_MONOTONIC_RAW) failed: "@ + os_error,
            TscError::SleepFailed(_) => "clock_nanosleep failed: "@ + os_error,
            TscError::NoAdvance =>
                "TSC or wall clock did not advance across all measurement rounds"@,
        }
    }

    /// Returns the error number that the system gave, if the error comes from the system.
    pub fn os_code(&self) -> (code: Option<i32>)
        ensures
            code == self.spec_os_code(),
            *self matches TscError::SleepFailed(n) ==> code == Some(n),
            *self matches TscError::Sample(SampleError::ClockFailed(n)) ==> code == Some(n),
            *self is MsrUnreadable || *self is NoAdvance || *self == TscError::Sample(
                SampleError::RdtscUnsupported,
            ) ==> code is None,
    {
        match self {
            TscError::Sample(SampleError::ClockFailed(code)) => Some(*code),
            TscError::SleepFailed(code) => Some(*code),
            _ => None,
        }
    }

    /// Returns the text of the error. `os_error` is the system's text for the error number; it is
    /// not used for an error that has none.
    pub fn message(&self, os_error: &str) -> (text: String)
        ensures
            text@ == self.spec_message(os_error@),
            *self is MsrUnreadable ==> text@ == "MSR_AMD64_GUEST_TSC_FREQ unreadable"@,
            *self == TscError::Sample(SampleError::RdtscUnsupported) ==> text@
                == "RDTSC instruction not supported on this CPU"@,
            *self matches TscError::Sample(SampleError::ClockFailed(_)) ==> text@
                == "clock_gettime(CLOCK_MONOTONIC_RAW) failed: "@ + os_error@,
            *self is SleepFailed ==> text@ == "clock_nanosleep failed: "@ + os_error@,
            *self is NoAdvance ==> text@
                == "TSC or wall clock did not advance across all measurement rounds"@,
    {
        match self {
            TscError::MsrUnreadable => "MSR_AMD64_GUEST_TSC_FREQ unreadable".to_owned(),
            TscError::Sample(SampleError::RdtscUnsupported) =>
                "RDTSC instruction not supported on this CPU".to_owned(),
            TscError::Sample(SampleError::ClockFailed(_)) =>
                "clock_gettime(CLOCK_MONOTONIC_RAW) failed: ".to_owned().concat(os_error),
            TscError::SleepFailed(_) => "clock_nanosleep failed: ".to_owned().concat(os_error),
            TscError::NoAdvance =>
                "TSC or wall clock did not advance across all measurement rounds".to_owned(),
        }
    }
}

/// The text of an error that comes from the system ends with the system's text, whatever that is;
/// the text of any other error does not depend on it. The error number shows in neither.
pub proof fn message_ends_with_system_text(error: TscError, one: Seq<char>, other: Seq<char>)
    ensures
        error.spec_os_code() is Some ==> error.spec_message(one) == error.spec_message(Seq::empty())
            + one,
        error.spec_os_code() is None ==> error.spec_message(one) == error.spec_message(other),
{
    assert("clock_nanosleep failed: "@ + Seq::<char>::empty() =~= "clock_nanosleep failed: "@);
    assert("clock_gettime(CLOCK_MONOTONIC_RAW) failed: "@ + Seq::<char>::empty()
        =~= "clock_gettime(CLOCK_MONOTONIC_RAW) failed: "@);
}

/// The texts of all errors, and which of them carry an error number of the system: those of a
/// failed clock call and of a failed sleep, with the very number that the call gave.
pub proof fn error_texts(code: i32, os_error: Seq<char>)
    ensures
        TscError::MsrUnreadable.spec_message(os_error) == "MSR_AMD64_GUEST_TSC_FREQ unreadable"@,
        TscError::Sample(SampleError::RdtscUnsupported).spec_message(os_error)
            == "RDTSC instruction not supported on this CPU"@,
        TscError::Sample(SampleError::ClockFailed(code)).spec_message(os_error)
            == "clock_gettime(CLOCK_MONOTONIC_RAW) failed: "@ + os_error,
        TscError::SleepFailed(code).spec_message(os_error) == "clock_nanosleep failed: "@
            + os_error,
        TscError::NoAdvance.spec_message(os_error)
            == "TSC or wall clock did not advance across all measurement rounds"@,
        TscError::MsrUnreadable.spec_os_code() is None,
        TscError::NoAdvance.spec_os_code() is None,
        TscError::Sample(SampleError::RdtscUnsupported).spec_os_code() is None,
        TscError::Sample(SampleError::ClockFailed(code)).spec_os_code() == Some(code),
        TscError::SleepFailed(code).spec_os_code() == Some(code),
{
}

} // verus!
