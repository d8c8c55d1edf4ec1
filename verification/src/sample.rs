//! One reading of the counter together with the clock.
use vstd::prelude::*;

use crate::error::SampleError;

verus! {

/// A TSC value and the clock time in nanoseconds, read as close together as possible.
#[derive(Debug, Clone, Copy, PartialEq, Eq, Structural)]
pub struct Sample {
    pub tsc: u64,
    pub ns: u64,
}

/// What the instruction and the system call behind a sample gave.
#[derive(Debug, Clone, Copy, PartialEq, Eq, Structural)]
pub enum Readings {
    /// The CPU has no RDTSC instruction; nothing was read.
    NoRdtsc,
    /// The counter was read, and then the raw monotonic clock.
    Taken {
        tsc: u64,
        /// The return code of the clock call; 0 is success.
        rc: i32,
        /// The system's error number after the clock call; meaningful only if it failed.
        errno: i32,
        tv_sec: i64,
        tv_nsec: i64,
    },
}

/// The unsigned number with the same 64 bits as `x`.
pub open spec fn unsigned(x: i64) -> int {
    if x < 0 {
        x + 0x1_0000_0000_0000_0000
    } else {
        x as int
    }
}

/// The time of a clock reading in nanoseconds. Both parts count as unsigned numbers.
pub open spec fn clock_total_ns(tv_sec: i64, tv_nsec: i64) -> int {
    unsigned(tv_sec) * 1_000_000_000 + unsigned(tv_nsec)
}

/// Reading a signed number as unsigned is the cast of the language.
pub proof fn lemma_cast_is_unsigned(x: i64)
    ensures
        x as u64 == unsigned(x),
        0 <= x ==> x as u64 == x,
{
    assert(x < 0 ==> x as u64 == x + 0x1_0000_0000_0000_0000) by (bit_vector);
}

/// Returns the time of a clock reading in nanoseconds.
pub fn clock_ns(tv_sec: i64, tv_nsec: i64) -> (ns: u64)
    requires
        clock_total_ns(tv_sec, tv_nsec) <= u64::MAX,
    ensures
        ns == clock_total_ns(tv_sec, tv_nsec),
        ns == (tv_sec as u64) * 1_000_000_000 + (tv_nsec as u64),
        0 <= tv_sec && 0 <= tv_nsec ==> ns == tv_sec * 1_000_000_000 + tv_nsec,
{
    proof {
        lemma_cast_is_unsigned(tv_sec);
        lemma_cast_is_unsigned(tv_nsec);
    }
    tv_sec as u64 * 1_000_000_000 + tv_nsec as u64
}

impl Readings {
    /// The clock was not read, or its time fits in 64 bits of nanoseconds.
    pub open spec fn spec_time_fits(self) -> bool {
        match self {
            Readings::Taken { rc, tv_sec, tv_nsec, .. } => rc == 0 ==> clock_total_ns(
                tv_sec,
                tv_nsec,
            ) <= u64::MAX,
            Readings::NoRdtsc => true,
        }
    }

    /// The sample that the readings make, or why they make none.
    pub open spec fn spec_sample(self) -> Result<Sample, SampleError> {
        match self {
            Readings::NoRdtsc => Err(SampleError::RdtscUnsupported),
            Readings::Taken { tsc, rc, errno, tv_sec, tv_nsec } => if rc != 0 {
                Err(SampleError::ClockFailed(errno))
            } else {
                Ok(Sample { tsc, ns: clock_total_ns(tv_sec, tv_nsec) as u64 })
            },
        }
    }

    /// Returns false if the clock gave a time that does not fit in 64 bits of nanoseconds.
    pub fn time_fits(&self) -> (result: bool)
        ensures
            result == self.spec_time_fits(),
            *self is NoRdtsc ==> result,
            *self matches Readings::Taken { tsc, rc, errno, tv_sec, tv_nsec } ==> (result <==> rc
                != 0 || (tv_sec as u64) * 1_000_000_000 + (tv_nsec as u64) <= u64::MAX),
    {
        match self {
            Readings::NoRdtsc => true,
            Readings::Taken { tsc: _, rc, errno: _, tv_sec, tv_nsec } => {
                proof {
                    lemma_cast_is_unsigned(*tv_sec);
                    lemma_cast_is_unsigned(*tv_nsec);
                }
                let total: u128 = *tv_sec as u64 as u128 * 1_000_000_000 + *tv_nsec as u64 as u128;
                *rc != 0 || total <= u64::MAX as u128
            },
        }
    }

    /// Returns the sample that the readings make.
    pub fn sample(&self) -> (result: Result<Sample, SampleError>)
        requires
            self.spec_time_fits(),
        ensures
            result == self.spec_sample(),
            *self is NoRdtsc ==> result == Err::<Sample, SampleError>(
                SampleError::RdtscUnsupported,
            ),
            *self matches Readings::Taken { tsc, rc, errno, tv_sec, tv_nsec } ==> {
                &&& rc != 0 ==> result == Err::<Sample, SampleError>(
                    SampleError::ClockFailed(errno),
                )
                &&& rc == 0 ==> (result matches Ok(s) && s.tsc == tsc && s.ns == (tv_sec as u64)
                    * 1_000_000_000 + (tv_nsec as u64))
                &&& rc == 0 && 0 <= tv_sec && 0 <= tv_nsec ==> (result matches Ok(s) && s.ns
                    == tv_sec * 1_000_000_000 + tv_nsec)
            },
    {
        match self {
            Readings::NoRdtsc => Err(SampleError::RdtscUnsupported),
            Readings::Taken { tsc, rc, errno, tv_sec, tv_nsec } => {
                if *rc != 0 {
                    return Err(SampleError::ClockFailed(*errno));
                }
                proof {
                    lemma_cast_is_unsigned(*tv_sec);
                    lemma_cast_is_unsigned(*tv_nsec);
                }
                let ns: u64 = clock_ns(*tv_sec, *tv_nsec);
                Ok(Sample { tsc: *tsc, ns })
            },
        }
    }
}

/// A clock that counts up from zero, with less than a second in the nanoseconds part, fits in 64
/// bits for more than five hundred years, and a later reading is a greater number of nanoseconds.
pub proof fn clock_readings_are_ordered(sec_a: i64, nsec_a: i64, sec_b: i64, nsec_b: i64)
    requires
        0 <= sec_a <= 18_446_744_072,
        0 <= nsec_a < 1_000_000_000,
        0 <= sec_b <= 18_446_744_072,
        0 <= nsec_b < 1_000_000_000,
    ensures
        0 <= clock_total_ns(sec_a, nsec_a) <= u64::MAX,
        clock_total_ns(sec_a, nsec_a) < clock_total_ns(sec_b, nsec_b) <==> sec_a < sec_b || (sec_a
            == sec_b && nsec_a < nsec_b),
{
}

/// A nanosecond counts one and a second a thousand million, from zero on, so that a clock time is
/// its seconds and nanoseconds and nothing else.
pub proof fn clock_counts_seconds_and_nanoseconds(tv_sec: i64, tv_nsec: i64, more: i64)
    requires
        0 <= tv_sec,
        0 <= tv_nsec,
        0 <= more,
    ensures
        clock_total_ns(0, 0) == 0,
        clock_total_ns(tv_sec, tv_nsec) == tv_sec * 1_000_000_000 + tv_nsec,
        tv_sec + more <= i64::MAX ==> clock_total_ns((tv_sec + more) as i64, tv_nsec)
            - clock_total_ns(tv_sec, tv_nsec) == 1_000_000_000 * more,
        tv_nsec + more <= i64::MAX ==> clock_total_ns(tv_sec, (tv_nsec + more) as i64)
            - clock_total_ns(tv_sec, tv_nsec) == more,
{
}

/// A sample holds the whole counter value that was read, and a clock time from which the seconds
/// and the nanoseconds can be told again. It is there exactly if RDTSC is and the clock call
/// succeeded, and a failed clock call is reported with the system's error number.
pub proof fn sample_holds_what_was_read(
    tsc: u64,
    rc: i32,
    errno: i32,
    tv_sec: i64,
    tv_nsec: i64,
)
    requires
        0 <= tv_sec <= 18_446_744_072,
        0 <= tv_nsec < 1_000_000_000,
    ensures
        ({
            let readings = Readings::Taken { tsc, rc, errno, tv_sec, tv_nsec };
            &&& readings.spec_time_fits()
            &&& readings.spec_sample() is Ok <==> rc == 0
            &&& readings.spec_sample() matches Ok(s) ==> s.tsc == tsc && s.ns as int
                / 1_000_000_000 == tv_sec && s.ns as int % 1_000_000_000 == tv_nsec
            &&& readings.spec_sample() matches Err(e) ==> e == SampleError::ClockFailed(errno)
        }),
        Readings::NoRdtsc.spec_time_fits(),
        Readings::NoRdtsc.spec_sample() == Err::<Sample, SampleError>(
            SampleError::RdtscUnsupported,
        ),
{
}

/// Any readings of a clock that was read, odd ones included: the sample holds the counter value
/// and the two parts of the time as unsigned numbers, wherever that time fits in 64 bits.
pub proof fn sample_of_any_readings(tsc: u64, errno: i32, tv_sec: i64, tv_nsec: i64)
    ensures
        ({
            let readings = Readings::Taken { tsc, rc: 0, errno, tv_sec, tv_nsec };
            let total = (tv_sec as u64) * 1_000_000_000 + (tv_nsec as u64);
            &&& clock_total_ns(tv_sec, tv_nsec) == total
            &&& readings.spec_time_fits() <==> total <= u64::MAX
            &&& total <= u64::MAX ==> (readings.spec_sample() matches Ok(s) && s.tsc == tsc && s.ns
                == total)
        }),
{
    lemma_cast_is_unsigned(tv_sec);
    lemma_cast_is_unsigned(tv_nsec);
}

} // verus!
