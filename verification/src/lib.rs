//! Secure TSC checks for SEV-SNP guests.
//!
//! When a guest is launched with a secure TSC, its time stamp counter is programmed by the AMD
//! Secure Processor (PSP) and not by the hypervisor. Two observations made inside the guest show
//! it: the register `GUEST_TSC_FREQ` can be read and holds a plausible nominal frequency, and the
//! tick rate measured against the raw monotonic clock does not exceed that frequency.
//!
//! This crate holds the rules of those observations and their proofs. It performs no input or
//! output itself: whoever drives it reads the register, samples the counter and the clock, and
//! sleeps.
//!
//! - [`freq`]: the frequency register, its field, and the two frequency checks;
//! - [`sample`]: one reading of the counter together with the clock;
//! - [`rounds`]: which measurement round is trusted, and the rate it gives;
//! - [`measure`]: the measurement from the register access to the two rates;
//! - [`info`]: the PSP's answer to a TSC information request, and its byte layout;
//! - [`le`]: little-endian numbers, for that layout;
//! - [`error`]: what can go wrong.
pub mod error;
pub mod freq;
pub mod info;
pub mod le;
pub mod measure;
pub mod rounds;
pub mod sample;

pub use error::{SampleError, TscError};
pub use freq::{
    guest_tsc_freq_mhz, is_plausible_tsc_freq, tsc_rate_at_or_below_nominal, MSR_CPU,
    MSR_GUEST_TSC_FREQ, TSC_FREQ_MASK,
};
pub use info::TscInfoResp;
pub use measure::{Action, Event, Measurement, MEASURE_ROUNDS, MEASURE_SLEEP_NS};
pub use rounds::{keep_best, rate_khz, Round};
pub use sample::{clock_ns, Readings, Sample};
