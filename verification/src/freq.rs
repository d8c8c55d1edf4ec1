//! The guest TSC frequency register and the checks on frequencies.
use vstd::prelude::*;

verus! {

/// `MSR_AMD64_GUEST_TSC_FREQ`: nominal TSC frequency in MHz (bits 17:0).
///
/// KVM removes the read intercept for this register when the secure TSC is on, so a successful
/// read shows that the PSP programmed the value, not the hypervisor.
pub const MSR_GUEST_TSC_FREQ: u32 = 0xC001_0134;

/// The CPU whose copy of the register is read.
pub const MSR_CPU: u16 = 0;

/// The frequency field of the register: bits 17:0.
pub const TSC_FREQ_MASK: u64 = 0x3_FFFF;

/// The lowest frequency, in MHz, that a real TSC has.
pub const MIN_PLAUSIBLE_MHZ: u64 = 500;

/// The highest frequency, in MHz, that a real TSC has.
pub const MAX_PLAUSIBLE_MHZ: u64 = 8_000;

/// The frequency in MHz that a raw register value holds: its lowest 18 bits as a number.
pub open spec fn freq_field(raw: u64) -> int {
    raw as int % 0x4_0000
}

/// The frequency in MHz that a register access gives; `None` where the access failed.
pub open spec fn accessed_freq(access: Option<u64>) -> Option<u64> {
    match access {
        Some(raw) => Some(freq_field(raw) as u64),
        None => None,
    }
}

/// 500 MHz to 8 GHz, both included.
pub open spec fn plausible(freq_mhz: u64) -> bool {
    500 <= freq_mhz <= 8_000
}

/// The measured rate does not exceed the nominal rate.
pub open spec fn at_or_below(measured_khz: u64, msr_khz: u64) -> bool {
    measured_khz <= msr_khz
}

/// The mask takes exactly bits 17:0.
proof fn lemma_mask_is_field(raw: u64)
    ensures
        raw & TSC_FREQ_MASK == freq_field(raw),
{
    assert(raw & 0x3_FFFF == raw % 0x4_0000) by (bit_vector);
}

/// Returns the nominal TSC frequency in MHz from an access to [`MSR_GUEST_TSC_FREQ`].
///
/// `access` is the raw register value, or `None` where the register could not be opened or read.
/// A failed access means interception or an unsupported register, both expected without a secure
/// TSC.
pub fn guest_tsc_freq_mhz(access: Option<u64>) -> (mhz: Option<u64>)
    ensures
        mhz == accessed_freq(access),
        mhz is Some <==> access is Some,
        mhz matches Some(f) ==> f <= TSC_FREQ_MASK,
        access matches Some(raw) ==> mhz == Some(raw & 0x3_FFFF) && mhz == Some(
            (raw % 0x4_0000) as u64,
        ),
        access is None ==> mhz is None,
{
    match access {
        Some(raw) => {
            proof {
                lemma_mask_is_field(raw);
            }
            assert(raw & 0x3_FFFF == raw % 0x4_0000) by (bit_vector);
            Some(raw & TSC_FREQ_MASK)
        },
        None => None,
    }
}

/// Returns true if `freq_mhz` is within a plausible range for a real TSC.
///
/// The PSP programs the nominal TSC frequency; anything outside 500 MHz to 8 GHz indicates a
/// firmware bug or an emulated or fake value.
pub fn is_plausible_tsc_freq(freq_mhz: u64) -> (result: bool)
    ensures
        result == plausible(freq_mhz),
        result <==> 500 <= freq_mhz && freq_mhz <= 8_000,
{
    MIN_PLAUSIBLE_MHZ <= freq_mhz && freq_mhz <= MAX_PLAUSIBLE_MHZ
}

/// Returns true if `measured_khz` is at or below `msr_khz`.
///
/// The tsc_factor encodes the percent decrease from nominal (register) to mean (measured)
/// frequency, so the corrected rate can never exceed the nominal. A measured rate above the
/// register value would indicate a measurement error or a firmware bug.
pub fn tsc_rate_at_or_below_nominal(measured_khz: u64, msr_khz: u64) -> (result: bool)
    ensures
        result == (measured_khz <= msr_khz),
        result == at_or_below(measured_khz, msr_khz),
{
    measured_khz <= msr_khz
}

/// The bits above bit 17 are discarded: two raw values that agree on bits 17:0 give the same
/// frequency, and one that has only those bits is its own frequency.
pub proof fn freq_field_ignores_high_bits(raw: u64, other: u64)
    ensures
        raw & TSC_FREQ_MASK == other & TSC_FREQ_MASK <==> freq_field(raw) == freq_field(other),
        raw <= TSC_FREQ_MASK ==> freq_field(raw) == raw,
        0 <= freq_field(raw) <= TSC_FREQ_MASK,
{
    lemma_mask_is_field(raw);
    lemma_mask_is_field(other);
}

/// Every plausible frequency fits in the register's field, so the register can report it.
pub proof fn plausible_freq_is_representable(freq_mhz: u64)
    requires
        plausible(freq_mhz),
    ensures
        accessed_freq(Some(freq_mhz)) == Some(freq_mhz),
{
}

/// The frequency is the register's value bit by bit up to bit 17, with nothing above: adding it to
/// the part of the register above bit 17 gives the register back.
pub proof fn freq_is_low_eighteen_bits(raw: u64)
    ensures
        accessed_freq(Some(raw)) matches Some(mhz) && mhz < 0x4_0000 && mhz + 0x4_0000 * (raw
            / 0x4_0000) == raw && forall|bit: u64|
            bit < 18 ==> #[trigger] (mhz >> bit) & 1 == (raw >> bit) & 1,
        accessed_freq(None) is None,
{
    let mhz = (raw % 0x4_0000) as u64;
    assert(forall|bit: u64|
        bit < 18 ==> #[trigger] ((raw % 0x4_0000u64) >> bit) & 1 == (raw >> bit) & 1) by (bit_vector);
}

/// The plausible frequencies are all those from 500 MHz to 8000 MHz and no others, without a gap:
/// whatever lies between two plausible frequencies is plausible.
pub proof fn plausible_freqs_are_a_range(low: u64, freq_mhz: u64, high: u64)
    ensures
        plausible(500) && plausible(8_000) && !plausible(499) && !plausible(8_001),
        plausible(freq_mhz) <==> 500 <= freq_mhz && freq_mhz <= 8_000,
        plausible(low) && plausible(high) && low <= freq_mhz <= high ==> plausible(freq_mhz),
{
}

/// A rate is at or below itself and below no smaller one: the nominal rate is the exact limit. A
/// slower counter passes wherever a faster one does, and a higher nominal rate lets pass whatever a
/// lower one does.
pub proof fn nominal_rate_is_the_limit(slow: u64, fast: u64, low: u64, high: u64)
    requires
        slow <= fast,
        low <= high,
    ensures
        at_or_below(low, low),
        low < u64::MAX ==> !at_or_below((low + 1) as u64, low),
        at_or_below(fast, low) ==> at_or_below(slow, high),
{
}

} // verus!
