//! Samples, rounds and whole measurements.
use secure_tsc::{
    clock_ns, keep_best, rate_khz, tsc_rate_at_or_below_nominal, Action, Event, Measurement,
    Readings, Round, Sample, SampleError, TscError, MEASURE_ROUNDS, MEASURE_SLEEP_NS,
};

fn round(tsc0: u64, ns0: u64, tsc1: u64, ns1: u64) -> Round {
    Round { start: Sample { tsc: tsc0, ns: ns0 }, end: Sample { tsc: tsc1, ns: ns1 } }
}

/// A round of `tsc` ticks in `ns` nanoseconds.
fn lasting(tsc: u64, ns: u64) -> Round {
    round(1_000, 2_000, 1_000 + tsc, 2_000 + ns)
}

fn take_round(m: Measurement, r: Round) -> Measurement {
    assert_eq!(m.action(), Action::Sample);
    let m = m.step(Event::Sampled(Ok(r.start)));
    assert_eq!(m.action(), Action::Sleep { ns: MEASURE_SLEEP_NS });
    let m = m.step(Event::Slept(0));
    assert_eq!(m.action(), Action::Sample);
    m.step(Event::Sampled(Ok(r.end)))
}

fn measure(raw: u64, rounds: [Round; 5]) -> Action {
    let mut m = Measurement::start(Some(raw));
    for r in rounds {
        m = take_round(m, r);
    }
    m.action()
}

#[test]
fn measurement_constants() {
    assert_eq!(MEASURE_SLEEP_NS, 50_000_000);
    assert_eq!(MEASURE_ROUNDS, 5);
}

#[test]
fn clock_time_in_nanoseconds() {
    assert_eq!(clock_ns(0, 0), 0);
    assert_eq!(clock_ns(0, 999_999_999), 999_999_999);
    assert_eq!(clock_ns(12, 345), 12_000_000_345);
    assert_eq!(clock_ns(18_446_744_073, 709_551_615), u64::MAX);
    assert_eq!(clock_ns(0, -1), u64::MAX);
}

#[test]
fn later_clock_reading_is_greater() {
    assert!(clock_ns(3, 999_999_999) < clock_ns(4, 0));
    assert!(clock_ns(4, 0) < clock_ns(4, 1));
}

#[test]
fn readings_make_a_sample() {
    let readings = Readings::Taken { tsc: 77, rc: 0, errno: 5, tv_sec: 2, tv_nsec: 7 };
    assert!(readings.time_fits());
    assert_eq!(readings.sample(), Ok(Sample { tsc: 77, ns: 2_000_000_007 }));
}

#[test]
fn readings_without_rdtsc() {
    assert!(Readings::NoRdtsc.time_fits());
    assert_eq!(Readings::NoRdtsc.sample(), Err(SampleError::RdtscUnsupported));
}

#[test]
fn readings_with_failed_clock() {
    let readings = Readings::Taken { tsc: 77, rc: -1, errno: 22, tv_sec: i64::MAX, tv_nsec: 0 };
    assert!(readings.time_fits());
    assert_eq!(readings.sample(), Err(SampleError::ClockFailed(22)));
}

#[test]
fn readings_whose_time_does_not_fit() {
    let at = |tv_sec, tv_nsec| Readings::Taken { tsc: 1, rc: 0, errno: 0, tv_sec, tv_nsec };
    assert!(at(18_446_744_073, 709_551_615).time_fits());
    assert!(!at(18_446_744_073, 709_551_616).time_fits());
    assert!(!at(-1, 0).time_fits());
    assert!(!at(1, -1).time_fits());
    assert!(at(0, -1).time_fits());
}

#[test]
fn rate_of_a_round() {
    // 3.6 GHz over 50 ms.
    assert_eq!(rate_khz(180_000_000, 50_000_000), 3_600_000);
    // Rounded down.
    assert_eq!(rate_khz(179_999_999, 50_000_000), 3_599_999);
    assert_eq!(rate_khz(1, 1_000_001), 0);
    // The intermediate product needs more than 64 bits.
    assert_eq!(rate_khz(u64::MAX, 1_000_000), u64::MAX);
    // The rate itself needs more than 64 bits.
    assert_eq!(rate_khz(u64::MAX, 1), u64::MAX - 999_999);
}

#[test]
fn rate_comparison_in_ticks() {
    assert!(tsc_rate_at_or_below_nominal(rate_khz(180_000_049, 50_000_000), 3_600_000));
    assert!(!tsc_rate_at_or_below_nominal(rate_khz(180_000_050, 50_000_000), 3_600_000));
}

#[test]
fn shortest_round_is_kept() {
    assert_eq!(keep_best(None, lasting(10, 20)), Some((10, 20)));
    assert_eq!(keep_best(Some((10, 20)), lasting(5, 19)), Some((5, 19)));
    assert_eq!(keep_best(Some((10, 20)), lasting(50, 21)), Some((10, 20)));
    // The earlier of two equally short rounds stays.
    assert_eq!(keep_best(Some((10, 20)), lasting(5, 20)), Some((10, 20)));
}

#[test]
fn round_that_did_not_advance_is_discarded() {
    assert_eq!(keep_best(None, round(5, 5, 6, 5)), None);
    assert_eq!(keep_best(None, round(5, 5, 5, 6)), None);
    assert_eq!(keep_best(None, round(5, 6, 9, 5)), None);
    assert_eq!(keep_best(Some((1, 9)), round(9, 5, 5, 6)), Some((1, 9)));
}

#[test]
fn measurement_reports_best_round() {
    let rounds = [
        lasting(190_000_000, 52_000_000),
        round(9, 9, 9, 10),
        lasting(179_980_000, 50_000_000),
        lasting(200_000_000, 50_000_000),
        lasting(400_000_000, 90_000_000),
    ];
    assert_eq!(measure(3_600, rounds), Action::Finish(Ok((3_599_600, 3_600_000))));
    // Only the register's frequency field counts.
    assert_eq!(
        measure(0xFFFF_FFFF_FFFC_0000, rounds),
        Action::Finish(Ok((3_599_600, 0)))
    );
    assert_eq!(measure(u64::MAX, rounds), Action::Finish(Ok((3_599_600, 262_143_000))));
}

#[test]
fn disturbed_round_changes_nothing() {
    let quiet = lasting(180_000_000, 50_000_000);
    let preempted = lasting(400_000_000, 90_000_000);
    let stuck = round(4, 4, 4, 4);
    let expected = Action::Finish(Ok((3_600_000, 3_600_000)));
    assert_eq!(measure(3_600, [quiet, quiet, quiet, quiet, quiet]), expected);
    assert_eq!(measure(3_600, [preempted, quiet, stuck, preempted, preempted]), expected);
    // In whichever place the undisturbed round comes.
    assert_eq!(measure(3_600, [quiet, preempted, stuck, preempted, preempted]), expected);
    assert_eq!(measure(3_600, [preempted, stuck, preempted, preempted, quiet]), expected);
}

#[test]
fn measurement_without_advance() {
    let stuck = round(7, 7, 7, 7);
    assert_eq!(
        measure(3_600, [stuck, stuck, stuck, stuck, stuck]),
        Action::Finish(Err(TscError::NoAdvance))
    );
}

#[test]
fn measurement_without_register() {
    let m = Measurement::start(None);
    assert_eq!(m.action(), Action::Finish(Err(TscError::MsrUnreadable)));
    let m = m.step(Event::Sampled(Ok(Sample { tsc: 1, ns: 1 })));
    assert_eq!(m.action(), Action::Finish(Err(TscError::MsrUnreadable)));
}

#[test]
fn failed_first_sample_ends_measurement() {
    let m = take_round(Measurement::start(Some(3_600)), lasting(1, 1));
    let m = m.step(Event::Sampled(Err(SampleError::RdtscUnsupported)));
    let failed = Action::Finish(Err(TscError::Sample(SampleError::RdtscUnsupported)));
    assert_eq!(m.action(), failed);
    let m = m.step(Event::Sampled(Err(SampleError::ClockFailed(1))));
    assert_eq!(m.action(), failed);
}

#[test]
fn failed_sleep_ends_measurement() {
    let m = Measurement::start(Some(3_600));
    let m = m.step(Event::Sampled(Ok(Sample { tsc: 1, ns: 1 })));
    let m = m.step(Event::Slept(4));
    assert_eq!(m.action(), Action::Finish(Err(TscError::SleepFailed(4))));
}

#[test]
fn failed_second_sample_ends_measurement() {
    let m = Measurement::start(Some(3_600));
    let m = m.step(Event::Sampled(Ok(Sample { tsc: 1, ns: 1 })));
    let m = m.step(Event::Slept(0));
    let m = m.step(Event::Sampled(Err(SampleError::ClockFailed(22))));
    assert_eq!(
        m.action(),
        Action::Finish(Err(TscError::Sample(SampleError::ClockFailed(22))))
    );
}

#[test]
fn unexpected_event_is_ignored() {
    let m = Measurement::start(Some(3_600)).step(Event::Slept(9));
    assert_eq!(m.action(), Action::Sample);
    let m = m.step(Event::Sampled(Ok(Sample { tsc: 1, ns: 1 })));
    let m = m.step(Event::Sampled(Err(SampleError::RdtscUnsupported)));
    assert_eq!(m.action(), Action::Sleep { ns: 50_000_000 });
}

#[test]
fn error_codes() {
    assert_eq!(TscError::MsrUnreadable.os_code(), None);
    assert_eq!(TscError::NoAdvance.os_code(), None);
    assert_eq!(TscError::Sample(SampleError::RdtscUnsupported).os_code(), None);
    assert_eq!(TscError::Sample(SampleError::ClockFailed(22)).os_code(), Some(22));
    assert_eq!(TscError::SleepFailed(4).os_code(), Some(4));
}

#[test]
fn error_messages() {
    assert_eq!(TscError::MsrUnreadable.message("x"), "MSR_AMD64_GUEST_TSC_FREQ unreadable");
    assert_eq!(
        TscError::NoAdvance.message("x"),
        "TSC or wall clock did not advance across all measurement rounds"
    );
    assert_eq!(
        TscError::Sample(SampleError::RdtscUnsupported).message("x"),
        "RDTSC instruction not supported on this CPU"
    );
    assert_eq!(
        TscError::Sample(SampleError::ClockFailed(22)).message("Invalid argument (os error 22)"),
        "clock_gettime(CLOCK_MONOTONIC_RAW) failed: Invalid argument (os error 22)"
    );
    assert_eq!(
        TscError::SleepFailed(4).message("Interrupted system call (os error 4)"),
        "clock_nanosleep failed: Interrupted system call (os error 4)"
    );
}
