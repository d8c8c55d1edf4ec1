//! The measurement of the TSC rate against the frequency register.
//!
//! The tick rate is measured by sampling the counter and the raw monotonic clock before and after
//! a sleep, several times over, and keeping the round with the smallest elapsed time. The kernel
//! of a guest with a secure TSC takes its clock rate from the PSP-programmed register, so the
//! measured rate and the register value then trace back to the same source.
//!
//! [`Measurement`] decides and does no work itself: [`Measurement::action`] says what is to be
//! done next, and [`Measurement::step`] takes in what came of it.
use vstd::prelude::*;

use crate::error::{SampleError, TscError};
use crate::freq;
use crate::rounds;
use crate::rounds::Round;
use crate::sample::Sample;

verus! {

/// How long to sleep between the two samples of a round, in nanoseconds.
pub const MEASURE_SLEEP_NS: u64 = 50_000_000;

/// Number of measurement rounds. The round with the smallest elapsed time is kept; the rest are
/// discarded.
pub const MEASURE_ROUNDS: usize = 5;

/// What a measurement needs next.
#[derive(Debug, Clone, Copy, PartialEq, Eq)]
pub enum Action {
    /// Sample the counter and the clock; answered by [`Event::Sampled`].
    Sample,
    /// Sleep for `ns` nanoseconds; answered by [`Event::Slept`].
    Sleep { ns: u64 },
    /// Nothing: the measurement is over. The measured rate and the nominal rate, both in kHz, or
    /// why there are none.
    Finish(Result<(u64, u64), TscError>),
}

/// What came of an [`Action`].
#[derive(Debug, Clone, Copy, PartialEq, Eq)]
pub enum Event {
    /// A sample was taken, or could not be.
    Sampled(Result<Sample, SampleError>),
    /// The sleep returned this code; 0 is success.
    Slept(i32),
}

/// Where in a round a measurement stands.
#[derive(Debug, Clone, Copy, PartialEq, Eq, Structural)]
pub enum Phase {
    /// Before the first sample of a round, or after the last round.
    Between,
    /// The first sample is taken; the sleep comes next.
    Started(Sample),
    /// The first sample is taken and the sleep is over; the second sample comes next.
    Rested(Sample),
    /// The measurement failed.
    Failed(TscError),
}

/// The state of a measurement: the nominal rate, the completed rounds in order, and the phase.
#[verifier::ext_equal]
pub struct MeasurementView {
    pub msr_khz: u64,
    pub rounds: Seq<Round>,
    pub phase: Phase,
}

impl MeasurementView {
    /// The state before the first round, after an access to the frequency register. Without a
    /// nominal frequency the measurement has failed already.
    pub open spec fn initial(access: Option<u64>) -> MeasurementView {
        match freq::accessed_freq(access) {
            Some(mhz) => MeasurementView {
                msr_khz: (mhz * 1000) as u64,
                rounds: Seq::empty(),
                phase: Phase::Between,
            },
            None => MeasurementView {
                msr_khz: 0,
                rounds: Seq::empty(),
                phase: Phase::Failed(TscError::MsrUnreadable),
            },
        }
    }

    /// What is to be done in this state.
    pub open spec fn action(self) -> Action {
        match self.phase {
            Phase::Failed(error) => Action::Finish(Err(error)),
            Phase::Started(_) => Action::Sleep { ns: MEASURE_SLEEP_NS },
            Phase::Rested(_) => Action::Sample,
            Phase::Between => if self.rounds.len() < MEASURE_ROUNDS {
                Action::Sample
            } else {
                Action::Finish(rounds::outcome(self.msr_khz, self.rounds))
            },
        }
    }

    /// The state after `event`. A failed sample or sleep ends the measurement; an event that does
    /// not answer the pending action changes nothing.
    pub open spec fn next(self, event: Event) -> MeasurementView {
        match (self.action(), event) {
            (Action::Sample, Event::Sampled(Err(error))) => self.in_phase(
                Phase::Failed(TscError::Sample(error)),
            ),
            (Action::Sample, Event::Sampled(Ok(sample))) => match self.phase {
                Phase::Rested(start) => MeasurementView {
                    rounds: self.rounds.push(Round { start, end: sample }),
                    phase: Phase::Between,
                    ..self
                },
                _ => self.in_phase(Phase::Started(sample)),
            },
            (Action::Sleep { .. }, Event::Slept(rc)) => if rc != 0 {
                self.in_phase(Phase::Failed(TscError::SleepFailed(rc)))
            } else {
                self.in_phase(Phase::Rested(self.phase->Started_0))
            },
            _ => self,
        }
    }

    /// The same state in another phase.
    pub open spec fn in_phase(self, phase: Phase) -> MeasurementView {
        MeasurementView { phase, ..self }
    }

    /// The state after a sequence of events.
    pub open spec fn run(self, events: Seq<Event>) -> MeasurementView
        decreases events.len(),
    {
        if events.len() == 0 {
            self
        } else {
            self.run(events.drop_last()).next(events.last())
        }
    }

    /// How many answered actions are left at most.
    pub open spec fn remaining(self) -> int {
        match self.phase {
            Phase::Failed(_) => 0,
            Phase::Between => 3 * (MEASURE_ROUNDS - self.rounds.len()),
            Phase::Started(_) => 3 * (MEASURE_ROUNDS - self.rounds.len()) - 1,
            Phase::Rested(_) => 3 * (MEASURE_ROUNDS - self.rounds.len()) - 2,
        }
    }

    /// No more rounds than there are to be, and none begun beyond them.
    pub open spec fn wf(self) -> bool {
        &&& self.rounds.len() <= MEASURE_ROUNDS
        &&& self.phase is Started || self.phase is Rested ==> self.rounds.len() < MEASURE_ROUNDS
    }
}

/// `event` is an answer to `action`.
pub open spec fn answers(action: Action, event: Event) -> bool {
    match action {
        Action::Sample => event is Sampled,
        Action::Sleep { .. } => event is Slept,
        Action::Finish(_) => false,
    }
}

/// The events of undisturbed rounds: a sample, a sleep and a sample each.
pub open spec fn round_events(rounds: Seq<Round>) -> Seq<Event>
    decreases rounds.len(),
{
    if rounds.len() == 0 {
        Seq::empty()
    } else {
        round_events(rounds.drop_last()) + seq![
            Event::Sampled(Ok(rounds.last().start)),
            Event::Slept(0),
            Event::Sampled(Ok(rounds.last().end)),
        ]
    }
}

/// A measurement of the TSC rate in progress.
pub struct Measurement {
    msr_khz: u64,
    phase: Phase,
    rounds_done: usize,
    best: Option<(u64, u64)>,
    rounds: Ghost<Seq<Round>>,
}

impl View for Measurement {
    type V = MeasurementView;

    closed spec fn view(&self) -> MeasurementView {
        MeasurementView { msr_khz: self.msr_khz, rounds: self.rounds@, phase: self.phase }
    }
}

impl Measurement {
    #[verifier::type_invariant]
    spec fn inv(self) -> bool {
        &&& self@.wf()
        &&& self.rounds_done == self.rounds@.len()
        &&& self.best == rounds::best_deltas(self.rounds@)
    }

    /// Begins a measurement with an access to the frequency register: its raw value, or `None`
    /// where it could not be opened or read.
    pub fn start(access: Option<u64>) -> (result: Measurement)
        ensures
            result@ == MeasurementView::initial(access),
            result@.rounds.len() == 0,
            access is None ==> result@.phase == Phase::Failed(TscError::MsrUnreadable),
            access matches Some(raw) ==> result@.phase == Phase::Between && result@.msr_khz == (raw
                % 0x4_0000) * 1000,
    {
        let (msr_khz, phase): (u64, Phase) = match freq::guest_tsc_freq_mhz(access) {
            Some(mhz) => (mhz * 1000, Phase::Between),
            None => (0, Phase::Failed(TscError::MsrUnreadable)),
        };
        Measurement { msr_khz, phase, rounds_done: 0, best: None, rounds: Ghost(Seq::empty()) }
    }

    /// Returns what is to be done next.
    pub fn action(&self) -> (result: Action)
        ensures
            result == self@.action(),
            self@.phase matches Phase::Failed(error) ==> result == Action::Finish(Err(error)),
            self@.phase is Started ==> result == (Action::Sleep { ns: 50_000_000 }),
            self@.phase is Rested ==> result == Action::Sample,
            self@.phase is Between && self@.rounds.len() < 5 ==> result == Action::Sample,
            self@.phase is Between && self@.rounds.len() >= 5 ==> result == Action::Finish(
                rounds::outcome(self@.msr_khz, self@.rounds),
            ),
    {
        proof {
            use_type_invariant(self);
        }
        match self.phase {
            Phase::Failed(error) => Action::Finish(Err(error)),
            Phase::Started(_) => Action::Sleep { ns: MEASURE_SLEEP_NS },
            Phase::Rested(_) => Action::Sample,
            Phase::Between => {
                if self.rounds_done < MEASURE_ROUNDS {
                    return Action::Sample;
                }
                match self.best {
                    None => Action::Finish(Err(TscError::NoAdvance)),
                    Some((tsc_delta, ns_delta)) => {
                        proof {
                            rounds::best_round_exists(self.rounds@);
                        }
                        Action::Finish(Ok((rounds::rate_khz(tsc_delta, ns_delta), self.msr_khz)))
                    },
                }
            },
        }
    }

    /// Takes in what came of the pending action. A failed sample or sleep ends the measurement.
    /// An event that does not answer the pending action is ignored.
    pub fn step(self, event: Event) -> (result: Measurement)
        ensures
            result@ == self@.next(event),
            result@.msr_khz == self@.msr_khz,
            (self@.phase matches Phase::Rested(start) && event matches Event::Sampled(Ok(end))
                && result@.phase == Phase::Between && result@.rounds == self@.rounds.push(
                Round { start, end },
            )) || (!(self@.phase is Rested && event matches Event::Sampled(Ok(_)))
                && result@.rounds == self@.rounds),
            self@.phase is Between && self@.rounds.len() < 5 ==> match event {
                Event::Sampled(Ok(sample)) => result@.phase == Phase::Started(sample),
                Event::Sampled(Err(error)) => result@.phase == Phase::Failed(
                    TscError::Sample(error),
                ),
                Event::Slept(_) => result@.phase == self@.phase,
            },
            self@.phase matches Phase::Started(start) ==> match event {
                Event::Slept(rc) => result@.phase == (if rc == 0 {
                    Phase::Rested(start)
                } else {
                    Phase::Failed(TscError::SleepFailed(rc))
                }),
                Event::Sampled(_) => result@.phase == self@.phase,
            },
            self@.phase is Rested ==> match event {
                Event::Sampled(Ok(_)) => true,
                Event::Sampled(Err(error)) => result@.phase == Phase::Failed(
                    TscError::Sample(error),
                ),
                Event::Slept(_) => result@.phase == self@.phase,
            },
            self@.phase is Failed || (self@.phase is Between && self@.rounds.len() >= 5)
                ==> result@ == self@,
    {
        proof {
            use_type_invariant(&self);
        }
        let phase: Phase = match (self.phase, event) {
            (Phase::Between, Event::Sampled(sampled)) => {
                if self.rounds_done >= MEASURE_ROUNDS {
                    return self;
                }
                match sampled {
                    Ok(sample) => Phase::Started(sample),
                    Err(error) => Phase::Failed(TscError::Sample(error)),
                }
            },
            (Phase::Started(start), Event::Slept(rc)) => {
                if rc != 0 {
                    Phase::Failed(TscError::SleepFailed(rc))
                } else {
                    Phase::Rested(start)
                }
            },
            (Phase::Rested(_), Event::Sampled(Err(error))) => Phase::Failed(
                TscError::Sample(error),
            ),
            (Phase::Rested(start), Event::Sampled(Ok(end))) => {
                let round: Round = Round { start, end };
                return Measurement {
                    msr_khz: self.msr_khz,
                    phase: Phase::Between,
                    rounds_done: self.rounds_done + 1,
                    best: rounds::keep_best(self.best, round),
                    rounds: Ghost(self.rounds@.push(round)),
                };
            },
            _ => self.phase,
        };
        Measurement {
            msr_khz: self.msr_khz,
            phase,
            rounds_done: self.rounds_done,
            best: self.best,
            rounds: self.rounds,
        }
    }
}

/// A finished measurement stays as it is, whatever comes.
pub proof fn finished_is_final(state: MeasurementView, events: Seq<Event>)
    requires
        state.action() is Finish,
    ensures
        state.run(events) == state,
    decreases events.len(),
{
    if events.len() > 0 {
        finished_is_final(state, events.drop_last());
    }
}

/// Taking in events in two parts is taking them in at once.
pub proof fn run_concat(state: MeasurementView, first: Seq<Event>, second: Seq<Event>)
    ensures
        state.run(first + second) == state.run(first).run(second),
    decreases second.len(),
{
    if second.len() == 0 {
        assert(first + second =~= first);
    } else {
        run_concat(state, first, second.drop_last());
        assert((first + second).drop_last() =~= first + second.drop_last());
        assert((first + second).last() == second.last());
    }
}

/// A measurement ends: every answer brings it nearer to its end, nothing takes it further away,
/// and it is over exactly when no answer is left to come.
pub proof fn answers_make_progress(state: MeasurementView, event: Event)
    requires
        state.wf(),
    ensures
        state.next(event).wf(),
        answers(state.action(), event) ==> 0 <= state.next(event).remaining() < state.remaining(),
        !answers(state.action(), event) ==> state.next(event) == state,
        state.remaining() == 0 <==> state.action() is Finish,
        state.remaining() <= 3 * MEASURE_ROUNDS,
{
}

/// The events of up to all rounds, without a failure, complete just these rounds.
proof fn lemma_rounds_complete(state: MeasurementView, rounds: Seq<Round>)
    requires
        state.phase == Phase::Between,
        state.rounds.len() == 0,
        rounds.len() <= MEASURE_ROUNDS,
    ensures
        state.run(round_events(rounds)) == (MeasurementView { rounds, ..state }),
    decreases rounds.len(),
{
    if rounds.len() == 0 {
        assert(state.rounds =~= rounds);
    } else {
        let front = rounds.drop_last();
        let before = MeasurementView { rounds: front, ..state };
        let last = seq![
            Event::Sampled(Ok(rounds.last().start)),
            Event::Slept(0),
            Event::Sampled(Ok(rounds.last().end)),
        ];
        lemma_rounds_complete(state, front);
        run_concat(state, round_events(front), last);
        lemma_run_three(before, last[0], last[1], last[2]);
        assert(last =~= seq![last[0], last[1], last[2]]);
        assert(front.push(rounds.last()) =~= rounds);
    }
}

proof fn lemma_run_three(state: MeasurementView, a: Event, b: Event, c: Event)
    ensures
        state.run(seq![a]) == state.next(a),
        state.run(seq![a, b]) == state.next(a).next(b),
        state.run(seq![a, b, c]) == state.next(a).next(b).next(c),
{
    assert(seq![a, b, c].drop_last() =~= seq![a, b]);
    assert(seq![a, b].drop_last() =~= seq![a]);
    assert(seq![a].drop_last() =~= Seq::<Event>::empty());
    assert(state.run(seq![a]) == state.run(Seq::<Event>::empty()).next(a));
    assert(state.run(seq![a, b]) == state.run(seq![a]).next(b));
}

/// A measurement in which nothing fails reports, after exactly the set number of rounds, the rate
/// of the best of them and a thousand times the frequency that the register holds. Before that it
/// asks for another round.
pub proof fn undisturbed_measurement_reports(raw: u64, rounds: Seq<Round>)
    requires
        rounds.len() <= MEASURE_ROUNDS,
    ensures
        ({
            let msr_khz = (freq::freq_field(raw) * 1000) as u64;
            let state = MeasurementView::initial(Some(raw)).run(round_events(rounds));
            &&& msr_khz == freq::freq_field(raw) * 1000
            &&& state.rounds == rounds
            &&& rounds.len() < MEASURE_ROUNDS ==> state.action() == Action::Sample
            &&& rounds.len() == MEASURE_ROUNDS ==> state.action() == Action::Finish(
                rounds::outcome(msr_khz, rounds),
            )
        }),
{
    lemma_rounds_complete(MeasurementView::initial(Some(raw)), rounds);
}

/// Without the frequency register nothing is measured: the measurement is over at once, with the
/// error that says so, whatever comes.
pub proof fn unreadable_register_fails(events: Seq<Event>)
    ensures
        MeasurementView::initial(None).run(events).action() == Action::Finish(
            Err(TscError::MsrUnreadable),
        ),
{
    finished_is_final(MeasurementView::initial(None), events);
}

/// The first failure of a sample or a sleep, in whichever round it comes, ends the measurement
/// with its own error; the rounds before it and whatever comes after it do not count.
pub proof fn first_failure_is_reported(
    raw: u64,
    rounds: Seq<Round>,
    start: Sample,
    error: SampleError,
    rc: i32,
    later: Seq<Event>,
)
    requires
        rounds.len() < MEASURE_ROUNDS,
        rc != 0,
    ensures
        ({
            let first = MeasurementView::initial(Some(raw));
            let done = round_events(rounds);
            let no_sample = Event::Sampled(Err(error));
            let sample = Event::Sampled(Ok(start));
            &&& first.run(done + seq![no_sample] + later).action() == Action::Finish(
                Err(TscError::Sample(error)),
            )
            &&& first.run(done + seq![sample, Event::Slept(rc)] + later).action()
                == Action::Finish(Err(TscError::SleepFailed(rc)))
            &&& first.run(done + seq![sample, Event::Slept(0), no_sample] + later).action()
                == Action::Finish(Err(TscError::Sample(error)))
        }),
{
    let first = MeasurementView::initial(Some(raw));
    let done = round_events(rounds);
    let no_sample = Event::Sampled(Err(error));
    let sample = Event::Sampled(Ok(start));
    let before = MeasurementView { rounds, ..first };
    lemma_rounds_complete(first, rounds);
    lemma_run_three(before, no_sample, no_sample, no_sample);
    lemma_run_three(before, sample, Event::Slept(rc), no_sample);
    lemma_run_three(before, sample, Event::Slept(0), no_sample);
    run_concat(first, done, seq![no_sample]);
    run_concat(first, done, seq![sample, Event::Slept(rc)]);
    run_concat(first, done, seq![sample, Event::Slept(0), no_sample]);
    run_concat(first, done + seq![no_sample], later);
    run_concat(first, done + seq![sample, Event::Slept(rc)], later);
    run_concat(first, done + seq![sample, Event::Slept(0), no_sample], later);
    finished_is_final(first.run(done + seq![no_sample]), later);
    finished_is_final(first.run(done + seq![sample, Event::Slept(rc)]), later);
    finished_is_final(first.run(done + seq![sample, Event::Slept(0), no_sample]), later);
}

/// Whatever events a measurement takes in, in whatever order: it never holds more than the set
/// number of rounds; it reports the register as unreadable exactly if it was; and it reports rates,
/// or that nothing advanced, only after all the rounds, by the rule of the best round, with a
/// thousand times the register's frequency as the nominal rate.
pub proof fn every_run_is_sound(access: Option<u64>, events: Seq<Event>)
    ensures
        ({
            let state = MeasurementView::initial(access).run(events);
            &&& state.wf()
            &&& state.msr_khz == MeasurementView::initial(access).msr_khz
            &&& state.action() == Action::Finish(Err(TscError::MsrUnreadable)) <==> access is None
            &&& state.action() matches Action::Finish(Ok((measured_khz, msr_khz))) ==> {
                &&& state.rounds.len() == MEASURE_ROUNDS
                &&& access matches Some(raw) && msr_khz == freq::freq_field(raw) * 1000
                &&& rounds::outcome(msr_khz, state.rounds) == Ok::<(u64, u64), TscError>(
                    (measured_khz, msr_khz),
                )
            }
            &&& state.action() == Action::Finish(Err(TscError::NoAdvance)) ==> {
                &&& state.rounds.len() == MEASURE_ROUNDS
                &&& !rounds::any_advanced(state.rounds)
            }
        }),
    decreases events.len(),
{
    if access is None {
        unreadable_register_fails(events);
        finished_is_final(MeasurementView::initial(access), events);
    } else if events.len() > 0 {
        every_run_is_sound(access, events.drop_last());
    }
}

/// Every sleep that a measurement asks for is one of fifty milliseconds, in every state and so in
/// every round.
pub proof fn every_sleep_is_fifty_milliseconds(state: MeasurementView)
    ensures
        state.action() matches Action::Sleep { ns } ==> ns == 50_000_000,
        state.phase is Started ==> state.action() == (Action::Sleep { ns: 50_000_000 }),
{
}

/// A round asks for a sample, then, whatever that sample shows, for a sleep of fifty milliseconds,
/// and then for a sample. So does each of the five rounds.
pub proof fn round_asks_in_order(raw: u64, rounds: Seq<Round>, start: Sample)
    requires
        rounds.len() < 5,
    ensures
        ({
            let first = MeasurementView::initial(Some(raw));
            let done = round_events(rounds);
            let sample = Event::Sampled(Ok(start));
            &&& first.run(done).action() == Action::Sample
            &&& first.run(done + seq![sample]).action() == (Action::Sleep { ns: 50_000_000 })
            &&& first.run(done + seq![sample, Event::Slept(0)]).action() == Action::Sample
        }),
{
    let first = MeasurementView::initial(Some(raw));
    let done = round_events(rounds);
    let sample = Event::Sampled(Ok(start));
    let before = MeasurementView { rounds, ..first };
    lemma_rounds_complete(first, rounds);
    lemma_run_three(before, sample, Event::Slept(0), sample);
    run_concat(first, done, seq![sample]);
    run_concat(first, done, seq![sample, Event::Slept(0)]);
}

/// The events of rounds are, for each round in turn, its first sample, a successful sleep and its
/// second sample, and nothing else.
pub proof fn round_events_in_order(rounds: Seq<Round>, i: int)
    requires
        0 <= i < rounds.len(),
    ensures
        round_events(rounds).len() == 3 * rounds.len(),
        round_events(rounds)[3 * i] == Event::Sampled(Ok(rounds[i].start)),
        round_events(rounds)[3 * i + 1] == Event::Slept(0),
        round_events(rounds)[3 * i + 2] == Event::Sampled(Ok(rounds[i].end)),
    decreases rounds.len(),
{
    let front = rounds.drop_last();
    if front.len() > 0 {
        if i < front.len() {
            round_events_in_order(front, i);
        } else {
            round_events_in_order(front, 0);
        }
    } else {
        assert(round_events(front) =~= Seq::<Event>::empty());
    }
}

/// A whole measurement in the samples' own terms, from the register's raw value and the fifteen
/// events of five rounds to the two rates. The nominal rate is a thousand times the lowest eighteen
/// bits of the register. The measured rate is that of the round with the least elapsed time, the
/// first of several, among those whose time and count both grew: its elapsed ticks, a million
/// times, divided by its elapsed nanoseconds. There is none exactly if no round is such.
pub proof fn whole_measurement_over_samples(raw: u64, rounds: Seq<Round>, events: Seq<Event>)
    requires
        rounds.len() == 5,
        events.len() == 15,
        forall|i: int|
            #![trigger rounds[i]]
            0 <= i < 5 ==> {
                &&& events[3 * i] == Event::Sampled(Ok(rounds[i].start))
                &&& events[3 * i + 1] == Event::Slept(0)
                &&& events[3 * i + 2] == Event::Sampled(Ok(rounds[i].end))
            },
    ensures
        match MeasurementView::initial(Some(raw)).run(events).action() {
            Action::Finish(Ok((measured_khz, nominal_khz))) => {
                &&& nominal_khz == (raw % 0x4_0000) * 1000
                &&& exists|i: int|
                    #![trigger rounds[i]]
                    {
                        &&& 0 <= i < rounds.len()
                        &&& rounds[i].start.ns < rounds[i].end.ns
                        &&& rounds[i].start.tsc < rounds[i].end.tsc
                        &&& measured_khz == ((rounds[i].end.tsc - rounds[i].start.tsc) * 1_000_000 / (
                        rounds[i].end.ns - rounds[i].start.ns)) % 0x1_0000_0000_0000_0000
                        &&& forall|j: int|
                            #![trigger rounds[j]]
                            0 <= j < rounds.len() && rounds[j].start.ns < rounds[j].end.ns
                                && rounds[j].start.tsc < rounds[j].end.tsc ==> {
                                &&& rounds[i].end.ns - rounds[i].start.ns <= rounds[j].end.ns
                                    - rounds[j].start.ns
                                &&& j < i ==> rounds[i].end.ns - rounds[i].start.ns < rounds[j].end.ns
                                    - rounds[j].start.ns
                            }
                    }
            },
            Action::Finish(Err(error)) => {
                &&& error == TscError::NoAdvance
                &&& forall|j: int|
                    #![trigger rounds[j]]
                    0 <= j < rounds.len() ==> rounds[j].end.ns <= rounds[j].start.ns
                        || rounds[j].end.tsc <= rounds[j].start.tsc
            },
            _ => false,
        },
{
    assert forall|k: int| 0 <= k < 15 implies events[k] == round_events(rounds)[k] by {
        let i = k / 3;
        round_events_in_order(rounds, i);
        assert(rounds[i] == rounds[i]);
        assert(k == 3 * i || k == 3 * i + 1 || k == 3 * i + 2);
    }
    round_events_in_order(rounds, 0);
    assert(events =~= round_events(rounds));
    undisturbed_measurement_reports(raw, rounds);
    rounds::outcome_over_samples((freq::freq_field(raw) * 1000) as u64, rounds);
}

/// What one event does, in every state: between rounds a sample begins one and is remembered as it
/// is; a sleep of code 0 leaves it; the sample after it completes the round with both samples as
/// they were taken. Any failure is remembered with its own error. Nothing else changes anything,
/// and nothing ever changes the nominal rate or the rounds completed before.
pub proof fn one_event_at_a_time(state: MeasurementView, sample: Sample, error: SampleError, rc: i32)
    ensures
        ({
            let sampled = state.next(Event::Sampled(Ok(sample)));
            let unsampled = state.next(Event::Sampled(Err(error)));
            let slept = state.next(Event::Slept(rc));
            &&& sampled.msr_khz == unsampled.msr_khz == slept.msr_khz == state.msr_khz
            &&& unsampled.rounds == state.rounds && slept.rounds == state.rounds
            &&& state.phase is Between && state.rounds.len() < 5 ==> {
                &&& sampled.phase == Phase::Started(sample) && sampled.rounds == state.rounds
                &&& unsampled.phase == Phase::Failed(TscError::Sample(error))
                &&& slept == state
            }
            &&& state.phase matches Phase::Started(start) ==> {
                &&& sampled == state && unsampled == state
                &&& rc == 0 ==> slept.phase == Phase::Rested(start)
                &&& rc != 0 ==> slept.phase == Phase::Failed(TscError::SleepFailed(rc))
            }
            &&& state.phase matches Phase::Rested(start) ==> {
                &&& sampled.phase == Phase::Between
                &&& sampled.rounds == state.rounds.push(Round { start, end: sample })
                &&& unsampled.phase == Phase::Failed(TscError::Sample(error))
                &&& slept == state
            }
            &&& state.phase is Failed || (state.phase is Between && state.rounds.len() >= 5) ==> {
                &&& sampled == state && unsampled == state && slept == state
            }
        }),
{
}

} // verus!
