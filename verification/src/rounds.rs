//! Which measurement round is trusted, and the rate it gives.
use vstd::prelude::*;

use crate::error::TscError;
use crate::sample::Sample;

verus! {

/// One measurement round: a sample before the sleep and a sample after it.
#[derive(Debug, Clone, Copy, PartialEq, Eq, Structural)]
pub struct Round {
    pub start: Sample,
    pub end: Sample,
}

impl Round {
    /// Both the counter and the clock moved forward.
    pub open spec fn advanced(self) -> bool {
        self.start.ns < self.end.ns && self.start.tsc < self.end.tsc
    }

    /// The elapsed clock time in nanoseconds.
    pub open spec fn ns_delta(self) -> int {
        self.end.ns - self.start.ns
    }

    /// The elapsed ticks.
    pub open spec fn tsc_delta(self) -> int {
        self.end.tsc - self.start.tsc
    }

    /// The elapsed ticks and nanoseconds.
    pub open spec fn deltas(self) -> (u64, u64) {
        (self.tsc_delta() as u64, self.ns_delta() as u64)
    }
}

/// Round `i` advanced, no advancing round took less time, and no earlier one took as little.
///
/// Preemption only ever inflates elapsed time, so this is the least disturbed round.
pub open spec fn is_best_round(rounds: Seq<Round>, i: int) -> bool {
    &&& 0 <= i < rounds.len()
    &&& rounds[i].advanced()
    &&& forall|j: int|
        0 <= j < rounds.len() && #[trigger] rounds[j].advanced() ==> rounds[i].ns_delta()
            <= rounds[j].ns_delta()
    &&& forall|j: int|
        0 <= j < i && #[trigger] rounds[j].advanced() ==> rounds[i].ns_delta()
            < rounds[j].ns_delta()
}

/// At least one round advanced.
pub open spec fn any_advanced(rounds: Seq<Round>) -> bool {
    exists|i: int| 0 <= i < rounds.len() && #[trigger] rounds[i].advanced()
}

/// The elapsed ticks and nanoseconds of the best round, if any round advanced.
pub open spec fn best_deltas(rounds: Seq<Round>) -> Option<(u64, u64)> {
    if any_advanced(rounds) {
        Some(rounds[choose|i: int| is_best_round(rounds, i)].deltas())
    } else {
        None
    }
}

/// Ticks per millisecond, rounded down, for `tsc_delta` ticks in `ns_delta` nanoseconds.
pub open spec fn exact_rate_khz(tsc_delta: int, ns_delta: int) -> int {
    tsc_delta * 1_000_000 / ns_delta
}

/// The rate as a 64-bit number: [`exact_rate_khz`] without the bits above the lowest 64.
pub open spec fn spec_rate_khz(tsc_delta: u64, ns_delta: u64) -> u64 {
    (exact_rate_khz(tsc_delta as int, ns_delta as int) % 0x1_0000_0000_0000_0000) as u64
}

/// What a measurement reports after `rounds`: the rate of the best round and the nominal rate.
pub open spec fn outcome(msr_khz: u64, rounds: Seq<Round>) -> Result<(u64, u64), TscError> {
    match best_deltas(rounds) {
        Some((tsc_delta, ns_delta)) => Ok((spec_rate_khz(tsc_delta, ns_delta), msr_khz)),
        None => Err(TscError::NoAdvance),
    }
}

/// The best deltas after one more round: those of the new round if it advanced and nothing as
/// short was seen before, else the old ones.
pub open spec fn kept(best: Option<(u64, u64)>, round: Round) -> Option<(u64, u64)> {
    if round.advanced() && (best matches Some((_, prev_ns)) ==> round.ns_delta() < prev_ns) {
        Some(round.deltas())
    } else {
        best
    }
}

/// Returns the elapsed ticks and nanoseconds of the best round so far, given those of the best
/// round before `round`.
pub fn keep_best(best: Option<(u64, u64)>, round: Round) -> (result: Option<(u64, u64)>)
    ensures
        result == kept(best, round),
        forall|rounds: Seq<Round>|
            best == #[trigger] best_deltas(rounds) ==> result == best_deltas(rounds.push(round)),
        round.end.ns <= round.start.ns || round.end.tsc <= round.start.tsc ==> result == best,
        round.start.ns < round.end.ns && round.start.tsc < round.end.tsc ==> {
            &&& (best matches Some((_, prev_ns)) && prev_ns <= round.end.ns - round.start.ns)
                ==> result == best
            &&& (best matches Some((_, prev_ns)) ==> round.end.ns - round.start.ns < prev_ns) ==> (
            result matches Some((tsc_delta, ns_delta)) && tsc_delta == round.end.tsc
                - round.start.tsc && ns_delta == round.end.ns - round.start.ns)
        },
{
    proof {
        assert forall|rounds: Seq<Round>| best == #[trigger] best_deltas(rounds) implies kept(
            best,
            round,
        ) == best_deltas(rounds.push(round)) by {
            best_deltas_after_push(rounds, round);
        }
    }
    if round.end.ns <= round.start.ns || round.end.tsc <= round.start.tsc {
        return best;
    }
    let ns_delta: u64 = round.end.ns - round.start.ns;
    let tsc_delta: u64 = round.end.tsc - round.start.tsc;
    let keep: bool = match best {
        None => true,
        Some((_, prev_ns)) => ns_delta < prev_ns,
    };
    if keep {
        Some((tsc_delta, ns_delta))
    } else {
        best
    }
}

/// Returns the tick rate in kHz, rounded down. A rate that does not fit in 64 bits loses its
/// upper bits.
pub fn rate_khz(tsc_delta: u64, ns_delta: u64) -> (khz: u64)
    requires
        ns_delta > 0,
    ensures
        khz == spec_rate_khz(tsc_delta, ns_delta),
        khz == (tsc_delta * 1_000_000 / (ns_delta as int)) % 0x1_0000_0000_0000_0000,
        tsc_delta * 1_000_000 < ns_delta * 0x1_0000_0000_0000_0000 ==> khz * ns_delta <= tsc_delta
            * 1_000_000 < (khz + 1) * ns_delta,
{
    proof {
        rate_is_whole_ticks_per_millisecond(tsc_delta, ns_delta);
    }
    let quotient: u128 = tsc_delta as u128 * 1_000_000 / ns_delta as u128;
    assert(quotient as u64 == quotient % 0x1_0000_0000_0000_0000u128) by (bit_vector);
    assert(quotient == exact_rate_khz(tsc_delta as int, ns_delta as int));
    #[verifier::truncate]
    (quotient as u64)
}

/// Where some round advanced, there is a best round.
pub proof fn best_round_exists(rounds: Seq<Round>)
    requires
        any_advanced(rounds),
    ensures
        exists|i: int| is_best_round(rounds, i),
    decreases rounds.len(),
{
    let last = rounds.last();
    let front = rounds.drop_last();
    let n = rounds.len() - 1;
    if any_advanced(front) {
        best_round_exists(front);
        let b = choose|i: int| is_best_round(front, i);
        if last.advanced() && last.ns_delta() < front[b].ns_delta() {
            assert forall|j: int| 0 <= j < n && #[trigger] rounds[j].advanced() implies
                rounds[n].ns_delta() < rounds[j].ns_delta() by {
                assert(front[j].advanced());
            }
            assert(is_best_round(rounds, n));
        } else {
            assert forall|j: int|
                0 <= j < rounds.len() && #[trigger] rounds[j].advanced() implies rounds[b].ns_delta()
                <= rounds[j].ns_delta() by {
                if j < n {
                    assert(front[j].advanced());
                }
            }
            assert forall|j: int| 0 <= j < b && #[trigger] rounds[j].advanced() implies
                rounds[b].ns_delta() < rounds[j].ns_delta() by {
                assert(front[j].advanced());
            }
            assert(is_best_round(rounds, b));
        }
    } else {
        assert forall|j: int| 0 <= j < n implies !(#[trigger] rounds[j].advanced()) by {
            assert(!front[j].advanced());
        }
        assert(is_best_round(rounds, n));
    }
}

/// There is at most one best round, and [`best_deltas`] are its deltas.
pub proof fn best_round_is_unique(rounds: Seq<Round>, i: int)
    requires
        is_best_round(rounds, i),
    ensures
        forall|j: int| is_best_round(rounds, j) ==> i == j,
        best_deltas(rounds) == Some(rounds[i].deltas()),
{
    assert forall|j: int| is_best_round(rounds, j) implies i == j by {
        assert(rounds[i].advanced() && rounds[j].advanced());
    }
}

/// Taking the rounds in one by one and keeping the better of two gives the best of all.
pub proof fn best_deltas_after_push(rounds: Seq<Round>, round: Round)
    ensures
        best_deltas(rounds.push(round)) == kept(best_deltas(rounds), round),
{
    let all = rounds.push(round);
    let n = rounds.len() as int;
    assert forall|j: int| 0 <= j < n implies #[trigger] all[j] == rounds[j] by {}
    if any_advanced(rounds) {
        best_round_exists(rounds);
        let b = choose|i: int| is_best_round(rounds, i);
        let witness = choose|i: int| 0 <= i < rounds.len() && #[trigger] rounds[i].advanced();
        assert(all[witness].advanced());
        if round.advanced() && round.ns_delta() < rounds[b].ns_delta() {
            assert forall|j: int| 0 <= j < n && #[trigger] all[j].advanced() implies
                all[n].ns_delta() < all[j].ns_delta() by {
                assert(rounds[j].advanced());
            }
            assert(is_best_round(all, n));
            best_round_is_unique(all, n);
        } else {
            assert forall|j: int| 0 <= j < all.len() && #[trigger] all[j].advanced() implies
                all[b].ns_delta() <= all[j].ns_delta() by {
                if j < n {
                    assert(rounds[j].advanced());
                }
            }
            assert forall|j: int| 0 <= j < b && #[trigger] all[j].advanced() implies
                all[b].ns_delta() < all[j].ns_delta() by {
                assert(rounds[j].advanced());
            }
            assert(is_best_round(all, b));
            best_round_is_unique(all, b);
        }
    } else {
        assert forall|j: int| 0 <= j < n implies !(#[trigger] all[j].advanced()) by {
            assert(!rounds[j].advanced());
        }
        if round.advanced() {
            assert(all[n].advanced());
            assert(is_best_round(all, n));
            best_round_is_unique(all, n);
        } else {
            assert(!any_advanced(all));
        }
    }
}

/// A round that preemption disturbed does not change the result, in whichever place `at` it comes:
/// one in which the counter or the clock did not advance never does, nor does one that took longer
/// than a round that advanced, nor one that took as long as an advancing round before it.
pub proof fn disturbed_round_is_discarded(
    msr_khz: u64,
    rounds: Seq<Round>,
    at: int,
    round: Round,
)
    requires
        0 <= at <= rounds.len(),
        !round.advanced() || exists|i: int|
            0 <= i < rounds.len() && #[trigger] rounds[i].advanced() && (rounds[i].ns_delta()
                < round.ns_delta() || (rounds[i].ns_delta() == round.ns_delta() && i < at)),
    ensures
        outcome(msr_khz, rounds.insert(at, round)) == outcome(msr_khz, rounds),
{
    let all = rounds.insert(at, round);
    assert forall|j: int| 0 <= j < all.len() implies #[trigger] all[j] == (if j < at {
        rounds[j]
    } else if j == at {
        round
    } else {
        rounds[j - 1]
    }) by {}
    if any_advanced(rounds) {
        best_round_exists(rounds);
        let b = choose|i: int| is_best_round(rounds, i);
        let moved = if b < at {
            b
        } else {
            b + 1
        };
        assert(all[moved] == rounds[b]);
        if round.advanced() {
            let i = choose|i: int|
                0 <= i < rounds.len() && #[trigger] rounds[i].advanced() && (rounds[i].ns_delta()
                    < round.ns_delta() || (rounds[i].ns_delta() == round.ns_delta() && i < at));
            assert(rounds[b].ns_delta() <= rounds[i].ns_delta());
        }
        assert forall|j: int| 0 <= j < all.len() && #[trigger] all[j].advanced() implies
            all[moved].ns_delta() <= all[j].ns_delta() && (j < moved ==> all[moved].ns_delta()
            < all[j].ns_delta()) by {
            if j < at {
                assert(rounds[j].advanced());
            } else if j > at {
                assert(rounds[j - 1].advanced());
            }
        }
        assert(is_best_round(all, moved));
        best_round_is_unique(rounds, b);
        best_round_is_unique(all, moved);
        assert(any_advanced(all));
    } else {
        assert forall|j: int| 0 <= j < all.len() implies !(#[trigger] all[j].advanced()) by {
            if j < at {
                assert(!rounds[j].advanced());
            } else if j > at {
                assert(!rounds[j - 1].advanced());
            }
        }
        assert(!any_advanced(all));
    }
}

/// Whatever preemption makes of the rounds around the best one, before or after it, nothing of it
/// shows in the result, as long as each of them still takes longer or does not advance.
pub proof fn longer_rounds_change_nothing(
    msr_khz: u64,
    rounds: Seq<Round>,
    other: Seq<Round>,
    best: int,
)
    requires
        is_best_round(rounds, best),
        other.len() == rounds.len(),
        other[best] == rounds[best],
        forall|j: int|
            0 <= j < other.len() && j != best && #[trigger] other[j].advanced()
                ==> rounds[best].ns_delta() < other[j].ns_delta(),
    ensures
        outcome(msr_khz, other) == outcome(msr_khz, rounds),
{
    assert(other[best].advanced());
    assert(is_best_round(other, best));
    best_round_is_unique(rounds, best);
    best_round_is_unique(other, best);
}

/// Where no advancing round took less than `sleep_ns`, the best round is the one whose elapsed
/// time comes closest to it.
pub proof fn best_round_is_closest_to_sleep(rounds: Seq<Round>, best: int, sleep_ns: int)
    requires
        is_best_round(rounds, best),
        forall|j: int|
            0 <= j < rounds.len() && #[trigger] rounds[j].advanced() ==> sleep_ns
                <= rounds[j].ns_delta(),
    ensures
        forall|j: int|
            0 <= j < rounds.len() && #[trigger] rounds[j].advanced() ==> 0
                <= rounds[best].ns_delta() - sleep_ns <= rounds[j].ns_delta() - sleep_ns,
{
    assert(rounds[best].advanced());
}

/// A rate is reported exactly where some round advanced; it is then the rate of an advancing
/// round whose elapsed time is the smallest of all advancing rounds.
pub proof fn outcome_is_rate_of_shortest_round(msr_khz: u64, rounds: Seq<Round>)
    ensures
        outcome(msr_khz, rounds) is Ok <==> any_advanced(rounds),
        !any_advanced(rounds) ==> outcome(msr_khz, rounds) == Err::<(u64, u64), TscError>(
            TscError::NoAdvance,
        ),
        any_advanced(rounds) ==> exists|i: int| #[trigger]
            is_best_round(rounds, i) && outcome(msr_khz, rounds) == Ok::<(u64, u64), TscError>(
                (spec_rate_khz(rounds[i].deltas().0, rounds[i].deltas().1), msr_khz),
            ),
{
    if any_advanced(rounds) {
        best_round_exists(rounds);
        let b = choose|i: int| is_best_round(rounds, i);
        assert(is_best_round(rounds, b));
    }
}

/// One tick per microsecond is one MHz: a counter that ticks `khz` times per millisecond is
/// measured at `khz`, whatever the elapsed time.
pub proof fn steady_rate_is_measured(khz: u64, tsc_delta: u64, ns_delta: u64)
    requires
        ns_delta > 0,
        tsc_delta * 1_000_000 == khz * ns_delta,
    ensures
        spec_rate_khz(tsc_delta, ns_delta) == khz,
{
    let k = khz as int;
    let n = ns_delta as int;
    assert(k * n / n == k) by (nonlinear_arith)
        requires
            n > 0,
    ;
}

/// Where the rate fits in 64 bits, it is at or below a nominal rate exactly if the counter ticked
/// slower than the next whole kHz above the nominal rate.
pub proof fn at_or_below_nominal_compares_ticks(tsc_delta: u64, ns_delta: u64, msr_khz: u64)
    requires
        ns_delta > 0,
        exact_rate_khz(tsc_delta as int, ns_delta as int) <= u64::MAX,
    ensures
        spec_rate_khz(tsc_delta, ns_delta) == exact_rate_khz(tsc_delta as int, ns_delta as int),
        spec_rate_khz(tsc_delta, ns_delta) <= msr_khz <==> tsc_delta * 1_000_000 < (msr_khz + 1)
            * ns_delta,
{
    let ticks = tsc_delta * 1_000_000;
    let n = ns_delta as int;
    let k = msr_khz as int;
    assert(ticks / n >= 0) by (nonlinear_arith)
        requires
            ticks >= 0,
            n > 0,
    ;
    assert(ticks / n <= k <==> ticks < (k + 1) * n) by (nonlinear_arith)
        requires
            ticks >= 0,
            n > 0,
    ;
}

/// Only a round shorter than one millisecond can lose bits of its rate: in a longer one the rate
/// in kHz is no more than the number of ticks.
pub proof fn rate_fits(tsc_delta: u64, ns_delta: u64)
    requires
        ns_delta >= 1_000_000,
    ensures
        0 <= exact_rate_khz(tsc_delta as int, ns_delta as int) <= tsc_delta,
{
    let t = tsc_delta as int;
    let n = ns_delta as int;
    assert(0 <= t * 1_000_000 / n <= t) by (nonlinear_arith)
        requires
            t >= 0,
            n >= 1_000_000,
    ;
}

/// The outcome in the samples' own terms. The rate is that of a round whose second sample shows a
/// later time and a greater count than its first, that took no more time than any other such round
/// and less than any such round before it: the difference of its counts, a million times, divided
/// by the difference of its times. There is none exactly if no round has both differences.
pub proof fn outcome_over_samples(msr_khz: u64, rounds: Seq<Round>)
    ensures
        match outcome(msr_khz, rounds) {
            Ok((measured_khz, nominal_khz)) => {
                &&& nominal_khz == msr_khz
                &&& exists|i: int|
                    #![trigger rounds[i]]
                    {
                        &&& 0 <= i < rounds.len()
                        &&& rounds[i].start.ns < rounds[i].end.ns
                        &&& rounds[i].start.tsc < rounds[i].end.tsc
                        &&& measured_khz == ((rounds[i].end.tsc - rounds[i].start.tsc) * 1_000_000 / (
                        rounds[i].end.ns - rounds[i].start.ns)) % 0x1_0000_0000_0000_0000
                        &&& forall|j: int|
                            #![trigger rounds[j]]
                            0 <= j < rounds.len() && rounds[j].start.ns < rounds[j].end.ns
                                && rounds[j].start.tsc < rounds[j].end.tsc ==> {
                                &&& rounds[i].end.ns - rounds[i].start.ns <= rounds[j].end.ns
                                    - rounds[j].start.ns
                                &&& j < i ==> rounds[i].end.ns - rounds[i].start.ns < rounds[j].end.ns
                                    - rounds[j].start.ns
                            }
                    }
            },
            Err(error) => {
                &&& error == TscError::NoAdvance
                &&& forall|j: int|
                    #![trigger rounds[j]]
                    0 <= j < rounds.len() ==> rounds[j].end.ns <= rounds[j].start.ns
                        || rounds[j].end.tsc <= rounds[j].start.tsc
            },
        },
{
    if any_advanced(rounds) {
        best_round_exists(rounds);
        let b = choose|i: int| is_best_round(rounds, i);
        best_round_is_unique(rounds, b);
        assert(rounds[b].advanced());
        assert forall|j: int|
            #![trigger rounds[j]]
            0 <= j < rounds.len() && rounds[j].start.ns < rounds[j].end.ns && rounds[j].start.tsc
                < rounds[j].end.tsc implies rounds[b].end.ns - rounds[b].start.ns
            <= rounds[j].end.ns - rounds[j].start.ns && (j < b ==> rounds[b].end.ns
            - rounds[b].start.ns < rounds[j].end.ns - rounds[j].start.ns) by {
            assert(rounds[j].advanced());
        }
    } else {
        assert forall|j: int|
            #![trigger rounds[j]]
            0 <= j < rounds.len() implies rounds[j].end.ns <= rounds[j].start.ns
            || rounds[j].end.tsc <= rounds[j].start.tsc by {
            assert(!rounds[j].advanced());
        }
    }
}

/// Only elapsed time and elapsed ticks count: where the counter and the clock stood when a round
/// began makes no difference to the outcome.
pub proof fn only_elapsed_counts(msr_khz: u64, rounds: Seq<Round>, other: Seq<Round>)
    requires
        other.len() == rounds.len(),
        forall|i: int|
            #![trigger rounds[i]]
            #![trigger other[i]]
            0 <= i < rounds.len() ==> {
                &&& other[i].end.tsc - other[i].start.tsc == rounds[i].end.tsc - rounds[i].start.tsc
                &&& other[i].end.ns - other[i].start.ns == rounds[i].end.ns - rounds[i].start.ns
            },
    ensures
        outcome(msr_khz, other) == outcome(msr_khz, rounds),
{
    assert forall|i: int| 0 <= i < rounds.len() implies #[trigger] other[i].advanced()
        == rounds[i].advanced() && other[i].deltas() == rounds[i].deltas() && other[i].ns_delta()
        == rounds[i].ns_delta() by {}
    if any_advanced(rounds) {
        best_round_exists(rounds);
        let b = choose|i: int| is_best_round(rounds, i);
        assert(other[b].advanced());
        assert forall|j: int| 0 <= j < other.len() && #[trigger] other[j].advanced() implies
            other[b].ns_delta() <= other[j].ns_delta() && (j < b ==> other[b].ns_delta()
            < other[j].ns_delta()) by {
            assert(rounds[j].advanced());
        }
        assert(is_best_round(other, b));
        best_round_is_unique(rounds, b);
        best_round_is_unique(other, b);
    } else {
        assert forall|j: int| 0 <= j < other.len() implies !(#[trigger] other[j].advanced()) by {
            assert(!rounds[j].advanced());
        }
    }
}

/// One more round in the samples' own terms: it takes the place of the best one so far exactly if
/// it shows a later time and a greater count and took less time; its differences are then kept.
pub proof fn kept_over_samples(best: Option<(u64, u64)>, round: Round)
    ensures
        ({
            let better = round.start.ns < round.end.ns && round.start.tsc < round.end.tsc && (
            best matches Some((_, prev_ns)) ==> round.end.ns - round.start.ns < prev_ns);
            &&& !better ==> kept(best, round) == best
            &&& better ==> (kept(best, round) matches Some((tsc_delta, ns_delta)) && tsc_delta
                == round.end.tsc - round.start.tsc && ns_delta == round.end.ns - round.start.ns)
        }),
{
}

/// The rate is the greatest number of whole ticks per millisecond that the round held, reduced to
/// 64 bits: one more, and the round would have been too short for its ticks.
pub proof fn rate_is_whole_ticks_per_millisecond(tsc_delta: u64, ns_delta: u64)
    requires
        ns_delta > 0,
    ensures
        exists|whole: int|
            #![trigger whole * ns_delta]
            0 <= whole && whole * ns_delta <= tsc_delta * 1_000_000 < (whole + 1) * ns_delta
                && spec_rate_khz(tsc_delta, ns_delta) == whole % 0x1_0000_0000_0000_0000,
        tsc_delta * 1_000_000 < ns_delta * 0x1_0000_0000_0000_0000 ==> spec_rate_khz(
            tsc_delta,
            ns_delta,
        ) * ns_delta <= tsc_delta * 1_000_000 < (spec_rate_khz(tsc_delta, ns_delta) + 1) * ns_delta,
{
    let ticks = tsc_delta * 1_000_000;
    let n = ns_delta as int;
    let whole = ticks / n;
    assert(0 <= whole && whole * n <= ticks < (whole + 1) * n) by (nonlinear_arith)
        requires
            ticks >= 0,
            n > 0,
            whole == ticks / n,
    ;
    assert(whole * ns_delta <= ticks);
    assert(ticks < n * 0x1_0000_0000_0000_0000 ==> whole < 0x1_0000_0000_0000_0000)
        by (nonlinear_arith)
        requires
            n > 0,
            whole * n <= ticks,
    ;
}

} // verus!
