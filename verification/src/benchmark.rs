//! Benchmark episodes and their offline replay.
//!
//! A benchmark episode is a fixed historical slice with the action a good
//! prompt should take on it. Replaying a prompt over the suite decides, for
//! each episode, which of four paths the simulated trade follows; the price
//! path of a played trade is simulated outside the library.
use vstd::prelude::*;
use crate::labels::ExitReason;
use crate::mask::{byte_len, bytes_exceed};
use crate::outcomes::lemma_distinct_in_range_covers;
use crate::text::{
    append, chars_of, concat2, contains, is_blank, lemma_lt_asymmetric, lemma_lt_irreflexive,
    lemma_lt_total, lemma_lt_transitive, owned, seq_lt, str_contains, str_eq, str_lt, trim, views,
};

verus! {

broadcast use vstd::string::group_string_axioms;

// ---------------------------------------------------------------------------
// The episode suite on disk.
// ---------------------------------------------------------------------------

/// The file an episode is saved under: `{id}_{symbol}_{regime}.json`.
pub open spec fn spec_episode_file_name(episode_id: Seq<char>, symbol: Seq<char>, market_regime: Seq<char>) -> Seq<char> {
    episode_id + "_"@ + symbol + "_"@ + market_regime + ".json"@
}

/// The file name a benchmark episode is saved under.
pub fn episode_file_name(episode_id: &str, symbol: &str, market_regime: &str) -> (r: String)
    ensures
        r@ == spec_episode_file_name(episode_id@, symbol@, market_regime@),
{
    let mut r = owned(episode_id);
    append(&mut r, "_");
    append(&mut r, symbol);
    append(&mut r, "_");
    append(&mut r, market_regime);
    append(&mut r, ".json");
    r
}

/// Whether episode `a` is listed before episode `b`: smaller id first, and
/// among equal ids the order they were loaded in.
pub open spec fn id_before(ids: Seq<Seq<char>>, a: int, b: int) -> bool {
    seq_lt(ids[a], ids[b]) || (ids[a] == ids[b] && a < b)
}

/// `order` lists every index of `ids` once, by ascending id.
pub open spec fn by_ascending_id(ids: Seq<Seq<char>>, order: Seq<usize>) -> bool {
    &&& order.len() == ids.len()
    &&& forall|i: int| 0 <= i < order.len() ==> order[i] < ids.len()
    &&& forall|i: int, j: int| 0 <= i < j < order.len() ==> id_before(ids, order[i] as int, order[j] as int)
}

/// The order a loaded suite is kept in: the indices of `ids` sorted by
/// ascending id, equal ids keeping their loading order.
pub fn episode_order(ids: &Vec<String>) -> (r: Vec<usize>)
    ensures
        by_ascending_id(views(ids@), r@),
{
    let ghost s = views(ids@);
    let mut out: Vec<usize> = Vec::new();
    let mut i: usize = 0;
    while i < ids.len()
        invariant
            0 <= i <= ids.len(),
            s == views(ids@),
            out.len() == i,
            forall|a: int| 0 <= a < out.len() ==> out@[a] < i,
            forall|a: int, b: int| 0 <= a < b < out.len() ==> id_before(s, out@[a] as int, out@[b] as int),
        decreases ids.len() - i,
    {
        let mut p: usize = 0;
        while p < out.len() && !str_lt(ids[i].as_str(), ids[out[p]].as_str())
            invariant
                0 <= p <= out.len(),
                out.len() == i,
                i < ids.len(),
                s == views(ids@),
                forall|a: int| 0 <= a < out.len() ==> out@[a] < i,
                forall|a: int| 0 <= a < p ==> !seq_lt(s[i as int], #[trigger] s[out@[a] as int]),
            decreases out.len() - p,
        {
            p += 1;
        }
        proof {
            assert forall|a: int| p <= a < out.len() implies seq_lt(s[i as int], #[trigger] s[out@[a] as int]) by {
                if a > p {
                    assert(id_before(s, out@[p as int] as int, out@[a] as int));
                    lemma_lt_transitive(s[i as int], s[out@[p as int] as int], s[out@[a] as int]);
                }
            }
            assert forall|a: int| 0 <= a < p implies id_before(s, #[trigger] out@[a] as int, i as int) by {
                lemma_lt_total(s[i as int], s[out@[a] as int]);
            }
        }
        let ghost old_out = out@;
        out.insert(p, i);
        proof {
            assert forall|a: int, b: int| 0 <= a < b < out.len() implies id_before(
                s,
                out@[a] as int,
                out@[b] as int,
            ) by {
                if a < p && b < p {
                    assert(out@[a] == old_out[a] && out@[b] == old_out[b]);
                } else if a < p && b == p {
                    assert(out@[a] == old_out[a]);
                } else if a < p && b > p {
                    assert(out@[a] == old_out[a] && out@[b] == old_out[b - 1]);
                    assert(id_before(s, old_out[a] as int, old_out[b - 1] as int));
                } else if a == p {
                    assert(out@[b] == old_out[b - 1]);
                } else {
                    assert(out@[a] == old_out[a - 1] && out@[b] == old_out[b - 1]);
                }
            }
            assert forall|a: int| 0 <= a < out.len() implies out@[a] < i + 1 by {
                if a < p {
                    assert(out@[a] == old_out[a]);
                } else if a > p {
                    assert(out@[a] == old_out[a - 1]);
                }
            }
        }
        i += 1;
    }
    out
}

/// A loaded suite holds every episode exactly once, and never lists an
/// episode after one with a larger id.
pub proof fn law_suite_order_is_a_sorted_permutation(ids: Seq<Seq<char>>, order: Seq<usize>, k: int, i: int, j: int)
    requires
        by_ascending_id(ids, order),
        0 <= k < ids.len(),
        0 <= i < j < order.len(),
    ensures
        exists|m: int| 0 <= m < order.len() && order[m] == k,
        order[i] != order[j],
        !seq_lt(ids[order[j] as int], ids[order[i] as int]),
{
    assert forall|x: int, y: int| 0 <= x < y < order.len() implies order[x] != order[y] by {
        assert(id_before(ids, order[x] as int, order[y] as int));
        lemma_lt_irreflexive(ids[order[x] as int]);
    }
    lemma_distinct_in_range_covers(order, ids.len() as int, k);
    assert(id_before(ids, order[i] as int, order[j] as int));
    lemma_lt_asymmetric(ids[order[i] as int], ids[order[j] as int]);
    lemma_lt_irreflexive(ids[order[i] as int]);
}

// ---------------------------------------------------------------------------
// Replaying a prompt over the suite.
// ---------------------------------------------------------------------------

/// Simulates candidate and baseline prompts on fixed benchmark episodes, so
/// that a candidate can be judged without live fills.
#[derive(Debug)]
pub struct ReplayEvaluator;

/// The path a replayed episode takes.
#[derive(Debug, Clone, Copy, PartialEq, Eq, Structural)]
pub enum ReplayBranch {
    /// The episode expects waiting and the prompt waits: no trade.
    WaitHeld,
    /// The episode expects waiting and the prompt trades anyway: stopped out long.
    Overtraded,
    /// The episode expects a trade the prompt does not align with: stopped out.
    Misaligned,
    /// The prompt takes the expected trade; its result follows the price path.
    Played,
}

/// A prompt is usable when it is not blank and holds at least 50 bytes.
pub open spec fn prompt_usable(prompt: Seq<char>) -> bool {
    trim(prompt).len() > 0 && byte_len(prompt) >= 50
}

/// Regimes in which a good prompt stays out.
pub open spec fn range_regime(regime: Seq<char>) -> bool {
    regime == "trading_range"@ || regime == "chop"@ || regime == "barbwire"@
}

/// Regimes in which a good prompt follows the trend.
pub open spec fn trend_regime(regime: Seq<char>) -> bool {
    regime == "spike"@ || regime == "tight_channel"@ || regime == "broad_channel"@
}

/// Whether the prompt speaks to the episode's regime: a range regime needs a
/// word about ranges or waiting, a trend regime one about trends or channels,
/// and any other regime needs nothing.
pub open spec fn spec_handles_regime(prompt: Seq<char>, regime: Seq<char>) -> bool {
    if range_regime(regime) {
        contains(prompt, "震荡"@) || contains(prompt, "观望"@) || contains(prompt, "range"@)
            || contains(prompt, "WAIT"@)
    } else if trend_regime(regime) {
        contains(prompt, "趋势"@) || contains(prompt, "通道"@) || contains(prompt, "channel"@)
            || contains(prompt, "trend"@)
    } else {
        true
    }
}

/// Whether the prompt takes the action the episode expects.
pub open spec fn spec_takes_expected_action(prompt: Seq<char>, regime: Seq<char>) -> bool {
    prompt_usable(prompt) && spec_handles_regime(prompt, regime)
}

/// The path of a replayed episode.
pub open spec fn spec_replay_branch(prompt: Seq<char>, regime: Seq<char>, expected_action: Seq<char>) -> ReplayBranch {
    let takes = spec_takes_expected_action(prompt, regime);
    if expected_action == "WAIT"@ {
        if takes {
            ReplayBranch::WaitHeld
        } else {
            ReplayBranch::Overtraded
        }
    } else if takes {
        ReplayBranch::Played
    } else {
        ReplayBranch::Misaligned
    }
}

/// The side of the simulated position.
pub open spec fn spec_replay_side(b: ReplayBranch, expected_action: Seq<char>) -> Seq<char> {
    match b {
        ReplayBranch::WaitHeld => "none"@,
        ReplayBranch::Overtraded => "long"@,
        _ => if expected_action == "OPEN_LONG"@ {
            "long"@
        } else {
            "short"@
        },
    }
}

/// The pattern label the simulated outcome carries.
pub open spec fn spec_replay_pattern(b: ReplayBranch) -> Seq<char> {
    match b {
        ReplayBranch::WaitHeld => "benchmark"@,
        ReplayBranch::Overtraded => "benchmark_overtrade"@,
        ReplayBranch::Misaligned => "benchmark_misaligned"@,
        ReplayBranch::Played => "benchmark_pass"@,
    }
}

/// The fewest qualified samples a replayed comparison asks for: the
/// policy's number, lowered to the suite's own qualified size when the
/// suite is smaller but not empty. The suite's size is the candidate's
/// count, or the smaller of both counts when the baseline has samples.
pub open spec fn spec_replay_min_samples(candidate_samples: int, baseline_samples: int, policy_min: int) -> int {
    let target = if baseline_samples > 0 && baseline_samples < candidate_samples {
        baseline_samples
    } else {
        candidate_samples
    };
    if 0 < target < policy_min {
        target
    } else {
        policy_min
    }
}

impl ReplayBranch {
    /// The side of the simulated position (`none` when it does not trade).
    pub fn side(&self, expected_action: &str) -> (r: &'static str)
        ensures
            r@ == spec_replay_side(*self, expected_action@),
    {
        match self {
            ReplayBranch::WaitHeld => "none",
            ReplayBranch::Overtraded => "long",
            _ => if str_eq(expected_action, "OPEN_LONG") {
                "long"
            } else {
                "short"
            },
        }
    }

    /// The pattern label of the simulated outcome.
    pub fn pattern(&self) -> (r: &'static str)
        ensures
            r@ == spec_replay_pattern(*self),
    {
        match self {
            ReplayBranch::WaitHeld => "benchmark",
            ReplayBranch::Overtraded => "benchmark_overtrade",
            ReplayBranch::Misaligned => "benchmark_misaligned",
            ReplayBranch::Played => "benchmark_pass",
        }
    }

    /// Whether the simulated outcome counts as a qualified sample: every
    /// path but a held wait does.
    pub fn qualified(&self) -> (r: bool)
        ensures
            r == !(*self is WaitHeld),
    {
        !matches!(self, ReplayBranch::WaitHeld)
    }

    /// Why the simulated outcome is (or is not) a qualified sample.
    pub fn qualification_reason(&self) -> (r: &'static str)
        ensures
            *self is WaitHeld ==> r@ == "观望基准切片，无成交"@,
            !(*self is WaitHeld) ==> r@ == "合格样本"@,
    {
        match self {
            ReplayBranch::WaitHeld => "观望基准切片，无成交",
            _ => "合格样本",
        }
    }

    /// How the simulated position ends, where the path alone decides it: a
    /// held wait never fills, a wrong trade is stopped out, and a played
    /// trade (`None`) ends by its simulated result.
    pub fn fixed_exit(&self) -> (r: Option<ExitReason>)
        ensures
            *self is WaitHeld ==> r == Some(ExitReason::Unfilled),
            (*self is Overtraded || *self is Misaligned) ==> r == Some(ExitReason::StopLoss),
            *self is Played ==> r is None,
    {
        match self {
            ReplayBranch::WaitHeld => Some(ExitReason::Unfilled),
            ReplayBranch::Overtraded => Some(ExitReason::StopLoss),
            ReplayBranch::Misaligned => Some(ExitReason::StopLoss),
            ReplayBranch::Played => None,
        }
    }
}

impl ReplayEvaluator {
    /// Whether the prompt speaks to the episode's market regime.
    pub fn handles_regime(prompt_content: &str, market_regime: &str) -> (r: bool)
        ensures
            r == spec_handles_regime(prompt_content@, market_regime@),
    {
        if str_eq(market_regime, "trading_range") || str_eq(market_regime, "chop") || str_eq(market_regime, "barbwire") {
            str_contains(prompt_content, "震荡") || str_contains(prompt_content, "观望")
                || str_contains(prompt_content, "range") || str_contains(prompt_content, "WAIT")
        } else if str_eq(market_regime, "spike") || str_eq(market_regime, "tight_channel") || str_eq(
            market_regime,
            "broad_channel",
        ) {
            str_contains(prompt_content, "趋势") || str_contains(prompt_content, "通道")
                || str_contains(prompt_content, "channel") || str_contains(prompt_content, "trend")
        } else {
            true
        }
    }

    /// Whether the prompt takes the action an episode of this regime expects:
    /// it is usable and speaks to the regime.
    pub fn takes_expected_action(prompt_content: &str, market_regime: &str) -> (r: bool)
        ensures
            r == spec_takes_expected_action(prompt_content@, market_regime@),
    {
        let v = chars_of(prompt_content);
        let usable = !is_blank(prompt_content) && bytes_exceed(&v, 49);
        usable && Self::handles_regime(prompt_content, market_regime)
    }

    /// The path a replay of the episode takes under the prompt.
    pub fn replay_branch(prompt_content: &str, market_regime: &str, expected_action: &str) -> (r: ReplayBranch)
        ensures
            r == spec_replay_branch(prompt_content@, market_regime@, expected_action@),
    {
        let takes = Self::takes_expected_action(prompt_content, market_regime);
        if str_eq(expected_action, "WAIT") {
            if takes {
                ReplayBranch::WaitHeld
            } else {
                ReplayBranch::Overtraded
            }
        } else if takes {
            ReplayBranch::Played
        } else {
            ReplayBranch::Misaligned
        }
    }

    /// The signal id of a simulated outcome: `sim_{version}_{episode}`.
    pub fn signal_id(prompt_version: &str, episode_id: &str) -> (r: String)
        ensures
            r@ == "sim_"@ + prompt_version@ + "_"@ + episode_id@,
    {
        let mut r = concat2("sim_", prompt_version);
        append(&mut r, "_");
        append(&mut r, episode_id);
        r
    }

    /// The decision record a simulated outcome points at: `rec_bench_{episode}`.
    pub fn decision_record_id(episode_id: &str) -> (r: String)
        ensures
            r@ == "rec_bench_"@ + episode_id@,
    {
        concat2("rec_bench_", episode_id)
    }

    /// The minimum sample count a candidate-versus-baseline replay uses.
    pub fn replay_min_samples(candidate_samples: usize, baseline_samples: usize, policy_min: usize) -> (r: usize)
        ensures
            r == spec_replay_min_samples(candidate_samples as int, baseline_samples as int, policy_min as int),
    {
        let target = if baseline_samples > 0 && baseline_samples < candidate_samples {
            baseline_samples
        } else {
            candidate_samples
        };
        if target < policy_min && target > 0 {
            target
        } else {
            policy_min
        }
    }
}

/// A replay never asks for more samples than the policy, and where it asks
/// for fewer it asks for what a non-empty suite holds: no more than the
/// candidate's samples, nor than the baseline's when it has any.
pub proof fn law_replay_min_samples_is_attainable(candidate_samples: int, baseline_samples: int, policy_min: int)
    requires
        0 <= candidate_samples,
        0 <= baseline_samples,
        0 <= policy_min,
    ensures
        ({
            let r = spec_replay_min_samples(candidate_samples, baseline_samples, policy_min);
            &&& r <= policy_min
            &&& r == policy_min || (0 < r <= candidate_samples && (baseline_samples > 0 ==> r <= baseline_samples))
        }),
{
}

/// A prompt that does not take the expected action never plays a trade,
/// and an episode that expects waiting never yields a played trade.
pub proof fn law_only_aligned_prompts_play(prompt: Seq<char>, regime: Seq<char>, expected_action: Seq<char>)
    ensures
        spec_replay_branch(prompt, regime, expected_action) is Played <==> (expected_action != "WAIT"@
            && spec_takes_expected_action(prompt, regime)),
        spec_replay_branch(prompt, regime, expected_action) is WaitHeld <==> (expected_action == "WAIT"@
            && spec_takes_expected_action(prompt, regime)),
        !prompt_usable(prompt) ==> !(spec_replay_branch(prompt, regime, expected_action) is Played)
            && !(spec_replay_branch(prompt, regime, expected_action) is WaitHeld),
{
}

} // verus!
