//! Where resolved trades are kept and how reconciliation accounts for them.
//!
//! The stores work on names and summaries: the files themselves are read
//! and written outside the library, which hands in what it found (the file
//! names present, the creation times of the stored outcomes).
use vstd::prelude::*;
use crate::paths::{is_safe_char, join_path, keep_safe, lemma_keep_safe_chars, path_join, sanitise, sanitised};
use crate::text::is_ascii_alnum;
use crate::labels::{spec_parse_exit, ExitReason};
use crate::text::{append, concat2, contains_str, decimal, decimal_string, owned, views};

verus! {

broadcast use vstd::string::group_string_axioms;

// ---------------------------------------------------------------------------
// Outcome store.
// ---------------------------------------------------------------------------

/// One JSON file per signal under a directory.
#[derive(Debug)]
pub struct OutcomeStore {
    dir: String,
}

/// A signal id as a file stem: only ASCII letters, digits, `-` and `_`
/// survive, and an id with none of them is `unknown`.
pub open spec fn signal_stem(signal_id: Seq<char>) -> Seq<char> {
    sanitised(signal_id, "unknown"@)
}

/// Whether `a` comes before `b` in a newest-first listing: later creation
/// first, and among equal times the order they were found in.
pub open spec fn listed_before(keys: Seq<i64>, a: int, b: int) -> bool {
    keys[a] > keys[b] || (keys[a] == keys[b] && a < b)
}

/// `order` lists every index of `keys` once, newest first.
pub open spec fn newest_first(keys: Seq<i64>, order: Seq<usize>) -> bool {
    &&& order.len() == keys.len()
    &&& forall|i: int| 0 <= i < order.len() ==> order[i] < keys.len()
    &&& forall|i: int, j: int| 0 <= i < j < order.len() ==> listed_before(keys, order[i] as int, order[j] as int)
}

impl OutcomeStore {
    /// The directory the store keeps its files in.
    pub closed spec fn dir_path(&self) -> Seq<char> {
        self.dir@
    }

    /// A store over `dir`.
    pub fn new(dir: &str) -> (s: Self)
        ensures
            s.dir_path() == dir@,
    {
        OutcomeStore { dir: owned(dir) }
    }

    /// The store's directory.
    pub fn dir(&self) -> (r: &str)
        ensures
            r@ == self.dir_path(),
    {
        self.dir.as_str()
    }

    /// The file an outcome for `signal_id` lives in: its sanitised id with
    /// `.json`, inside the store's directory.
    pub fn path_for(&self, signal_id: &str) -> (r: String)
        ensures
            r@ == join_path(self.dir_path(), signal_stem(signal_id@) + ".json"@),
    {
        let stem = sanitise(signal_id, "unknown");
        let file = concat2(stem.as_str(), ".json");
        path_join(self.dir.as_str(), file.as_str())
    }

    /// Whether an outcome is stored for `signal_id`, given the paths of the
    /// regular files present.
    pub fn is_stored(&self, signal_id: &str, files: &Vec<String>) -> (r: bool)
        ensures
            r == views(files@).contains(join_path(self.dir_path(), signal_stem(signal_id@) + ".json"@)),
    {
        let p = self.path_for(signal_id);
        contains_str(files, p.as_str())
    }

    /// The order in which stored outcomes are listed, newest first by
    /// creation time (ties keep the order found), cut to `limit` entries.
    /// `created_ms` holds the creation time of each outcome found.
    pub fn list_order(&self, created_ms: &Vec<i64>, limit: usize) -> (r: Vec<usize>)
        ensures
            exists|full: Seq<usize>| #[trigger] newest_first(created_ms@, full) && r@ == (if full.len() > limit {
                full.take(limit as int)
            } else {
                full
            }),
    {
        let full = sort_newest_first(created_ms);
        if full.len() > limit {
            let mut r: Vec<usize> = Vec::new();
            let mut i: usize = 0;
            while i < limit
                invariant
                    limit < full.len(),
                    0 <= i <= limit,
                    r@ == full@.take(i as int),
                decreases limit - i,
            {
                r.push(full[i]);
                proof {
                    assert(full@.take(i + 1) =~= full@.take(i as int).push(full@[i as int]));
                }
                i += 1;
            }
            proof {
                assert(newest_first(created_ms@, full@));
            }
            r
        } else {
            proof {
                assert(newest_first(created_ms@, full@));
            }
            full
        }
    }

    /// How many outcomes are stored, given the outcomes listed.
    pub fn len(&self, listed: &Vec<i64>) -> (r: usize)
        ensures
            r == listed.len(),
    {
        listed.len()
    }

    /// Whether no outcome is stored, given the outcomes listed.
    pub fn is_empty(&self, listed: &Vec<i64>) -> (r: bool)
        ensures
            r == (listed.len() == 0),
    {
        self.len(listed) == 0
    }
}

/// Sorts the indices of `keys` newest first; ties keep their order.
pub fn sort_newest_first(keys: &Vec<i64>) -> (r: Vec<usize>)
    ensures
        newest_first(keys@, r@),
{
    let mut out: Vec<usize> = Vec::new();
    let mut i: usize = 0;
    while i < keys.len()
        invariant
            0 <= i <= keys.len(),
            out.len() == i,
            forall|a: int| 0 <= a < out.len() ==> out@[a] < i,
            forall|a: int, b: int|
                0 <= a < b < out.len() ==> listed_before(keys@, out@[a] as int, out@[b] as int),
        decreases keys.len() - i,
    {
        let k = keys[i];
        let mut p: usize = 0;
        while p < out.len() && keys[out[p]] >= k
            invariant
                0 <= p <= out.len(),
                out.len() == i,
                i < keys.len(),
                k == keys@[i as int],
                forall|a: int| 0 <= a < out.len() ==> out@[a] < i,
                forall|a: int| 0 <= a < p ==> keys@[out@[a] as int] >= k,
            decreases out.len() - p,
        {
            p += 1;
        }
        proof {
            assert forall|a: int| p <= a < out.len() implies keys@[out@[a] as int] < k by {
                if a > p {
                    assert(listed_before(keys@, out@[p as int] as int, out@[a] as int));
                }
            }
        }
        let ghost old_out = out@;
        out.insert(p, i);
        proof {
            assert forall|a: int, b: int| 0 <= a < b < out.len() implies listed_before(
                keys@,
                out@[a] as int,
                out@[b] as int,
            ) by {
                if a < p && b < p {
                    assert(out@[a] == old_out[a] && out@[b] == old_out[b]);
                } else if a < p && b == p {
                    assert(out@[a] == old_out[a]);
                } else if a < p && b > p {
                    assert(out@[a] == old_out[a] && out@[b] == old_out[b - 1]);
                    assert(listed_before(keys@, old_out[a] as int, old_out[b - 1] as int));
                } else if a == p {
                    assert(out@[b] == old_out[b - 1]);
                } else {
                    assert(out@[a] == old_out[a - 1] && out@[b] == old_out[b - 1]);
                }
            }
            assert forall|a: int| 0 <= a < out.len() implies out@[a] < i + 1 by {
                if a < p {
                    assert(out@[a] == old_out[a]);
                } else if a > p {
                    assert(out@[a] == old_out[a - 1]);
                }
            }
        }
        i += 1;
    }
    out
}

/// A newest-first listing holds every stored outcome exactly once.
pub proof fn law_listing_is_a_permutation(keys: Seq<i64>, order: Seq<usize>, k: int)
    requires
        newest_first(keys, order),
        0 <= k < keys.len(),
    ensures
        exists|i: int| 0 <= i < order.len() && order[i] == k,
        forall|i: int, j: int| 0 <= i < j < order.len() ==> order[i] != order[j],
{
    assert forall|i: int, j: int| 0 <= i < j < order.len() implies order[i] != order[j] by {
        assert(listed_before(keys, order[i] as int, order[j] as int));
    }
    lemma_distinct_in_range_covers(order, keys.len() as int, k);
}

/// `n` distinct values below `n` include every value below `n`.
pub(crate) proof fn lemma_distinct_in_range_covers(order: Seq<usize>, n: int, k: int)
    requires
        order.len() == n,
        forall|i: int| 0 <= i < order.len() ==> order[i] < n,
        forall|i: int, j: int| 0 <= i < j < order.len() ==> order[i] != order[j],
        0 <= k < n,
    ensures
        exists|i: int| 0 <= i < order.len() && order[i] == k,
{
    let s = order.to_set();
    let m: int = if n <= usize::MAX + 1 {
        n
    } else {
        usize::MAX + 1
    };
    let range = Set::<usize>::new(|x: usize| x < n);
    lemma_usize_range_len(m);
    assert(range =~= Set::<usize>::new(|x: usize| x < m));
    assert(order.no_duplicates());
    order.unique_seq_to_set();
    assert(s.subset_of(range));
    vstd::set_lib::lemma_len_subset(s, range);
    if !s.contains(k as usize) {
        assert(range.contains(k as usize));
        assert(s.subset_of(range.remove(k as usize)));
        vstd::set_lib::lemma_len_subset(s, range.remove(k as usize));
        assert(false);
    }
    assert(s.contains(k as usize));
}

/// There are `n` values of `usize` below `n`.
proof fn lemma_usize_range_len(n: int)
    requires
        0 <= n <= usize::MAX + 1,
    ensures
        Set::<usize>::new(|x: usize| x < n).finite(),
        Set::<usize>::new(|x: usize| x < n).len() == n,
    decreases n,
{
    if n == 0 {
        assert(Set::<usize>::new(|x: usize| x < n) =~= Set::<usize>::empty());
    } else {
        lemma_usize_range_len(n - 1);
        assert(Set::<usize>::new(|x: usize| x < n) =~= Set::<usize>::new(|x: usize| x < n - 1).insert(
            (n - 1) as usize,
        ));
    }
}

/// A newest-first listing never puts an older outcome ahead of a newer one.
pub proof fn law_listing_is_newest_first(keys: Seq<i64>, order: Seq<usize>, i: int, j: int)
    requires
        newest_first(keys, order),
        0 <= i < j < order.len(),
    ensures
        keys[order[i] as int] >= keys[order[j] as int],
{
    assert(listed_before(keys, order[i] as int, order[j] as int));
}

/// An outcome file never leaves the store's directory: whatever the signal
/// id, its stem keeps only ASCII letters, digits, `-` and `_` (so no `/`
/// and no `.`), is never empty, and the path starts with the directory.
pub proof fn law_outcome_path_stays_in_dir(dir: Seq<char>, signal_id: Seq<char>)
    ensures
        signal_stem(signal_id).len() > 0,
        forall|i: int| 0 <= i < signal_stem(signal_id).len() ==> is_safe_char(#[trigger] signal_stem(signal_id)[i]),
        join_path(dir, signal_stem(signal_id) + ".json"@).take(dir.len() as int) == dir,
{
    reveal_strlit("unknown");
    lemma_keep_safe_chars(signal_id);
    let stem = signal_stem(signal_id);
    if keep_safe(signal_id).len() == 0 {
        assert("unknown"@.len() == 7);
        assert forall|i: int| 0 <= i < stem.len() implies is_safe_char(#[trigger] stem[i]) by {
            assert(is_ascii_alnum(stem[i]));
        }
    }
    let comp = stem + ".json"@;
    assert(comp[0] == stem[0]);
    assert(is_safe_char(stem[0]));
    let p = join_path(dir, comp);
    if dir.len() > 0 && dir.last() != '/' {
        assert(p.take(dir.len() as int) =~= dir);
    } else {
        assert(p.take(dir.len() as int) =~= dir);
    }
}

// ---------------------------------------------------------------------------
// Which outcomes teach.
// ---------------------------------------------------------------------------

/// What the qualification of an outcome reads. The judgements on prices and
/// on the R multiple, which are floating-point, are made by the caller:
/// whether entry and stop are positive, whether the initial risk is
/// non-zero, whether the R multiple is finite and within the policy's
/// limit, and how the R multiple is written.
#[derive(Debug)]
pub struct QualificationFacts {
    pub filled: bool,
    pub prices_positive: bool,
    pub risk_nonzero: bool,
    pub hold_bars: u32,
    pub r_within_limit: bool,
    pub r_text: String,
    pub exit_reason: String,
}

/// The verdict on an outcome and its reason, the first failed condition in
/// order: filled (when required), valid prices, non-zero risk, long enough
/// held, a sane R multiple, and a known exit other than unfilled.
pub open spec fn spec_qualify(f: QualificationFacts, require_filled: bool, min_hold_bars: u32) -> (bool, Seq<char>) {
    if require_filled && !f.filled {
        (false, "入场单未成交，不构成可学习样本"@)
    } else if !f.prices_positive {
        (false, "入场价或止损价无效"@)
    } else if !f.risk_nonzero {
        (false, "初始风险为零，R 倍数无定义"@)
    } else if f.hold_bars < min_hold_bars {
        (false, "持仓仅 "@ + decimal(f.hold_bars as nat) + " 根 K 线，短于资格下限 "@ + decimal(min_hold_bars as nat))
    } else if !f.r_within_limit {
        (false, "R 倍数 "@ + f.r_text@ + " 超出合理范围（疑似价格或数量异常）"@)
    } else if spec_parse_exit(f.exit_reason@) is None || spec_parse_exit(f.exit_reason@) == Some(ExitReason::Unfilled) {
        (false, "未成交出场，样本不完整"@)
    } else {
        (true, "满足经验库准入条件"@)
    }
}

/// Decides whether an outcome may become training material, with the reason
/// stored beside it.
pub fn qualify(facts: &QualificationFacts, require_filled: bool, min_hold_bars: u32) -> (r: (bool, String))
    ensures
        (r.0, r.1@) == spec_qualify(*facts, require_filled, min_hold_bars),
{
    if require_filled && !facts.filled {
        return (false, String::from_str("入场单未成交，不构成可学习样本"));
    }
    if !facts.prices_positive {
        return (false, String::from_str("入场价或止损价无效"));
    }
    if !facts.risk_nonzero {
        return (false, String::from_str("初始风险为零，R 倍数无定义"));
    }
    if facts.hold_bars < min_hold_bars {
        let mut m = String::from_str("持仓仅 ");
        let held = decimal_string(facts.hold_bars as u64);
        append(&mut m, held.as_str());
        append(&mut m, " 根 K 线，短于资格下限 ");
        let min = decimal_string(min_hold_bars as u64);
        append(&mut m, min.as_str());
        return (false, m);
    }
    if !facts.r_within_limit {
        let mut m = String::from_str("R 倍数 ");
        append(&mut m, facts.r_text.as_str());
        append(&mut m, " 超出合理范围（疑似价格或数量异常）");
        return (false, m);
    }
    match ExitReason::parse(facts.exit_reason.as_str()) {
        None | Some(ExitReason::Unfilled) => (false, String::from_str("未成交出场，样本不完整")),
        _ => (true, String::from_str("满足经验库准入条件")),
    }
}

/// A qualified outcome was filled (when the policy asks), held at least the
/// minimum number of bars, and ended by a known exit other than unfilled.
pub proof fn law_qualified_outcomes_are_complete(f: QualificationFacts, require_filled: bool, min_hold_bars: u32)
    ensures
        spec_qualify(f, require_filled, min_hold_bars).0 ==> (!require_filled || f.filled) && f.prices_positive
            && f.risk_nonzero && f.hold_bars >= min_hold_bars && f.r_within_limit && (spec_parse_exit(f.exit_reason@) matches Some(e)
            && e != ExitReason::Unfilled),
{
}

} // verus!
