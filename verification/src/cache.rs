//! The backtest decision cache: decisions stored under a fingerprint of the
//! market state they were made on, so that a rerun reuses them instead of
//! asking the model again.
//!
//! The cache file is read and written outside the library; the cache here
//! holds the entries and knows whether they changed since the last save.
use vstd::prelude::*;
use vstd::utf8::encode_utf8;
use crate::digest::{hex_encode, hex_lower, sha256, sha256_digest};
use crate::text::str_eq;

verus! {

broadcast use vstd::string::group_string_axioms;

// ---------------------------------------------------------------------------
// Fingerprints.
// ---------------------------------------------------------------------------

/// The newest bar of a frame, its prices by their IEEE-754 bit patterns.
#[derive(Debug, Clone, Copy)]
pub struct BarBits {
    pub ts_open: i64,
    pub open: u64,
    pub high: u64,
    pub low: u64,
    pub close: u64,
    pub volume: u64,
}

/// The newest bar of the confirming frame.
#[derive(Debug, Clone, Copy)]
pub struct HtfBits {
    pub ts_open: i64,
    pub close: u64,
}

/// What a fingerprint is taken over: the strategy, the frame's symbol and
/// timeframe, its newest bar and newest indicator values (floating-point
/// numbers by their bit patterns), and the confirming frame when there is
/// one (`Some(None)` when it has no bars).
#[derive(Debug)]
pub struct FingerprintInput {
    pub strategy_id: String,
    pub symbol: String,
    pub timeframe: String,
    pub latest_bar: Option<BarBits>,
    pub ema20: Option<u64>,
    pub atr14: Option<u64>,
    pub sma14: Option<u64>,
    pub sma170: Option<u64>,
    pub htf: Option<Option<HtfBits>>,
}

/// The eight little-endian bytes of `x`.
pub open spec fn le_bytes(x: u64) -> Seq<u8> {
    seq![
        (x & 0xff) as u8,
        ((x >> 8u64) & 0xff) as u8,
        ((x >> 16u64) & 0xff) as u8,
        ((x >> 24u64) & 0xff) as u8,
        ((x >> 32u64) & 0xff) as u8,
        ((x >> 40u64) & 0xff) as u8,
        ((x >> 48u64) & 0xff) as u8,
        ((x >> 56u64) & 0xff) as u8,
    ]
}

/// The bytes of an optional value: its little-endian bytes, or nothing.
pub open spec fn opt_le_bytes(x: Option<u64>) -> Seq<u8> {
    match x {
        Some(v) => le_bytes(v),
        None => Seq::empty(),
    }
}

/// The bytes of the newest bar: its opening time, then its prices and volume.
pub open spec fn bar_bytes(b: Option<BarBits>) -> Seq<u8> {
    match b {
        Some(b) => le_bytes(b.ts_open as u64) + le_bytes(b.open) + le_bytes(b.high) + le_bytes(b.low) + le_bytes(
            b.close,
        ) + le_bytes(b.volume),
        None => Seq::empty(),
    }
}

/// The bytes of the newest indicator values.
pub open spec fn indicator_bytes(f: FingerprintInput) -> Seq<u8> {
    opt_le_bytes(f.ema20) + opt_le_bytes(f.atr14) + opt_le_bytes(f.sma14) + opt_le_bytes(f.sma170)
}

/// The bytes of the confirming frame: `HTF`, then its newest bar's opening
/// time and close.
pub open spec fn htf_bytes(h: Option<Option<HtfBits>>) -> Seq<u8> {
    match h {
        Some(h) => seq![72u8, 84u8, 70u8] + match h {
            Some(b) => le_bytes(b.ts_open as u64) + le_bytes(b.close),
            None => Seq::empty(),
        },
        None => Seq::empty(),
    }
}

/// The bytes a fingerprint hashes, in the order they are fed.
pub open spec fn fingerprint_material(f: FingerprintInput) -> Seq<u8> {
    encode_utf8(f.strategy_id@) + encode_utf8(f.symbol@) + encode_utf8(f.timeframe@) + bar_bytes(f.latest_bar)
        + indicator_bytes(f) + htf_bytes(f.htf)
}

/// Appends bytes.
fn push_bytes(out: &mut Vec<u8>, b: &[u8])
    ensures
        final(out)@ == old(out)@ + b@,
{
    let mut i: usize = 0;
    while i < b.len()
        invariant
            0 <= i <= b.len(),
            out@ == old(out)@ + b@.take(i as int),
        decreases b.len() - i,
    {
        out.push(b[i]);
        proof {
            assert(b@.take(i + 1) =~= b@.take(i as int).push(b@[i as int]));
        }
        i += 1;
    }
    proof {
        assert(b@.take(b.len() as int) =~= b@);
    }
}

/// Appends the little-endian bytes of `x`.
fn push_le(out: &mut Vec<u8>, x: u64)
    ensures
        final(out)@ == old(out)@ + le_bytes(x),
{
    out.push((x & 0xff) as u8);
    out.push(((x >> 8u64) & 0xff) as u8);
    out.push(((x >> 16u64) & 0xff) as u8);
    out.push(((x >> 24u64) & 0xff) as u8);
    out.push(((x >> 32u64) & 0xff) as u8);
    out.push(((x >> 40u64) & 0xff) as u8);
    out.push(((x >> 48u64) & 0xff) as u8);
    out.push(((x >> 56u64) & 0xff) as u8);
    proof {
        assert(out@ =~= old(out)@ + le_bytes(x));
    }
}

/// Appends the bytes of an optional value.
fn push_opt_le(out: &mut Vec<u8>, x: Option<u64>)
    ensures
        final(out)@ == old(out)@ + opt_le_bytes(x),
{
    match x {
        Some(v) => push_le(out, v),
        None => {
            assert(out@ =~= old(out)@ + opt_le_bytes(x));
        },
    }
}

/// Appends the bytes of the newest bar.
fn push_bar(out: &mut Vec<u8>, b: Option<BarBits>)
    ensures
        final(out)@ == old(out)@ + bar_bytes(b),
{
    match b {
        Some(b) => {
            push_le(out, b.ts_open as u64);
            push_le(out, b.open);
            push_le(out, b.high);
            push_le(out, b.low);
            push_le(out, b.close);
            push_le(out, b.volume);
            proof {
                assert(out@ =~= old(out)@ + bar_bytes(Some(b)));
            }
        },
        None => {
            assert(out@ =~= old(out)@ + bar_bytes(None));
        },
    }
}

/// Appends the bytes of the newest indicator values.
fn push_indicators(out: &mut Vec<u8>, f: &FingerprintInput)
    ensures
        final(out)@ == old(out)@ + indicator_bytes(*f),
{
    push_opt_le(out, f.ema20);
    push_opt_le(out, f.atr14);
    push_opt_le(out, f.sma14);
    push_opt_le(out, f.sma170);
    proof {
        assert(out@ =~= old(out)@ + indicator_bytes(*f));
    }
}

/// Appends the bytes of the confirming frame.
fn push_htf(out: &mut Vec<u8>, h: Option<Option<HtfBits>>)
    ensures
        final(out)@ == old(out)@ + htf_bytes(h),
{
    match h {
        Some(inner) => {
            out.push(72u8);
            out.push(84u8);
            out.push(70u8);
            match inner {
                Some(b) => {
                    push_le(out, b.ts_open as u64);
                    push_le(out, b.close);
                },
                None => {},
            }
            proof {
                assert(out@ =~= old(out)@ + htf_bytes(h));
            }
        },
        None => {
            assert(out@ =~= old(out)@ + htf_bytes(h));
        },
    }
}

/// The fingerprint of a market state: the lowercase hexadecimal SHA-256 of
/// its material.
pub fn compute_fingerprint(f: &FingerprintInput) -> (r: String)
    ensures
        r@ == hex_lower(sha256(fingerprint_material(*f))),
{
    let mut m: Vec<u8> = Vec::new();
    push_bytes(&mut m, f.strategy_id.as_str().as_bytes());
    push_bytes(&mut m, f.symbol.as_str().as_bytes());
    push_bytes(&mut m, f.timeframe.as_str().as_bytes());
    push_bar(&mut m, f.latest_bar);
    push_indicators(&mut m, f);
    push_htf(&mut m, f.htf);
    proof {
        assert(m@ =~= fingerprint_material(*f));
    }
    let digest = sha256_digest(m.as_slice());
    hex_encode(digest.as_slice())
}

// ---------------------------------------------------------------------------
// The cache.
// ---------------------------------------------------------------------------

/// The decisions cached under fingerprints.
#[derive(Debug)]
pub struct DecisionCache<V> {
    entries: Vec<(String, V)>,
    dirty: bool,
}

/// The map a sequence of entries builds when inserted in order: a later
/// entry replaces an earlier one with the same key.
pub open spec fn map_of<V>(s: Seq<(String, V)>) -> Map<Seq<char>, V>
    decreases s.len(),
{
    if s.len() == 0 {
        Map::empty()
    } else {
        map_of(s.drop_last()).insert(s.last().0@, s.last().1)
    }
}

/// Whether no key occurs twice.
pub open spec fn distinct_keys<V>(s: Seq<(String, V)>) -> bool {
    forall|i: int, j: int| 0 <= i < j < s.len() ==> s[i].0@ != s[j].0@
}

proof fn lemma_map_of_finite<V>(s: Seq<(String, V)>)
    ensures
        map_of(s).dom().finite(),
    decreases s.len(),
{
    if s.len() > 0 {
        lemma_map_of_finite(s.drop_last());
    }
}

proof fn lemma_map_of_keys<V>(s: Seq<(String, V)>, k: Seq<char>)
    ensures
        map_of(s).dom().contains(k) <==> exists|i: int| 0 <= i < s.len() && s[i].0@ == k,
    decreases s.len(),
{
    if s.len() > 0 {
        lemma_map_of_keys(s.drop_last(), k);
        if map_of(s.drop_last()).dom().contains(k) {
            let i = choose|i: int| 0 <= i < s.drop_last().len() && s.drop_last()[i].0@ == k;
            assert(s[i].0@ == k);
        }
        if exists|i: int| 0 <= i < s.len() && s[i].0@ == k {
            let i = choose|i: int| 0 <= i < s.len() && s[i].0@ == k;
            if i < s.len() - 1 {
                assert(s.drop_last()[i].0@ == k);
            }
        }
    }
}

proof fn lemma_map_of_at<V>(s: Seq<(String, V)>, i: int)
    requires
        distinct_keys(s),
        0 <= i < s.len(),
    ensures
        map_of(s).dom().contains(s[i].0@),
        map_of(s)[s[i].0@] == s[i].1,
    decreases s.len(),
{
    if i < s.len() - 1 {
        lemma_map_of_at(s.drop_last(), i);
    }
}

proof fn lemma_map_of_update<V>(s: Seq<(String, V)>, i: int, e: (String, V))
    requires
        distinct_keys(s),
        0 <= i < s.len(),
        e.0@ == s[i].0@,
    ensures
        map_of(s.update(i, e)) == map_of(s).insert(e.0@, e.1),
    decreases s.len(),
{
    let t = s.update(i, e);
    if i == s.len() - 1 {
        assert(t.drop_last() =~= s.drop_last());
        assert(map_of(t) =~= map_of(s).insert(e.0@, e.1));
    } else {
        lemma_map_of_update(s.drop_last(), i, e);
        assert(t.drop_last() =~= s.drop_last().update(i, e));
        assert(s.last().0@ != e.0@);
        assert(map_of(t) =~= map_of(s).insert(e.0@, e.1));
    }
}

proof fn lemma_map_of_len<V>(s: Seq<(String, V)>)
    requires
        distinct_keys(s),
    ensures
        map_of(s).len() == s.len(),
    decreases s.len(),
{
    lemma_map_of_finite(s);
    if s.len() > 0 {
        lemma_map_of_len(s.drop_last());
        lemma_map_of_finite(s.drop_last());
        lemma_map_of_keys(s.drop_last(), s.last().0@);
        if map_of(s.drop_last()).dom().contains(s.last().0@) {
            let i = choose|i: int| 0 <= i < s.drop_last().len() && s.drop_last()[i].0@ == s.last().0@;
            assert(s[i].0@ == s[s.len() - 1].0@);
        }
    }
}

impl<V> DecisionCache<V> {
    /// The cached decisions by fingerprint.
    pub closed spec fn view_map(&self) -> Map<Seq<char>, V> {
        map_of(self.entries@)
    }

    /// Whether the entries changed since the cache was loaded or saved.
    pub closed spec fn changed(&self) -> bool {
        self.dirty
    }

    /// Every fingerprint is stored once.
    pub closed spec fn wf(&self) -> bool {
        distinct_keys(self.entries@)
    }

    /// An empty, unchanged cache.
    pub fn new() -> (c: Self)
        ensures
            c.wf(),
            c.view_map() == Map::<Seq<char>, V>::empty(),
            !c.changed(),
    {
        DecisionCache { entries: Vec::new(), dirty: false }
    }

    /// The index of the entry stored under `fingerprint`.
    fn position(&self, fingerprint: &str) -> (r: Option<usize>)
        ensures
            match r {
                Some(i) => i < self.entries.len() && self.entries@[i as int].0@ == fingerprint@,
                None => forall|i: int| 0 <= i < self.entries.len() ==> self.entries@[i].0@ != fingerprint@,
            },
    {
        let mut i: usize = 0;
        while i < self.entries.len()
            invariant
                0 <= i <= self.entries.len(),
                forall|k: int| 0 <= k < i ==> self.entries@[k].0@ != fingerprint@,
            decreases self.entries.len() - i,
        {
            if str_eq(self.entries[i].0.as_str(), fingerprint) {
                return Some(i);
            }
            i += 1;
        }
        None
    }

    /// The decision cached under `fingerprint`.
    pub fn get(&self, fingerprint: &str) -> (r: Option<&V>)
        requires
            self.wf(),
        ensures
            match r {
                Some(v) => self.view_map().dom().contains(fingerprint@) && *v == self.view_map()[fingerprint@],
                None => !self.view_map().dom().contains(fingerprint@),
            },
    {
        match self.position(fingerprint) {
            Some(i) => {
                proof {
                    lemma_map_of_at(self.entries@, i as int);
                }
                Some(&self.entries[i].1)
            },
            None => {
                proof {
                    lemma_map_of_keys(self.entries@, fingerprint@);
                }
                None
            },
        }
    }

    /// Caches `decision` under `fingerprint`, replacing what was there, and
    /// marks the cache changed.
    pub fn insert(&mut self, fingerprint: String, decision: V)
        requires
            old(self).wf(),
        ensures
            final(self).wf(),
            final(self).view_map() == old(self).view_map().insert(fingerprint@, decision),
            final(self).changed(),
    {
        match self.position(fingerprint.as_str()) {
            Some(i) => {
                let ghost e = (fingerprint, decision);
                proof {
                    lemma_map_of_update(self.entries@, i as int, e);
                }
                self.entries.set(i, (fingerprint, decision));
            },
            None => {
                let ghost before = self.entries@;
                self.entries.push((fingerprint, decision));
                proof {
                    assert(self.entries@.drop_last() =~= before);
                }
            },
        }
        self.dirty = true;
    }

    /// A cache loaded from stored entries, inserted in order (a later entry
    /// replaces an earlier one with the same fingerprint), unchanged.
    pub fn from_entries(entries: Vec<(String, V)>) -> (c: Self)
        ensures
            c.wf(),
            c.view_map() == map_of(entries@),
            !c.changed(),
    {
        let mut c = Self::new();
        let mut rest = entries;
        let ghost all = rest@;
        let total: usize = rest.len();
        let mut n: usize = 0;
        while rest.len() > 0
            invariant
                c.wf(),
                n + rest.len() == all.len(),
                all.len() == total,
                rest@ == all.skip(n as int),
                c.view_map() == map_of(all.take(n as int)),
            decreases rest.len(),
        {
            let (k, v) = rest.remove(0);
            proof {
                assert(all.take(n + 1).drop_last() =~= all.take(n as int));
                assert(all[n as int] == (k, v));
            }
            c.insert(k, v);
            n += 1;
            proof {
                assert(rest@ =~= all.skip(n as int));
            }
        }
        proof {
            assert(all.take(n as int) =~= all);
        }
        c.dirty = false;
        c
    }

    /// How many decisions are cached.
    pub fn len(&self) -> (r: usize)
        requires
            self.wf(),
        ensures
            r == self.view_map().len(),
    {
        proof {
            lemma_map_of_len(self.entries@);
        }
        self.entries.len()
    }

    /// Whether nothing is cached.
    pub fn is_empty(&self) -> (r: bool)
        requires
            self.wf(),
        ensures
            r == (self.view_map().len() == 0),
    {
        self.len() == 0
    }

    /// Whether the cache must be written back: it changed since it was
    /// loaded or last saved.
    pub fn needs_save(&self) -> (r: bool)
        ensures
            r == self.changed(),
    {
        self.dirty
    }

    /// The entries to write when saving.
    pub fn entries(&self) -> (r: &Vec<(String, V)>)
        requires
            self.wf(),
        ensures
            map_of(r@) == self.view_map(),
            distinct_keys(r@),
    {
        &self.entries
    }

    /// Records that the entries were written.
    pub fn mark_saved(&mut self)
        ensures
            final(self).view_map() == old(self).view_map(),
            final(self).wf() == old(self).wf(),
            !final(self).changed(),
    {
        self.dirty = false;
    }
}

/// A read gives back what the last write stored under the same
/// fingerprint, and a write leaves every other fingerprint as it was; a
/// write is saved only after it is marked saved.
pub proof fn law_read_after_write<V>(before: Map<Seq<char>, V>, fingerprint: Seq<char>, decision: V, other: Seq<char>)
    ensures
        before.insert(fingerprint, decision).dom().contains(fingerprint),
        before.insert(fingerprint, decision)[fingerprint] == decision,
        other != fingerprint ==> (before.insert(fingerprint, decision).dom().contains(other) <==> before.dom().contains(
            other,
        )),
        other != fingerprint && before.dom().contains(other) ==> before.insert(fingerprint, decision)[other]
            == before[other],
{
}

} // verus!
