//! Versioned prompt artifacts.
//!
//! Every strategy prompt is content-addressed, stored under an explicit
//! version and recorded in a per-name index that also names the active
//! version. Publishing a candidate never changes the active version;
//! activation is a separate step, and rollback moves back to the version
//! that precedes the active one.
//!
//! The index is kept in memory as a vector in publication order, one entry
//! per version, so the version before the active one is the one published
//! before it. Reading and writing the files is left to the
//! caller: each operation here returns the file it wants written.
use vstd::prelude::*;
use crate::digest::{content_hash, content_hash_of};
use crate::paths::{join_path, path_join, sanitise, sanitised};
use crate::text::{
    concat2, decimal, decimal_string, digit_char, owned, str_eq, trim, trim_chars, chars_of,
};
use crate::mask::{byte_len, bytes_exceed};

verus! {

/// The abstract content of a [`PromptArtifact`].
pub struct ArtifactView {
    pub name: Seq<char>,
    pub version: Seq<char>,
    pub hash: Seq<char>,
    pub created_ms: i64,
    pub note: Seq<char>,
}

/// A prompt revision.
#[derive(Debug)]
pub struct PromptArtifact {
    pub name: String,
    pub version: String,
    pub hash: String,
    pub created_ms: i64,
    /// Free-form provenance note.
    pub note: String,
}

impl View for PromptArtifact {
    type V = ArtifactView;

    open spec fn view(&self) -> ArtifactView {
        ArtifactView {
            name: self.name@,
            version: self.version@,
            hash: self.hash@,
            created_ms: self.created_ms,
            note: self.note@,
        }
    }
}

impl PromptArtifact {
    /// A copy of this artifact.
    pub fn duplicate(&self) -> (r: PromptArtifact)
        ensures
            r@ == self@,
    {
        PromptArtifact {
            name: self.name.clone(),
            version: self.version.clone(),
            hash: self.hash.clone(),
            created_ms: self.created_ms,
            note: self.note.clone(),
        }
    }
}

/// The abstract content of a [`PromptIndex`].
pub struct IndexView {
    pub active: Seq<char>,
    pub versions: Seq<ArtifactView>,
}

/// Every published version of one prompt name, and which one is active.
///
/// `versions` is in publication order, one entry per version.
#[derive(Debug)]
pub struct PromptIndex {
    pub active: String,
    pub versions: Vec<PromptArtifact>,
}

impl View for PromptIndex {
    type V = IndexView;

    open spec fn view(&self) -> IndexView {
        IndexView { active: self.active@, versions: self.versions@.map_values(|a: PromptArtifact| a@) }
    }
}

/// A prompt ready to be injected into a request.
#[derive(Debug)]
pub struct ActivePrompt {
    pub name: String,
    pub version: String,
    pub hash: String,
    pub content: String,
}

/// A file the caller must write for an operation to take effect.
#[derive(Debug)]
pub struct VersionFile {
    pub path: String,
    pub content: String,
}

/// Why an artifact operation was refused.
#[derive(Debug)]
pub enum ArtifactError {
    /// The version to activate has never been published.
    UnknownVersion(String),
}

impl ArtifactError {
    /// The message shown to operators.
    pub fn message(&self) -> (r: String)
        ensures
            match self {
                ArtifactError::UnknownVersion(v) => r@ == "prompt 版本 "@ + v@ + " 不存在，拒绝激活"@,
            },
    {
        match self {
            ArtifactError::UnknownVersion(v) => {
                let mut s = concat2("prompt 版本 ", v.as_str());
                crate::text::append(&mut s, " 不存在，拒绝激活");
                s
            },
        }
    }
}

/// No two entries share a version.
pub open spec fn distinct(s: Seq<ArtifactView>) -> bool {
    forall|i: int, j: int| 0 <= i < j < s.len() ==> s[i].version != s[j].version
}

/// Whether some entry has version `v`.
pub open spec fn has_version(s: Seq<ArtifactView>, v: Seq<char>) -> bool {
    exists|i: int| 0 <= i < s.len() && s[i].version == v
}

/// Position of the first entry whose hash is `h`, or -1.
pub open spec fn first_hash(s: Seq<ArtifactView>, h: Seq<char>) -> int
    decreases s.len(),
{
    if s.len() == 0 {
        -1
    } else if s[0].hash == h {
        0
    } else {
        let r = first_hash(s.drop_first(), h);
        if r < 0 {
            -1
        } else {
            r + 1
        }
    }
}

/// Position of the first entry whose version is `v`, or -1.
pub open spec fn first_version(s: Seq<ArtifactView>, v: Seq<char>) -> int
    decreases s.len(),
{
    if s.len() == 0 {
        -1
    } else if s[0].version == v {
        0
    } else {
        let r = first_version(s.drop_first(), v);
        if r < 0 {
            -1
        } else {
            r + 1
        }
    }
}

/// Records `a` under its version: it replaces the entry with the same
/// version in place, or else is appended as the latest publication.
pub open spec fn upsert(s: Seq<ArtifactView>, a: ArtifactView) -> Seq<ArtifactView> {
    let p = first_version(s, a.version);
    if p >= 0 {
        s.update(p, a)
    } else {
        s.push(a)
    }
}

/// The version name given to the `n`-th published revision: `v<n>`.
pub open spec fn version_name(n: nat) -> Seq<char> {
    "v"@ + decimal(n)
}

/// Result of publishing `content`: the new index and the version that holds
/// the content. Identical content resolves to the first version already
/// holding it; otherwise a new version `v<count + 1>` is added, inactive.
pub open spec fn spec_publish(
    idx: IndexView,
    name: Seq<char>,
    content: Seq<char>,
    note: Seq<char>,
    created_ms: i64,
) -> (IndexView, Seq<char>) {
    let h = content_hash_of(content);
    let p = first_hash(idx.versions, h);
    if p >= 0 {
        (idx, idx.versions[p].version)
    } else {
        let v = version_name((idx.versions.len() + 1) as nat);
        (
            IndexView {
                active: idx.active,
                versions: upsert(
                    idx.versions,
                    ArtifactView { name, version: v, hash: h, created_ms, note },
                ),
            },
            v,
        )
    }
}

/// Result of activating `version`: `None` when it was never published.
pub open spec fn spec_activate(idx: IndexView, version: Seq<char>) -> Option<IndexView> {
    if has_version(idx.versions, version) {
        Some(IndexView { active: version, versions: idx.versions })
    } else {
        None
    }
}

/// The version a rollback returns to: the one just before the active one.
pub open spec fn spec_rollback_target(idx: IndexView) -> Option<Seq<char>> {
    let p = first_version(idx.versions, idx.active);
    if p <= 0 {
        None
    } else {
        Some(idx.versions[p - 1].version)
    }
}

/// The note recorded on the seeded baseline.
pub open spec fn seed_note() -> Seq<char> {
    "baseline seeded from compiled default"@
}

/// Whether an index still needs its baseline.
pub open spec fn needs_seed(idx: IndexView) -> bool {
    idx.versions.len() == 0 || idx.active.len() == 0
}

/// Result of seeding: an index without versions or without an active
/// version gets `v1` holding the built-in content, and `v1` becomes active.
pub open spec fn spec_seed(
    idx: IndexView,
    name: Seq<char>,
    content: Seq<char>,
    created_ms: i64,
) -> IndexView {
    if needs_seed(idx) {
        IndexView {
            active: version_name(1),
            versions: upsert(
                idx.versions,
                ArtifactView {
                    name,
                    version: version_name(1),
                    hash: content_hash_of(content),
                    created_ms,
                    note: seed_note(),
                },
            ),
        }
    } else {
        idx
    }
}

// ---------------------------------------------------------------------------
// Lemmas on the sequence model.
// ---------------------------------------------------------------------------

/// Characterises `first_hash`.
pub proof fn lemma_first_hash(s: Seq<ArtifactView>, h: Seq<char>)
    ensures
        -1 <= first_hash(s, h) < s.len(),
        first_hash(s, h) == -1 <==> (forall|j: int| 0 <= j < s.len() ==> s[j].hash != h),
        first_hash(s, h) >= 0 ==> s[first_hash(s, h)].hash == h && (forall|j: int|
            0 <= j < first_hash(s, h) ==> s[j].hash != h),
    decreases s.len(),
{
    if s.len() > 0 {
        lemma_first_hash(s.drop_first(), h);
        if s[0].hash != h {
            assert forall|j: int| 0 <= j < s.len() && s[j].hash == h implies first_hash(s, h)
                >= 0 by {
                assert(s.drop_first()[j - 1] == s[j]);
            }
            if first_hash(s, h) >= 0 {
                assert forall|j: int| 0 <= j < first_hash(s, h) implies s[j].hash != h by {
                    if j > 0 {
                        assert(s.drop_first()[j - 1] == s[j]);
                    }
                }
            }
        }
    }
}

/// Characterises `first_version`.
pub proof fn lemma_first_version(s: Seq<ArtifactView>, v: Seq<char>)
    ensures
        -1 <= first_version(s, v) < s.len(),
        first_version(s, v) == -1 <==> !has_version(s, v),
        first_version(s, v) >= 0 ==> s[first_version(s, v)].version == v && (forall|j: int|
            0 <= j < first_version(s, v) ==> s[j].version != v),
    decreases s.len(),
{
    if s.len() > 0 {
        lemma_first_version(s.drop_first(), v);
        if s[0].version != v {
            if has_version(s, v) {
                let j = choose|j: int| 0 <= j < s.len() && s[j].version == v;
                assert(s.drop_first()[j - 1] == s[j]);
            }
            if has_version(s.drop_first(), v) {
                let j = choose|j: int| 0 <= j < s.drop_first().len() && s.drop_first()[j].version
                    == v;
                assert(s[j + 1] == s.drop_first()[j]);
            }
            if first_version(s, v) >= 0 {
                assert forall|j: int| 0 <= j < first_version(s, v) implies s[j].version != v by {
                    if j > 0 {
                        assert(s.drop_first()[j - 1] == s[j]);
                    }
                }
            }
        } else {
            assert(has_version(s, v));
        }
    }
}

/// Recording an artifact keeps one entry per version.
pub proof fn lemma_upsert_distinct(s: Seq<ArtifactView>, a: ArtifactView)
    requires
        distinct(s),
    ensures
        distinct(upsert(s, a)),
{
    lemma_first_version(s, a.version);
    let p = first_version(s, a.version);
    let r = upsert(s, a);
    if p >= 0 {
        assert forall|i: int, j: int| 0 <= i < j < r.len() implies r[i].version != r[j].version by {
            if i != p && j != p {
                assert(r[i] == s[i] && r[j] == s[j]);
            } else if i == p {
                assert(r[j] == s[j]);
            } else {
                assert(r[i] == s[i]);
            }
        }
    } else {
        assert forall|i: int, j: int| 0 <= i < j < r.len() implies r[i].version != r[j].version by {
            if j < s.len() {
                assert(r[i] == s[i] && r[j] == s[j]);
            } else {
                assert(r[i] == s[i]);
                assert(r[j] == a);
            }
        }
    }
}

/// After an upsert the sequence holds `a`, and every other entry comes from
/// the original sequence.
pub proof fn lemma_upsert_members(s: Seq<ArtifactView>, a: ArtifactView)
    ensures
        exists|i: int| 0 <= i < upsert(s, a).len() && upsert(s, a)[i] == a,
        forall|i: int|
            0 <= i < upsert(s, a).len() ==> upsert(s, a)[i] == a || exists|j: int|
                0 <= j < s.len() && s[j] == #[trigger] upsert(s, a)[i],
{
    lemma_first_version(s, a.version);
    let p = first_version(s, a.version);
    let r = upsert(s, a);
    if p >= 0 {
        assert(r[p] == a);
        assert forall|i: int| 0 <= i < r.len() implies r[i] == a || exists|j: int|
            0 <= j < s.len() && s[j] == #[trigger] r[i] by {
            if i != p {
                assert(s[i] == r[i]);
            }
        }
    } else {
        assert(r[s.len() as int] == a);
        assert forall|i: int| 0 <= i < r.len() implies r[i] == a || exists|j: int|
            0 <= j < s.len() && s[j] == #[trigger] r[i] by {
            if i < s.len() {
                assert(s[i] == r[i]);
            }
        }
    }
}

// ---------------------------------------------------------------------------
// Laws of the artifact store.
// ---------------------------------------------------------------------------

/// Distinct digits have distinct characters.
proof fn lemma_digit_char_injective(a: nat, b: nat)
    requires
        a < 10,
        b < 10,
        digit_char(a) == digit_char(b),
    ensures
        a == b,
{
}

proof fn lemma_decimal_nonempty(n: nat)
    ensures
        decimal(n).len() >= 1,
        n >= 10 ==> decimal(n).len() >= 2,
    decreases n,
{
    if n >= 10 {
        lemma_decimal_nonempty(n / 10);
    }
}

/// Distinct numbers have distinct decimal representations.
pub proof fn lemma_decimal_injective(a: nat, b: nat)
    requires
        decimal(a) == decimal(b),
    ensures
        a == b,
    decreases a,
{
    lemma_decimal_nonempty(a);
    lemma_decimal_nonempty(b);
    if a < 10 && b < 10 {
        assert(decimal(a)[0] == digit_char(a));
        assert(decimal(b)[0] == digit_char(b));
        lemma_digit_char_injective(a, b);
    } else if a >= 10 && b >= 10 {
        let da = decimal(a);
        let db = decimal(b);
        assert(da.last() == digit_char(a % 10));
        assert(db.last() == digit_char(b % 10));
        lemma_digit_char_injective(a % 10, b % 10);
        assert(da.drop_last() =~= decimal(a / 10));
        assert(db.drop_last() =~= decimal(b / 10));
        lemma_decimal_injective(a / 10, b / 10);
    } else {
        assert(decimal(a).len() != decimal(b).len());
    }
}

/// Distinct publication numbers give distinct version names.
pub proof fn lemma_version_name_injective(a: nat, b: nat)
    requires
        version_name(a) == version_name(b),
    ensures
        a == b,
{
    reveal_strlit("v");
    assert(version_name(a).skip(1) =~= decimal(a));
    assert(version_name(b).skip(1) =~= decimal(b));
    lemma_decimal_injective(a, b);
}

/// The versions of an index built by seeding and publishing: the `j`-th
/// entry is `v<j+1>`.
pub open spec fn named_in_order(s: Seq<ArtifactView>) -> bool {
    forall|j: int| 0 <= j < s.len() ==> #[trigger] s[j].version == version_name((j + 1) as nat)
}

/// Publishing new content on an index named `v1`..`v<n>` appends `v<n+1>`,
/// holding that content, after the existing entries, and the index stays
/// named in order; content already published resolves to its version and
/// leaves the index unchanged. Either way the active version is kept.
pub proof fn law_publish_appends_next_version(
    idx: IndexView,
    name: Seq<char>,
    content: Seq<char>,
    note: Seq<char>,
    created_ms: i64,
)
    requires
        named_in_order(idx.versions),
    ensures
        ({
            let (next, v) = spec_publish(idx, name, content, note, created_ms);
            let n = idx.versions.len();
            let h = content_hash_of(content);
            &&& next.active == idx.active
            &&& named_in_order(next.versions)
            &&& if exists|j: int| 0 <= j < n && #[trigger] idx.versions[j].hash == h {
                next == idx && idx.versions[first_hash(idx.versions, h)].version == v
                    && idx.versions[first_hash(idx.versions, h)].hash == h
            } else {
                &&& v == version_name((n + 1) as nat)
                &&& next.versions == idx.versions.push(
                    ArtifactView { name, version: v, hash: h, created_ms, note },
                )
            }
        }),
{
    let h = content_hash_of(content);
    let n = idx.versions.len();
    lemma_first_hash(idx.versions, h);
    if first_hash(idx.versions, h) < 0 {
        let v = version_name((n + 1) as nat);
        lemma_first_version(idx.versions, v);
        if has_version(idx.versions, v) {
            let j = choose|j: int| 0 <= j < idx.versions.len() && idx.versions[j].version == v;
            assert(idx.versions[j].version == version_name((j + 1) as nat));
            lemma_version_name_injective((j + 1) as nat, (n + 1) as nat);
        }
        let (next, w) = spec_publish(idx, name, content, note, created_ms);
        let a = ArtifactView { name, version: v, hash: h, created_ms, note };
        assert(next.versions == idx.versions.push(a));
        assert forall|j: int| 0 <= j < next.versions.len() implies #[trigger] next.versions[j].version
            == version_name((j + 1) as nat) by {
            if j < n {
                assert(next.versions[j] == idx.versions[j]);
            }
        }
    }
}

/// Publishing never changes which version is active.
pub proof fn law_publish_keeps_active(
    idx: IndexView,
    name: Seq<char>,
    content: Seq<char>,
    note: Seq<char>,
    created_ms: i64,
)
    ensures
        spec_publish(idx, name, content, note, created_ms).0.active == idx.active,
{
}

/// After publishing, the returned version is in the index and holds the
/// fingerprint of the published content.
pub proof fn law_published_version_holds_content(
    idx: IndexView,
    name: Seq<char>,
    content: Seq<char>,
    note: Seq<char>,
    created_ms: i64,
)
    ensures
        ({
            let (next, v) = spec_publish(idx, name, content, note, created_ms);
            exists|i: int|
                0 <= i < next.versions.len() && next.versions[i].version == v
                    && next.versions[i].hash == content_hash_of(content)
        }),
{
    let h = content_hash_of(content);
    lemma_first_hash(idx.versions, h);
    let (next, v) = spec_publish(idx, name, content, note, created_ms);
    if first_hash(idx.versions, h) >= 0 {
        let p = first_hash(idx.versions, h);
        assert(next.versions[p].version == v && next.versions[p].hash == h);
    } else {
        let a = ArtifactView {
            name,
            version: version_name((idx.versions.len() + 1) as nat),
            hash: h,
            created_ms,
            note,
        };
        lemma_upsert_members(idx.versions, a);
        let k = choose|i: int| 0 <= i < next.versions.len() && next.versions[i] == a;
        assert(next.versions[k].version == v && next.versions[k].hash == h);
    }
}

/// Publishing is content-addressed: publishing the same content again
/// returns the same version and leaves the index as the first publication
/// left it.
pub proof fn law_publish_idempotent(
    idx: IndexView,
    name: Seq<char>,
    content: Seq<char>,
    note: Seq<char>,
    created_ms: i64,
    name2: Seq<char>,
    note2: Seq<char>,
    created_ms2: i64,
)
    ensures
        ({
            let (next, v) = spec_publish(idx, name, content, note, created_ms);
            spec_publish(next, name2, content, note2, created_ms2) == (next, v)
        }),
{
    let h = content_hash_of(content);
    lemma_first_hash(idx.versions, h);
    let (next, v) = spec_publish(idx, name, content, note, created_ms);
    if first_hash(idx.versions, h) < 0 {
        let a = ArtifactView {
            name,
            version: version_name((idx.versions.len() + 1) as nat),
            hash: h,
            created_ms,
            note,
        };
        lemma_upsert_members(idx.versions, a);
        lemma_first_hash(next.versions, h);
        let k = choose|i: int| 0 <= i < next.versions.len() && next.versions[i] == a;
        assert(next.versions[k].hash == h);
        let p = first_hash(next.versions, h);
        assert(p >= 0);
        if next.versions[p] != a {
            let j = choose|j: int| 0 <= j < idx.versions.len() && idx.versions[j] == next.versions[p];
            assert(idx.versions[j].hash == h);
        }
        assert(next.versions[p] == a);
    }
}

/// Activation succeeds exactly for published versions; it then makes that
/// version active and leaves the published versions as they were.
pub proof fn law_activate_only_published(idx: IndexView, version: Seq<char>)
    ensures
        spec_activate(idx, version) is Some <==> has_version(idx.versions, version),
        spec_activate(idx, version) matches Some(next) ==> next.active == version
            && next.versions == idx.versions,
{
}

/// A freshly published version can be activated, after which it is the
/// active version and holds the published content.
pub proof fn law_publish_then_activate(
    idx: IndexView,
    name: Seq<char>,
    content: Seq<char>,
    note: Seq<char>,
    created_ms: i64,
)
    ensures
        ({
            let (next, v) = spec_publish(idx, name, content, note, created_ms);
            &&& spec_activate(next, v) is Some
            &&& spec_activate(next, v).unwrap().active == v
            &&& exists|i: int|
                0 <= i < next.versions.len() && next.versions[i].version == v
                    && next.versions[i].hash == content_hash_of(content)
        }),
{
    law_published_version_holds_content(idx, name, content, note, created_ms);
    let (next, v) = spec_publish(idx, name, content, note, created_ms);
    let i = choose|i: int|
        0 <= i < next.versions.len() && next.versions[i].version == v && next.versions[i].hash
            == content_hash_of(content);
    assert(has_version(next.versions, v));
}

/// Rolling back right after activating a version that is not the oldest
/// returns to the version just before it, without touching the versions.
pub proof fn law_rollback_after_activate(idx: IndexView, j: int)
    requires
        distinct(idx.versions),
        0 < j < idx.versions.len(),
    ensures
        ({
            let next = spec_activate(idx, idx.versions[j].version).unwrap();
            &&& spec_rollback_target(next) == Some(idx.versions[j - 1].version)
            &&& next.versions == idx.versions
        }),
{
    let v = idx.versions[j].version;
    assert(has_version(idx.versions, v));
    let next = spec_activate(idx, v).unwrap();
    lemma_first_version(next.versions, v);
    let p = first_version(next.versions, v);
    assert(p >= 0);
}

/// Versions are kept in publication order: after new content is published
/// and activated, a rollback returns to the version published just before
/// it.
pub proof fn law_rollback_returns_to_previous_publication(
    idx: IndexView,
    name: Seq<char>,
    content: Seq<char>,
    note: Seq<char>,
    created_ms: i64,
)
    requires
        distinct(idx.versions),
        idx.versions.len() > 0,
        first_hash(idx.versions, content_hash_of(content)) == -1,
        !has_version(idx.versions, version_name((idx.versions.len() + 1) as nat)),
    ensures
        ({
            let (next, v) = spec_publish(idx, name, content, note, created_ms);
            &&& v == version_name((idx.versions.len() + 1) as nat)
            &&& next.versions == idx.versions.push(next.versions.last())
            &&& spec_activate(next, v) is Some
            &&& spec_rollback_target(spec_activate(next, v).unwrap()) == Some(idx.versions.last().version)
        }),
{
    let n = idx.versions.len();
    let v = version_name((n + 1) as nat);
    lemma_first_version(idx.versions, v);
    let (next, v2) = spec_publish(idx, name, content, note, created_ms);
    assert(v2 == v);
    assert(next.versions[n as int].version == v);
    assert(has_version(next.versions, v));
    let act = spec_activate(next, v).unwrap();
    lemma_first_version(act.versions, v);
    let p = first_version(act.versions, v);
    assert(p == n) by {
        if p < n {
            assert(act.versions[p] == idx.versions[p]);
        }
    }
    assert(act.versions[n - 1] == idx.versions[n - 1]);
}

/// Nothing precedes the oldest version: rollback from it does nothing.
pub proof fn law_rollback_at_oldest(idx: IndexView)
    requires
        idx.versions.len() > 0,
        idx.active == idx.versions[0].version,
    ensures
        spec_rollback_target(idx) is None,
{
    lemma_first_version(idx.versions, idx.active);
}

/// Seeding leaves an index that is served from a published version, and
/// seeding it again changes nothing.
pub proof fn law_seed_idempotent(
    idx: IndexView,
    name: Seq<char>,
    content: Seq<char>,
    created_ms: i64,
    name2: Seq<char>,
    content2: Seq<char>,
    created_ms2: i64,
)
    ensures
        ({
            let seeded = spec_seed(idx, name, content, created_ms);
            &&& !needs_seed(seeded)
            &&& spec_seed(seeded, name2, content2, created_ms2) == seeded
            &&& needs_seed(idx) ==> has_version(seeded.versions, seeded.active)
        }),
{
    let seeded = spec_seed(idx, name, content, created_ms);
    if needs_seed(idx) {
        let a = ArtifactView {
            name,
            version: version_name(1),
            hash: content_hash_of(content),
            created_ms,
            note: seed_note(),
        };
        lemma_upsert_members(idx.versions, a);
        assert(version_name(1).len() > 0);
        let k = choose|i: int| 0 <= i < seeded.versions.len() && seeded.versions[i] == a;
        assert(seeded.versions[k].version == seeded.active);
    }
}

// ---------------------------------------------------------------------------
// Executable index operations.
// ---------------------------------------------------------------------------

impl PromptIndex {
    /// An empty index (no versions, nothing active).
    pub fn new() -> (r: PromptIndex)
        ensures
            r@.active.len() == 0,
            r@.versions.len() == 0,
            r.wf(),
    {
        PromptIndex { active: String::new(), versions: Vec::new() }
    }

    /// The index keeps one entry per version.
    pub open spec fn wf(&self) -> bool {
        distinct(self@.versions)
    }

    /// Whether the index holds one entry per version.
    pub fn is_well_formed(&self) -> (r: bool)
        ensures
            r == self.wf(),
    {
        let n = self.versions.len();
        let mut j: usize = 0;
        while j < n
            invariant
                n == self.versions.len(),
                0 <= j <= n,
                forall|a: int, b: int| 0 <= a < b < j ==> self@.versions[a].version != self@.versions[b].version,
            decreases n - j,
        {
            let mut i: usize = 0;
            while i < j
                invariant
                    n == self.versions.len(),
                    0 <= i <= j < n,
                    forall|a: int| 0 <= a < i ==> self@.versions[a].version != self@.versions[j as int].version,
                decreases j - i,
            {
                if str_eq(self.versions[i].version.as_str(), self.versions[j].version.as_str()) {
                    proof {
                        assert(self@.versions[i as int].version == self.versions[i as int].version@);
                        assert(self@.versions[j as int].version == self.versions[j as int].version@);
                    }
                    return false;
                }
                proof {
                    assert(self@.versions[i as int].version == self.versions[i as int].version@);
                    assert(self@.versions[j as int].version == self.versions[j as int].version@);
                }
                i += 1;
            }
            j += 1;
        }
        true
    }

    /// Position of the first version whose hash is `h`.
    pub fn find_hash(&self, h: &str) -> (r: Option<usize>)
        ensures
            match r {
                Some(p) => p < self.versions.len() && p as int == first_hash(self@.versions, h@),
                None => first_hash(self@.versions, h@) == -1,
            },
    {
        proof {
            lemma_first_hash(self@.versions, h@);
        }
        let mut i: usize = 0;
        while i < self.versions.len()
            invariant
                0 <= i <= self.versions.len(),
                forall|j: int| 0 <= j < i ==> self@.versions[j].hash != h@,
            decreases self.versions.len() - i,
        {
            if str_eq(self.versions[i].hash.as_str(), h) {
                proof {
                    lemma_first_hash(self@.versions, h@);
                    assert(self@.versions[i as int].hash == h@);
                    let f = first_hash(self@.versions, h@);
                    assert(f >= 0);
                    assert(!(f < i));
                    assert(!(f > i));
                }
                return Some(i);
            }
            i += 1;
        }
        None
    }

    /// Position of the entry whose version is `v`.
    pub fn find_version(&self, v: &str) -> (r: Option<usize>)
        ensures
            match r {
                Some(p) => p < self.versions.len() && p as int == first_version(self@.versions, v@),
                None => first_version(self@.versions, v@) == -1,
            },
    {
        proof {
            lemma_first_version(self@.versions, v@);
        }
        let mut i: usize = 0;
        while i < self.versions.len()
            invariant
                0 <= i <= self.versions.len(),
                forall|j: int| 0 <= j < i ==> self@.versions[j].version != v@,
            decreases self.versions.len() - i,
        {
            if str_eq(self.versions[i].version.as_str(), v) {
                proof {
                    lemma_first_version(self@.versions, v@);
                    assert(self@.versions[i as int].version == v@);
                    let f = first_version(self@.versions, v@);
                    assert(f >= 0);
                    assert(!(f < i));
                    assert(!(f > i));
                }
                return Some(i);
            }
            i += 1;
        }
        None
    }

    /// Records `art` under its version: in place of the entry with that
    /// version, or else as the latest publication.
    pub fn upsert(&mut self, art: PromptArtifact)
        requires
            old(self).wf(),
        ensures
            final(self).wf(),
            final(self)@.active == old(self)@.active,
            final(self)@.versions == upsert(old(self)@.versions, art@),
    {
        let ghost s = self@.versions;
        let ghost a = art@;
        proof {
            lemma_upsert_distinct(s, a);
        }
        match self.find_version(art.version.as_str()) {
            Some(p) => {
                self.versions.set(p, art);
                proof {
                    assert(self@.versions =~= s.update(p as int, a));
                }
            },
            None => {
                self.versions.push(art);
                proof {
                    assert(self@.versions =~= s.push(a));
                }
            },
        }
    }
}

// ---------------------------------------------------------------------------
// The store: file layout and operations.
// ---------------------------------------------------------------------------

/// Prompt artifacts under one root directory: one subdirectory per prompt
/// name holding `index.json` and one `<version>.txt` per version.
#[derive(Debug)]
pub struct PromptArtifactStore {
    root: String,
}

impl PromptArtifactStore {
    /// The root directory as text.
    pub closed spec fn root_path(&self) -> Seq<char> {
        self.root@
    }

    /// Directory of one prompt name.
    pub open spec fn name_dir_of(&self, name: Seq<char>) -> Seq<char> {
        join_path(self.root_path(), sanitised(name, "default"@))
    }

    /// Path of the index of one prompt name.
    pub open spec fn index_path_of(&self, name: Seq<char>) -> Seq<char> {
        join_path(self.name_dir_of(name), "index.json"@)
    }

    /// Path of the body of one version.
    pub open spec fn version_path_of(&self, name: Seq<char>, version: Seq<char>) -> Seq<char> {
        join_path(self.name_dir_of(name), sanitised(version, "default"@) + ".txt"@)
    }

    /// A store rooted at `root`.
    pub fn new(root: &str) -> (r: PromptArtifactStore)
        ensures
            r.root_path() == root@,
    {
        PromptArtifactStore { root: owned(root) }
    }

    /// The root directory.
    pub fn root(&self) -> (r: &str)
        ensures
            r@ == self.root_path(),
    {
        self.root.as_str()
    }

    /// Directory of one prompt name.
    pub fn name_dir(&self, name: &str) -> (r: String)
        ensures
            r@ == self.name_dir_of(name@),
    {
        let safe = sanitise(name, "default");
        path_join(self.root.as_str(), safe.as_str())
    }

    /// Path of the index of one prompt name.
    pub fn index_path(&self, name: &str) -> (r: String)
        ensures
            r@ == self.index_path_of(name@),
    {
        let dir = self.name_dir(name);
        path_join(dir.as_str(), "index.json")
    }

    /// Path of the body of one version.
    pub fn version_path(&self, name: &str, version: &str) -> (r: String)
        ensures
            r@ == self.version_path_of(name@, version@),
    {
        let dir = self.name_dir(name);
        let safe = sanitise(version, "default");
        let file = concat2(safe.as_str(), ".txt");
        path_join(dir.as_str(), file.as_str())
    }

    /// The index of a prompt name, given what was read from its index file:
    /// an unreadable or missing index is an empty one.
    pub fn index(&self, stored: Option<PromptIndex>) -> (r: PromptIndex)
        ensures
            match stored {
                Some(i) => r == i,
                None => r@.active.len() == 0 && r@.versions.len() == 0,
            },
    {
        match stored {
            Some(i) => i,
            None => PromptIndex::new(),
        }
    }

    /// Seeds `v1` with the built-in content when the index has no versions
    /// or nothing active, and makes it active. Returns the version body to
    /// write, if any; the index file must be written afterwards.
    pub fn ensure_seeded(
        &self,
        index: &mut PromptIndex,
        name: &str,
        builtin_content: &str,
        created_ms: i64,
    ) -> (r: Option<VersionFile>)
        requires
            old(index).wf(),
        ensures
            final(index).wf(),
            final(index)@ == spec_seed(old(index)@, name@, builtin_content@, created_ms),
            match r {
                Some(f) => needs_seed(old(index)@) && f.path@ == self.version_path_of(
                    name@,
                    version_name(1),
                ) && f.content@ == builtin_content@,
                None => !needs_seed(old(index)@),
            },
    {
        if index.versions.len() == 0 || index.active.as_str().is_empty() {
            let version = owned("v1");
            proof {
                reveal_strlit("v1");
                reveal_strlit("v");
                assert(version_name(1) =~= "v1"@);
            }
            let art = PromptArtifact {
                name: owned(name),
                version: version.clone(),
                hash: content_hash(builtin_content),
                created_ms,
                note: owned("baseline seeded from compiled default"),
            };
            index.upsert(art);
            index.active = version;
            let path = self.version_path(name, "v1");
            Some(VersionFile { path, content: owned(builtin_content) })
        } else {
            None
        }
    }

    /// The active prompt, given the body read from the active version's
    /// file (`None` when it could not be read). The recorded hash is
    /// preferred; without one the body is hashed.
    pub fn active_prompt(&self, index: &PromptIndex, name: &str, content: Option<String>) -> (r:
        Option<ActivePrompt>)
        ensures
            index@.active.len() == 0 || content.is_none() <==> r.is_none(),
            match r {
                Some(a) => {
                    &&& a.name@ == name@
                    &&& a.version@ == index@.active
                    &&& a.content@ == content.unwrap()@
                    &&& a.hash@ == (if first_version(index@.versions, index@.active) >= 0 {
                        index@.versions[first_version(index@.versions, index@.active)].hash
                    } else {
                        content_hash_of(content.unwrap()@)
                    })
                },
                None => true,
            },
    {
        if index.active.as_str().is_empty() {
            return None;
        }
        match content {
            None => None,
            Some(body) => {
                let hash = match index.find_version(index.active.as_str()) {
                    Some(p) => index.versions[p].hash.clone(),
                    None => content_hash(body.as_str()),
                };
                Some(
                    ActivePrompt {
                        name: owned(name),
                        version: index.active.clone(),
                        hash,
                        content: body,
                    },
                )
            },
        }
    }

    /// Publishes `content` as a new inactive version and returns the version
    /// that holds it. Identical content resolves to the existing version and
    /// leaves the index untouched. The returned file, when present, must be
    /// written before the index.
    pub fn publish(
        &self,
        index: &mut PromptIndex,
        name: &str,
        content: &str,
        note: &str,
        created_ms: i64,
    ) -> (r: (String, Option<VersionFile>))
        requires
            old(index).wf(),
            old(index).versions.len() < u64::MAX,
        ensures
            final(index).wf(),
            (final(index)@, r.0@) == spec_publish(old(index)@, name@, content@, note@, created_ms),
            match r.1 {
                Some(f) => f.path@ == self.version_path_of(name@, r.0@) && f.content@ == content@
                    && first_hash(old(index)@.versions, content_hash_of(content@)) == -1,
                None => first_hash(old(index)@.versions, content_hash_of(content@)) >= 0,
            },
    {
        let hash = content_hash(content);
        match index.find_hash(hash.as_str()) {
            Some(p) => {
                let v = index.versions[p].version.clone();
                (v, None)
            },
            None => {
                let n = index.versions.len() as u64 + 1;
                let digits = decimal_string(n);
                let version = concat2("v", digits.as_str());
                let art = PromptArtifact {
                    name: owned(name),
                    version: version.clone(),
                    hash,
                    created_ms,
                    note: owned(note),
                };
                index.upsert(art);
                let path = self.version_path(name, version.as_str());
                (version, Some(VersionFile { path, content: owned(content) }))
            },
        }
    }

    /// Makes a published version active. This is the only operation that
    /// changes which prompt is served; an unknown version is refused and the
    /// index is left untouched.
    pub fn activate(&self, index: &mut PromptIndex, version: &str) -> (r: Result<
        (),
        ArtifactError,
    >)
        requires
            old(index).wf(),
        ensures
            final(index).wf(),
            match spec_activate(old(index)@, version@) {
                Some(next) => r is Ok && final(index)@ == next,
                None => r is Err && final(index)@ == old(index)@,
            },
            r matches Err(ArtifactError::UnknownVersion(v)) ==> v@ == version@,
    {
        proof {
            lemma_first_version(index@.versions, version@);
        }
        match index.find_version(version) {
            Some(_) => {
                index.active = owned(version);
                Ok(())
            },
            None => Err(ArtifactError::UnknownVersion(owned(version))),
        }
    }

    /// Reverts to the version just before the active one and returns it;
    /// `None` when the active version is the first or is not published.
    pub fn rollback(&self, index: &mut PromptIndex) -> (r: Option<String>)
        requires
            old(index).wf(),
        ensures
            final(index).wf(),
            match spec_rollback_target(old(index)@) {
                Some(prev) => r is Some && r.unwrap()@ == prev && final(index)@ == IndexView {
                    active: prev,
                    versions: old(index)@.versions,
                },
                None => r is None && final(index)@ == old(index)@,
            },
    {
        proof {
            lemma_first_version(index@.versions, index@.active);
        }
        let pos = index.find_version(index.active.as_str());
        match pos {
            Some(p) => {
                if p == 0 {
                    None
                } else {
                    let prev = index.versions[p - 1].version.clone();
                    index.active = prev.clone();
                    Some(prev)
                }
            },
            None => None,
        }
    }
}

// ---------------------------------------------------------------------------
// Submitted candidates.
// ---------------------------------------------------------------------------

/// The verdict on a prompt submitted as a candidate: it must not be blank,
/// and its trimmed text must hold at least 200 bytes.
pub open spec fn spec_candidate_check(content: Seq<char>) -> Result<(), Seq<char>> {
    if trim(content).len() == 0 {
        Err("候选 prompt 不能为空"@)
    } else if byte_len(trim(content)) < 200 {
        Err("候选 prompt 过短（至少 200 字符），疑似误提交"@)
    } else {
        Ok(())
    }
}

/// Checks a prompt submitted as a candidate before it is published.
pub fn check_candidate_prompt(content: &str) -> (r: Result<(), String>)
    ensures
        match r {
            Ok(()) => spec_candidate_check(content@) == Ok::<(), Seq<char>>(()),
            Err(e) => spec_candidate_check(content@) == Err::<(), Seq<char>>(e@),
        },
{
    let t = trim_chars(&chars_of(content));
    if t.len() == 0 {
        return Err(String::from_str("候选 prompt 不能为空"));
    }
    if !bytes_exceed(&t, 199) {
        return Err(String::from_str("候选 prompt 过短（至少 200 字符），疑似误提交"));
    }
    Ok(())
}

} // verus!
