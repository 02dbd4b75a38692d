//! Filesystem paths as text. Paths are joined the way `PathBuf::push` does
//! on Unix, and every directory hangs off an explicit project root.
use vstd::prelude::*;
use crate::text::{append, is_ascii_alphanumeric, is_ascii_alnum, owned, push_char, string_of, chars_of};

verus! {

/// `base.join(comp)` on Unix: an absolute `comp` replaces `base`; otherwise
/// a `/` separates the two unless `base` is empty or already ends in one.
pub open spec fn join_path(base: Seq<char>, comp: Seq<char>) -> Seq<char> {
    if comp.len() > 0 && comp[0] == '/' {
        comp
    } else if base.len() > 0 && base.last() != '/' {
        base + seq!['/'] + comp
    } else {
        base + comp
    }
}

/// The characters a file-name component may keep: ASCII letters, digits,
/// `-` and `_`.
pub open spec fn is_safe_char(c: char) -> bool {
    is_ascii_alnum(c) || c == '-' || c == '_'
}

/// `s` with every character that is not safe in a file name removed.
pub open spec fn keep_safe(s: Seq<char>) -> Seq<char>
    decreases s.len(),
{
    if s.len() == 0 {
        Seq::empty()
    } else if is_safe_char(s.last()) {
        keep_safe(s.drop_last()).push(s.last())
    } else {
        keep_safe(s.drop_last())
    }
}

/// The safe file-name component derived from `raw`, or `fallback` when no
/// character survives.
pub open spec fn sanitised(raw: Seq<char>, fallback: Seq<char>) -> Seq<char> {
    if keep_safe(raw).len() == 0 {
        fallback
    } else {
        keep_safe(raw)
    }
}

/// Every character of `keep_safe(s)` is safe.
pub proof fn lemma_keep_safe_chars(s: Seq<char>)
    ensures
        forall|i: int| 0 <= i < keep_safe(s).len() ==> is_safe_char(#[trigger] keep_safe(s)[i]),
    decreases s.len(),
{
    if s.len() > 0 {
        lemma_keep_safe_chars(s.drop_last());
        let prev = keep_safe(s.drop_last());
        assert forall|i: int| 0 <= i < keep_safe(s).len() implies is_safe_char(
            #[trigger] keep_safe(s)[i],
        ) by {
            if i < prev.len() {
                assert(keep_safe(s)[i] == prev[i]);
            }
        }
    }
}

/// `base` joined with `comp`.
pub fn path_join(base: &str, comp: &str) -> (r: String)
    ensures
        r@ == join_path(base@, comp@),
{
    let b = chars_of(base);
    let c = chars_of(comp);
    if c.len() > 0 && c[0] == '/' {
        return owned(comp);
    }
    let mut r = owned(base);
    if b.len() > 0 && b[b.len() - 1] != '/' {
        push_char(&mut r, '/');
    }
    append(&mut r, comp);
    r
}

/// The file-name-safe form of `raw`, or `fallback` when nothing is left.
pub fn sanitise(raw: &str, fallback: &str) -> (r: String)
    ensures
        r@ == sanitised(raw@, fallback@),
{
    let v = chars_of(raw);
    let mut kept: Vec<char> = Vec::new();
    let mut i: usize = 0;
    while i < v.len()
        invariant
            0 <= i <= v.len(),
            kept@ == keep_safe(v@.take(i as int)),
        decreases v.len() - i,
    {
        proof {
            assert(v@.take(i + 1).drop_last() =~= v@.take(i as int));
        }
        let c = v[i];
        if is_ascii_alphanumeric(c) || c == '-' || c == '_' {
            kept.push(c);
        }
        i += 1;
    }
    proof {
        assert(v@.take(v.len() as int) =~= v@);
    }
    if kept.len() == 0 {
        owned(fallback)
    } else {
        string_of(&kept)
    }
}

/// `<root>/config`.
pub fn config_dir(root: &str) -> (r: String)
    ensures
        r@ == join_path(root@, "config"@),
{
    path_join(root, "config")
}

/// `<root>/config/settings.json`.
pub fn settings_json_path(root: &str) -> (r: String)
    ensures
        r@ == join_path(join_path(root@, "config"@), "settings.json"@),
{
    path_join(config_dir(root).as_str(), "settings.json")
}

/// `<root>/prompt_engineering`.
pub fn prompt_dir(root: &str) -> (r: String)
    ensures
        r@ == join_path(root@, "prompt_engineering"@),
{
    path_join(root, "prompt_engineering")
}

/// `<root>/experience`.
pub fn experience_dir(root: &str) -> (r: String)
    ensures
        r@ == join_path(root@, "experience"@),
{
    path_join(root, "experience")
}

/// `<root>/records`.
pub fn records_dir(root: &str) -> (r: String)
    ensures
        r@ == join_path(root@, "records"@),
{
    path_join(root, "records")
}

/// `<root>/records/pending`.
pub fn pending_records_dir(root: &str) -> (r: String)
    ensures
        r@ == join_path(join_path(root@, "records"@), "pending"@),
{
    path_join(records_dir(root).as_str(), "pending")
}

/// Resolved trade outcomes, one file per signal id: `<root>/records/outcomes`.
pub fn outcomes_dir(root: &str) -> (r: String)
    ensures
        r@ == join_path(join_path(root@, "records"@), "outcomes"@),
{
    path_join(records_dir(root).as_str(), "outcomes")
}

/// Versioned prompt artifacts: `<root>/prompt_engineering/artifacts`.
pub fn prompt_artifacts_dir(root: &str) -> (r: String)
    ensures
        r@ == join_path(join_path(root@, "prompt_engineering"@), "artifacts"@),
{
    path_join(prompt_dir(root).as_str(), "artifacts")
}

/// Historical market slices for offline evaluation:
/// `<root>/records/benchmark_episodes`.
pub fn benchmark_episodes_dir(root: &str) -> (r: String)
    ensures
        r@ == join_path(join_path(root@, "records"@), "benchmark_episodes"@),
{
    path_join(records_dir(root).as_str(), "benchmark_episodes")
}

/// Modular prompt harness (core rules, skills, indicators):
/// `<root>/prompt_engineering/harness`.
pub fn harness_dir(root: &str) -> (r: String)
    ensures
        r@ == join_path(join_path(root@, "prompt_engineering"@), "harness"@),
{
    path_join(prompt_dir(root).as_str(), "harness")
}

} // verus!
