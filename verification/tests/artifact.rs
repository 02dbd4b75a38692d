use okx_pa_agent::artifact::{check_candidate_prompt, ActivePrompt, PromptArtifactStore, PromptIndex};
use okx_pa_agent::digest::content_hash;

fn store() -> PromptArtifactStore {
    PromptArtifactStore::new("/data/prompts/artifacts")
}

/// What the store would read back from the active version's file, given the
/// bodies written so far as (version, body) pairs.
fn serve(s: &PromptArtifactStore, idx: &PromptIndex, name: &str, files: &[(String, String)]) -> Option<ActivePrompt> {
    let body = files.iter().find(|(v, _)| *v == idx.active).map(|(_, b)| b.clone());
    s.active_prompt(idx, name, body)
}

#[test]
fn seeding_creates_and_activates_v1() {
    let s = store();
    let mut idx = s.index(None);
    let mut files: Vec<(String, String)> = Vec::new();
    let file = s.ensure_seeded(&mut idx, "strategy_v1", "PROMPT BODY", 1000).unwrap();
    assert_eq!(file.path, "/data/prompts/artifacts/strategy_v1/v1.txt");
    files.push(("v1".to_string(), file.content.clone()));
    let active = serve(&s, &idx, "strategy_v1", &files).unwrap();
    assert_eq!(active.version, "v1");
    assert_eq!(active.content, "PROMPT BODY");
    assert_eq!(active.hash, content_hash("PROMPT BODY"));

    // Idempotent: a second call keeps v1.
    assert!(s.ensure_seeded(&mut idx, "strategy_v1", "PROMPT BODY", 2000).is_none());
    let again = serve(&s, &idx, "strategy_v1", &files).unwrap();
    assert_eq!(again.version, "v1");
}

#[test]
fn publish_does_not_change_active_prompt() {
    let s = store();
    let mut idx = s.index(None);
    let mut files: Vec<(String, String)> = Vec::new();
    let seed = s.ensure_seeded(&mut idx, "s", "A", 1).unwrap();
    files.push(("v1".to_string(), seed.content));

    let (v2, file) = s.publish(&mut idx, "s", "B", "candidate", 2);
    assert_eq!(v2, "v2");
    files.push((v2.clone(), file.unwrap().content));
    // Still serving A.
    assert_eq!(serve(&s, &idx, "s", &files).unwrap().content, "A");

    s.activate(&mut idx, "v2").unwrap();
    assert_eq!(serve(&s, &idx, "s", &files).unwrap().content, "B");
}

#[test]
fn publish_is_content_addressed() {
    let s = store();
    let mut idx = s.index(None);
    s.ensure_seeded(&mut idx, "s", "A", 1).unwrap();
    let (v2, _) = s.publish(&mut idx, "s", "B", "", 2);
    assert_eq!(v2, "v2");
    // Same body again resolves to the same version, no v3.
    let (again, file) = s.publish(&mut idx, "s", "B", "", 3);
    assert_eq!(again, "v2");
    assert!(file.is_none());
    // Re-seeding baseline content resolves back to v1.
    let (v1, _) = s.publish(&mut idx, "s", "A", "", 4);
    assert_eq!(v1, "v1");
    assert_eq!(idx.versions.len(), 2);
}

#[test]
fn activate_rejects_unknown_version() {
    let s = store();
    let mut idx = s.index(None);
    s.ensure_seeded(&mut idx, "s", "A", 1).unwrap();
    let err = s.activate(&mut idx, "v99").unwrap_err();
    assert_eq!(err.message(), "prompt 版本 v99 不存在，拒绝激活");
    assert_eq!(idx.active, "v1");
}

#[test]
fn rollback_returns_to_previous_version() {
    let s = store();
    let mut idx = s.index(None);
    let mut files: Vec<(String, String)> = Vec::new();
    let seed = s.ensure_seeded(&mut idx, "s", "A", 1).unwrap();
    files.push(("v1".to_string(), seed.content));
    let (v2, file) = s.publish(&mut idx, "s", "B", "", 2);
    files.push((v2, file.unwrap().content));
    s.activate(&mut idx, "v2").unwrap();
    let reverted_version = s.rollback(&mut idx).unwrap();
    let reverted = serve(&s, &idx, "s", &files).unwrap();
    assert_eq!(reverted_version, "v1");
    assert_eq!(reverted.version, "v1");
    assert_eq!(reverted.content, "A");
    // Already at the oldest version: nothing to roll back to.
    assert!(s.rollback(&mut idx).is_none());
}

#[test]
fn active_prompt_carries_the_stored_hash() {
    let s = store();
    let mut idx = PromptIndex::new();
    s.ensure_seeded(&mut idx, "strategy", "abc", 1);
    let a = s.active_prompt(&idx, "strategy", Some("abc".to_string())).unwrap();
    assert_eq!(a.version, "v1");
    assert_eq!(a.hash, "ba7816bf8f01cfea");
    assert!(s.active_prompt(&idx, "strategy", None).is_none());
    assert!(s.active_prompt(&PromptIndex::new(), "strategy", Some("x".to_string())).is_none());
}

#[test]
fn store_paths_are_sanitised() {
    let s = store();
    assert_eq!(s.root(), "/data/prompts/artifacts");
    assert_eq!(s.name_dir("../etc"), "/data/prompts/artifacts/etc");
    assert_eq!(s.index_path("strategy"), "/data/prompts/artifacts/strategy/index.json");
    assert_eq!(s.version_path("strategy", "v1/../x"), "/data/prompts/artifacts/strategy/v1x.txt");
    assert_eq!(s.name_dir("..."), "/data/prompts/artifacts/default");
}

#[test]
fn candidates_must_be_substantial() {
    assert_eq!(check_candidate_prompt("   \n"), Err("候选 prompt 不能为空".to_string()));
    assert_eq!(
        check_candidate_prompt("too short"),
        Err("候选 prompt 过短（至少 200 字符），疑似误提交".to_string())
    );
    let long = "a".repeat(200);
    assert!(check_candidate_prompt(&format!("  {long}  ")).is_ok());
    // Bytes count, not characters: 67 three-byte characters are 201 bytes.
    assert!(check_candidate_prompt(&"趋".repeat(67)).is_ok());
    assert!(check_candidate_prompt(&"趋".repeat(66)).is_err());
}

#[test]
fn rollback_follows_publication_order_past_nine_versions() {
    let s = store();
    let mut idx = PromptIndex::new();
    s.ensure_seeded(&mut idx, "strategy", "baseline", 1);
    for k in 2..=11 {
        let (v, _) = s.publish(&mut idx, "strategy", &format!("candidate {k}"), "", k);
        assert_eq!(v, format!("v{k}"));
    }
    assert!(idx.is_well_formed());
    s.activate(&mut idx, "v10").unwrap();
    assert_eq!(s.rollback(&mut idx), Some("v9".to_string()));
    s.activate(&mut idx, "v11").unwrap();
    assert_eq!(s.rollback(&mut idx), Some("v10".to_string()));
    s.activate(&mut idx, "v2").unwrap();
    assert_eq!(s.rollback(&mut idx), Some("v1".to_string()));
    assert_eq!(s.rollback(&mut idx), None);
}
