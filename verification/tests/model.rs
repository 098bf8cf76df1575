use lazygitrs::git::ModelPart;
use lazygitrs::model::Model;

#[test]
fn delivered_parts_fill_their_fields() {
    let mut m = Model::new();
    assert!(!m.apply_part(ModelPart::DiffStats { added: 5, deleted: 2 }));
    assert_eq!((m.total_additions, m.total_deletions), (5, 2));
    assert!(m.apply_part(ModelPart::Files(Vec::new())));
    assert!(!m.apply_part(ModelPart::RepoUrl("https://x".to_string())));
    assert_eq!(m.repo_url, "https://x");
    m.apply_part(ModelPart::RepoStatus {
        is_rebasing: true,
        is_merging: false,
        is_cherry_picking: false,
        is_bisecting: true,
        rebase_onto_hash: "abc".to_string(),
    });
    assert!(m.is_rebasing && m.is_bisecting && !m.is_merging);
    assert_eq!(m.rebase_onto_hash, "abc");
    assert_eq!((m.total_additions, m.total_deletions), (5, 2));
    m.apply_part(ModelPart::Contributors(vec![("Ann".to_string(), 3)]));
    assert_eq!(m.contributors, vec![("Ann".to_string(), 3)]);
}
