use verse_lsp::utils::{same_text, walk_decision, WalkDecision};

#[test]
fn noise_directories_are_skipped() {
    for name in [".git", ".urc", "__ExternalActors__", "__ExternalObjects__"] {
        assert_eq!(walk_decision(Some(name), None, "verse"), WalkDecision::Skip);
    }
    assert_eq!(walk_decision(Some(".git"), Some("verse"), "verse"), WalkDecision::Skip);
}

#[test]
fn files_with_the_extension_are_collected() {
    assert_eq!(walk_decision(Some("a.verse"), Some("verse"), "verse"), WalkDecision::Collect);
    assert_eq!(
        walk_decision(Some("game.vproject"), Some("vproject"), "vproject"),
        WalkDecision::Collect
    );
    assert_eq!(walk_decision(None, Some("verse"), "verse"), WalkDecision::Collect);
}

#[test]
fn other_entries_are_passed_over() {
    assert_eq!(walk_decision(Some("a.verse"), Some("verse"), "vproject"), WalkDecision::Continue);
    assert_eq!(walk_decision(Some("Content"), None, "verse"), WalkDecision::Continue);
    assert_eq!(walk_decision(Some(".gitignore"), None, "verse"), WalkDecision::Continue);
    assert_eq!(walk_decision(Some("a.VERSE"), Some("VERSE"), "verse"), WalkDecision::Continue);
    assert_eq!(walk_decision(None, None, "verse"), WalkDecision::Continue);
}

#[test]
fn texts_compare_whole() {
    assert!(same_text("verse", "verse"));
    assert!(!same_text("verse", "verse "));
    assert!(same_text("", ""));
}
