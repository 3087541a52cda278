use quire_cli::lookup::{
    find_by_block_id, find_by_id, heading_matches, lookup_selector, normalize_heading,
    not_found_message, LookupSelector, SectionKey,
};

#[test]
fn section_numbers_are_dropped_from_headings() {
    assert_eq!(normalize_heading("  1.2 Scope "), "Scope");
    assert_eq!(normalize_heading("3. Behaviour"), "Behaviour");
    assert_eq!(normalize_heading("1.x Oddity"), "1.x Oddity");
    assert_eq!(normalize_heading("2024"), "2024");
    assert_eq!(normalize_heading("Plain"), "Plain");
}

#[test]
fn heading_lookup_ignores_numbers_and_ascii_case() {
    assert!(heading_matches("1.2 Scope", "scope"));
    assert!(heading_matches("Behavior", "2. BEHAVIOR"));
    assert!(!heading_matches("Scope", "Scopes"));
}

fn leaf(id: &str, block: Option<&str>) -> SectionKey {
    SectionKey {
        id: id.to_string(),
        block_id: block.map(|b| b.to_string()),
        children: vec![],
    }
}

fn tree() -> Vec<SectionKey> {
    vec![
        SectionKey {
            id: "intro-L1".to_string(),
            block_id: None,
            children: vec![leaf("why-L3", Some("why")), leaf("how-L5", None)],
        },
        leaf("behavior-L9", Some("behavior")),
    ]
}

#[test]
fn ids_are_found_depth_first_as_index_paths() {
    let t = tree();
    assert_eq!(find_by_id(&t, "intro-L1"), Some(vec![0]));
    assert_eq!(find_by_id(&t, "how-L5"), Some(vec![0, 1]));
    assert_eq!(find_by_id(&t, "behavior-L9"), Some(vec![1]));
    assert_eq!(find_by_id(&t, "nowhere"), None);
    assert_eq!(find_by_block_id(&t, "why"), Some(vec![0, 0]));
    assert_eq!(find_by_block_id(&t, "behavior"), Some(vec![1]));
    assert_eq!(find_by_block_id(&t, "intro-L1"), None);
}

#[test]
fn exactly_one_selector_is_required() {
    assert_eq!(
        lookup_selector(None, None, None, None).unwrap_err(),
        "lookup requires exactly one of --heading, --id, or --block-id"
    );
    assert!(lookup_selector(Some("a".into()), Some("b".into()), None, None).is_err());
    assert_eq!(
        lookup_selector(None, Some("x-L1".into()), None, None).unwrap(),
        LookupSelector::Id("x-L1".to_string())
    );
    assert_eq!(
        not_found_message(&LookupSelector::BlockId("b".to_string())),
        "section not found for --block-id 'b'"
    );
}

#[test]
fn a_numbered_heading_answers_its_bare_title() {
    assert_eq!(normalize_heading("1. Behavior"), "Behavior");
    assert_eq!(normalize_heading("12 Behavior"), "Behavior");
    assert!(heading_matches("1. Behavior", "behavior"));
    assert!(heading_matches("7 Scope", "SCOPE"));
}

#[test]
fn only_a_section_number_followed_by_whitespace_is_dropped() {
    assert_eq!(normalize_heading("10x Engineers"), "10x Engineers");
    assert_eq!(normalize_heading("1.x Foo"), "1.x Foo");
    assert_eq!(normalize_heading("1."), "1.");
    assert_eq!(normalize_heading("12"), "12");
    assert_eq!(normalize_heading("1.2.  Scope"), "Scope");
    assert_eq!(normalize_heading("1..2 Scope"), "1..2 Scope");
}
