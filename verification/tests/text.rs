use nodedb_control::identity::{
    AuthMethod, AuthenticatedIdentity, DatabaseId, DatabaseSet, Role, TenantId,
};
use nodedb_control::lists::reversed;
use nodedb_control::text::{
    chars_of, comes_before, decimal_text, eq_ignore_ascii_case, keyword_at_start, same_text, spells_at, starts_with,
    trim, trim_matches,
};
use nodedb_control::text_map::TextMap;

#[test]
fn texts_are_trimmed() {
    for s in ["", " ", "a", "  a b \t\n", "\u{a0}x\u{2003}", "\u{85}y\u{3000}", "\u{200b}z", "\u{b}v\u{c}"] {
        assert_eq!(trim(s), s.trim(), "for {s:?}");
        assert_eq!(trim_matches(s, 'x'), s.trim_matches('x'));
    }
    assert_eq!(trim_matches("''a''b'", '\''), "a''b");
    assert_eq!(trim_matches("'''", '\''), "");
}

#[test]
fn texts_are_compared() {
    assert!(same_text("é", "é"));
    assert!(!same_text("a", "ab"));
    assert!(eq_ignore_ascii_case("SiLent", "sIlENT"));
    assert!(!eq_ignore_ascii_case("É", "é"));
    assert!(!eq_ignore_ascii_case("a", "aa"));
    assert!(starts_with("Bearer x", "Bearer "));
    assert!(!starts_with("Bear", "Bearer"));
    let texts = ["", "A", "a", "ab", "b", "é", "\u{10000}", "\u{ffff}"];
    for a in texts {
        for b in texts {
            assert_eq!(comes_before(a, b), a < b, "for {a:?} and {b:?}");
        }
    }
}

#[test]
fn words_are_spelled_in_any_case() {
    let s = chars_of("é tO É{");
    assert!(spells_at(&s, 1, " TO "));
    assert!(!spells_at(&s, 0, " TO "));
    assert!(spells_at(&s, 5, "É"));
    assert!(!spells_at(&s, 0, "É"));
    assert!(!spells_at(&s, 6, "["));
    assert!(!spells_at(&s, 6, "{{"));
    assert!(spells_at(&s, 7, ""));
    assert!(!spells_at(&s, 8, ""));
}

#[test]
fn keywords_are_counted_in_characters() {
    let at_start = |s: &str, word: &str| keyword_at_start(&chars_of(s), word);
    assert_eq!(at_start("set x", "SET "), Some(4));
    assert_eq!(at_start("se\u{df}ion x", "SESSION "), Some(7));
    assert_eq!(at_start("\u{17f}E\u{17f}\u{17f}\u{131}ON x", "SESSION "), Some(8));
    assert_eq!(at_start("SET", "SET "), None);
    assert_eq!(at_start("sé", "SE"), None);
    assert_eq!(at_start("s\u{df}", "SS"), None);
    assert_eq!(at_start("\u{df}", "SS"), Some(1));
    assert_eq!(at_start("\u{df}", "S"), None);
    assert_eq!(at_start("", ""), Some(0));
}

#[test]
fn numbers_are_written_out() {
    for n in [0, 7, 10, 999, 1_000_000, u64::MAX] {
        assert_eq!(decimal_text(n), n.to_string());
    }
}

#[test]
fn maps_keep_their_keys_in_order() {
    let mut map: TextMap<u64> = TextMap::new();
    assert!(map.is_empty());
    for (key, value) in [("b", 1), ("a", 2), ("ab", 3), ("b", 4)] {
        map.insert(key.to_string(), value);
    }
    assert_eq!(map.get("b"), Some(&4));
    assert_eq!(map.get("ab"), Some(&3));
    assert_eq!(map.get("c"), None);
    let entries: Vec<(String, u64)> =
        map.copied().entries().iter().map(|e| (e.key.clone(), e.value)).collect();
    assert_eq!(
        entries,
        vec![("a".to_string(), 2), ("ab".to_string(), 3), ("b".to_string(), 4)]
    );
}

#[test]
fn lists_are_turned_round() {
    assert_eq!(reversed(vec![1, 2, 3]), vec![3, 2, 1]);
    assert_eq!(reversed(Vec::<u8>::new()), Vec::<u8>::new());
}

#[test]
fn roles_have_names() {
    let id = DatabaseId::new(12);
    let identity = AuthenticatedIdentity::new_regular(
        1,
        "u",
        TenantId::new(2),
        AuthMethod::ApiKey,
        vec![
            Role::TenantAdmin,
            Role::ReadWrite,
            Role::ReadOnly,
            Role::Monitor,
            Role::DatabaseOwner(id),
            Role::DatabaseEditor(id),
            Role::DatabaseReader(id),
            Role::Custom("auditor".into()),
        ],
        None,
        DatabaseSet::All,
    );
    assert_eq!(
        identity.role_names(),
        vec![
            "tenant_admin",
            "readwrite",
            "readonly",
            "monitor",
            "database_owner:12",
            "database_editor:12",
            "database_reader:12",
            "auditor"
        ]
    );
    assert!(identity.has_role(&Role::Custom("auditor".into())));
    assert!(!identity.has_role(&Role::DatabaseReader(DatabaseId::new(13))));
}
