use hackc_core::namespace_env::{apply_auto_ns_map, AliasKind, Env, SMap};

fn rules(pairs: &[(&str, &str)]) -> Vec<(String, String)> {
    pairs.iter().map(|(p, c)| (p.to_string(), c.to_string())).collect()
}

#[test]
fn smap_get_returns_latest_binding() {
    let mut map = SMap::new();
    assert_eq!(map.get("C"), None);
    map.insert("C".to_string(), "B".to_string());
    map.insert("D".to_string(), "E".to_string());
    assert_eq!(map.get("C"), Some("B"));
    map.insert("C".to_string(), "Z".to_string());
    assert_eq!(map.get("C"), Some("Z"));
    assert_eq!(map.get("D"), Some("E"));
    assert_eq!(map.get(""), None);
}

#[test]
fn alias_declared_before_nested_namespace_is_visible_inside() {
    // namespace A; use B as C; namespace A\D; <reference to C>
    let env = Env::empty(Vec::new(), false, false);
    let env = env.with_namespace(Some("A"));
    let env = env.with_alias(AliasKind::Class, "C", "B");
    let env = env.with_namespace(Some("A\\D"));
    assert_eq!(env.resolve(AliasKind::Class, "C"), "B");
    assert_eq!(env.name.as_deref(), Some("A\\D"));
}

#[test]
fn earlier_environment_does_not_see_later_alias() {
    let before = Env::empty(Vec::new(), false, false).with_namespace(Some("A"));
    let after = before.with_alias(AliasKind::Class, "C", "B");
    assert_eq!(before.resolve(AliasKind::Class, "C"), "A\\C");
    assert_eq!(after.resolve(AliasKind::Class, "C"), "B");
}

#[test]
fn alias_is_kept_per_kind() {
    let env = Env::empty(Vec::new(), false, false).with_alias(AliasKind::Function, "f", "Lib\\f");
    assert_eq!(env.resolve(AliasKind::Function, "f"), "Lib\\f");
    assert_eq!(env.resolve(AliasKind::Class, "f"), "f");
    assert_eq!(env.resolve(AliasKind::Const, "f"), "f");
    assert_eq!(env.resolve(AliasKind::Namespace, "f"), "f");
    assert_eq!(env.resolve(AliasKind::RecordDef, "f"), "f");
    assert_eq!(env.uses(AliasKind::Function).get("f"), Some("Lib\\f"));
    assert_eq!(env.uses(AliasKind::Class).get("f"), None);
}

#[test]
fn unqualified_name_goes_into_current_namespace() {
    let env = Env::empty(rules(&[("Foo", "Bar")]), false, false).with_namespace(Some("N\\M"));
    assert_eq!(env.resolve(AliasKind::Class, "Foo"), "N\\M\\Foo");
}

#[test]
fn qualified_name_is_rewritten_by_first_matching_rule() {
    let env = Env::empty(
        rules(&[("Vec\\", "HH\\Lib\\Vec\\"), ("V", "W"), ("Dict\\", "HH\\Lib\\Dict\\")]),
        true,
        false,
    )
    .with_namespace(Some("N"));
    assert_eq!(env.resolve(AliasKind::Function, "Vec\\map"), "HH\\Lib\\Vec\\map");
    assert_eq!(env.resolve(AliasKind::Function, "Vx\\map"), "Wx\\map");
    assert_eq!(env.resolve(AliasKind::Function, "Dict\\keys"), "HH\\Lib\\Dict\\keys");
    assert_eq!(env.resolve(AliasKind::Function, "Other\\f"), "Other\\f");
}

#[test]
fn rules_apply_to_unqualified_name_in_global_namespace() {
    let env = Env::empty(rules(&[("Vec", "HH\\Vec")]), false, false);
    assert_eq!(env.resolve(AliasKind::Class, "Vector"), "HH\\Vector");
    assert_eq!(env.resolve(AliasKind::Class, "Map"), "Map");
}

#[test]
fn alias_wins_over_rules_and_namespace() {
    let env = Env::empty(rules(&[("A\\", "X\\")]), false, false)
        .with_namespace(Some("N"))
        .with_alias(AliasKind::Class, "A\\b", "Aliased")
        .with_alias(AliasKind::Class, "c", "Other\\c");
    assert_eq!(env.resolve(AliasKind::Class, "A\\b"), "Aliased");
    assert_eq!(env.resolve(AliasKind::Class, "c"), "Other\\c");
    assert_eq!(env.resolve(AliasKind::Class, "A\\c"), "X\\c");
}

#[test]
fn leaving_namespace_returns_to_global() {
    let env = Env::empty(Vec::new(), false, false).with_namespace(Some("A")).with_namespace(None);
    assert_eq!(env.name, None);
    assert_eq!(env.resolve(AliasKind::Class, "C"), "C");
}

#[test]
fn empty_environment_keeps_modes_and_rules() {
    let env = Env::empty(rules(&[("a", "b")]), true, false);
    assert!(env.is_codegen);
    assert!(!env.disable_xhp_element_mangling);
    assert_eq!(env.auto_ns_map, rules(&[("a", "b")]));
    assert_eq!(env.name, None);
    let env = Env::empty(Vec::new(), false, true);
    assert!(!env.is_codegen);
    assert!(env.disable_xhp_element_mangling);
}

#[test]
fn auto_ns_map_handles_non_ascii_and_empty_prefix() {
    assert_eq!(apply_auto_ns_map(&rules(&[("é", "e")]), "école"), Some("ecole".to_string()));
    assert_eq!(apply_auto_ns_map(&rules(&[("x", "y"), ("", "P\\")]), "name"), Some("P\\name".to_string()));
    assert_eq!(apply_auto_ns_map(&rules(&[("longer", "y")]), "long"), None);
    assert_eq!(apply_auto_ns_map(&Vec::new(), "long"), None);
}

#[test]
fn clone_of_environment_resolves_alike() {
    let env = Env::empty(rules(&[("A\\", "B\\")]), false, false)
        .with_namespace(Some("N"))
        .with_alias(AliasKind::Const, "K", "Lib\\K");
    let copy = env.clone();
    assert_eq!(copy.resolve(AliasKind::Const, "K"), "Lib\\K");
    assert_eq!(copy.resolve(AliasKind::Const, "A\\K"), "B\\K");
    assert_eq!(copy.resolve(AliasKind::Const, "J"), "N\\J");
}

#[test]
fn bindings_are_kept_in_order_of_declaration() {
    let mut map = SMap::new();
    assert!(map.bindings().is_empty());
    map.insert("b".to_string(), "1".to_string());
    map.insert("a".to_string(), "2".to_string());
    map.insert("b".to_string(), "3".to_string());
    assert_eq!(
        map.bindings(),
        vec![
            ("b".to_string(), "1".to_string()),
            ("a".to_string(), "2".to_string()),
            ("b".to_string(), "3".to_string()),
        ]
    );
    let copy = map.clone();
    assert_eq!(copy.get("b"), Some("3"));
    assert_eq!(copy.get("a"), Some("2"));
}
