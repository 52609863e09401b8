use mellow::visual_scripting::variable::{Variable, VariableInterpretAs, VariableKind, VariableReference};

fn text(s: &str) -> Variable {
    Variable::from(s.to_string())
}

fn member() -> Variable {
    Variable::create_map(
        vec![
            ("id".to_string(), text("42")),
            ("guild_id".to_string(), text("7")),
            ("roles".to_string(), Variable::from(vec![text("1"), text("2")])),
        ],
        Some(VariableInterpretAs::Member),
    )
}

#[test]
fn create_map_keeps_the_last_value_of_a_key() {
    let v = Variable::create_map(
        vec![("a".to_string(), text("first")), ("b".to_string(), text("x")), ("a".to_string(), text("second"))],
        None,
    );
    assert_eq!(v.interpret_as, VariableInterpretAs::NonSpecific);
    assert_eq!(v.as_map().unwrap().len(), 2);
    assert_eq!(v.get("a").cast_str(), "second");
    assert_eq!(v.get("b").cast_str(), "x");
}

#[test]
fn create_map_keeps_the_reading_asked_for() {
    assert_eq!(member().interpret_as, VariableInterpretAs::Member);
}

#[test]
fn set_then_get_reads_back_the_value() {
    let mut v = member();
    v.set("campaign", Variable::from(5u64));
    assert!(matches!(v.get("campaign").kind, VariableKind::UnsignedInteger(5)));
    v.set("id", text("43"));
    assert_eq!(v.get("id").cast_str(), "43");
    assert_eq!(v.get("guild_id").cast_str(), "7");
    assert_eq!(v.as_map().unwrap().len(), 4);
}

#[test]
fn as_map_mut_edits_in_place() {
    let mut v = member();
    v.as_map_mut().unwrap().push(("extra".to_string(), text("y")));
    assert_eq!(v.get("extra").cast_str(), "y");
    assert!(text("s").as_map().is_none());
}

#[test]
fn a_clone_equals_what_it_copies() {
    let v = member();
    let c = v.clone();
    assert!(c == v);
    assert!(v == v);
}

#[test]
fn dictionaries_are_equal_whatever_the_order() {
    let a = Variable::create_map(vec![("x".to_string(), text("1")), ("y".to_string(), text("2"))], None);
    let b = Variable::create_map(vec![("y".to_string(), text("2")), ("x".to_string(), text("1"))], None);
    let c = Variable::create_map(vec![("y".to_string(), text("3")), ("x".to_string(), text("1"))], None);
    assert!(a == b);
    assert!(a != c);
}

#[test]
fn readings_must_match_for_equality() {
    let a = Variable::create_map(vec![], None);
    let b = Variable::create_map(vec![], Some(VariableInterpretAs::Message));
    assert!(a != b);
}

#[test]
fn casts_read_strings_and_numbers() {
    assert_eq!(text("abc").cast_str(), "abc");
    assert_eq!(text("abc").cast_string(), "abc");
    assert_eq!(Variable::from(1234u64).cast_string(), "1234");
    assert_eq!(Variable::from(0u64).cast_string(), "0");
    assert_eq!(text("987654321").cast_id(), 987654321);
    assert_eq!(text("+12").cast_id(), 12);
}

#[test]
fn emptiness() {
    assert!(text("").is_empty());
    assert!(!text("a").is_empty());
    assert!(Variable::from(Vec::<Variable>::new()).is_empty());
    assert!(Variable::create_map(vec![], None).is_empty());
    assert!(!Variable::from(0u64).is_empty());
}

#[test]
fn contains_on_each_shape() {
    let roles = Variable::from(vec![text("1"), text("2")]);
    assert!(roles.contains(&text("2")));
    assert!(!roles.contains(&text("3")));
    assert!(text("hello world").contains(&text("lo w")));
    assert!(!text("hello").contains(&text("world")));
    assert!(member().contains(&text("7")));
    assert!(!Variable::from(3u64).contains(&Variable::from(3u64)));
}

#[test]
fn contains_only_and_one_of() {
    let a = Variable::from(vec![text("1"), text("2")]);
    let b = Variable::from(vec![text("2"), text("1"), text("3")]);
    let c = Variable::from(vec![text("4")]);
    assert!(a.contains_only(&b));
    assert!(!b.contains_only(&a));
    assert!(a.contains_one_of(&b));
    assert!(b.contains_one_of(&a));
    assert!(!a.contains_one_of(&c));
    assert!(!c.contains_one_of(&a));
    assert!(!text("1").contains_only(&b));
}

#[test]
fn starts_and_ends_with() {
    assert!(text("mellow").starts_with(&text("mel")));
    assert!(!text("mellow").starts_with(&text("low")));
    assert!(text("mellow").ends_with(&text("low")));
    let l = Variable::from(vec![text("a"), text("b")]);
    assert!(l.starts_with(&text("a")));
    assert!(l.ends_with(&text("b")));
    assert!(!Variable::from(Vec::<Variable>::new()).starts_with(&text("a")));
}

#[test]
fn references_follow_keys_and_indices() {
    let root = Variable::create_map(vec![("member".to_string(), member())], None);
    let id = VariableReference::new("member::id".to_string()).resolve(&root).unwrap();
    assert_eq!(id.cast_str(), "42");
    let role = VariableReference::new("member::roles::1".to_string()).resolve(&root).unwrap();
    assert_eq!(role.cast_str(), "2");
    assert!(VariableReference::new("member::roles::5".to_string()).resolve(&root).is_none());
    assert!(VariableReference::new("member::nickname".to_string()).resolve(&root).is_none());
    assert!(VariableReference::new("member::roles::first".to_string()).try_resolve_ref(&root).is_none());
}

#[test]
fn ids_become_decimal_strings() {
    let v = Variable::from_ids(&vec![10, 200]);
    match &v.kind {
        VariableKind::List(items) => {
            assert_eq!(items.len(), 2);
            assert_eq!(items[0].cast_str(), "10");
            assert_eq!(items[1].cast_str(), "200");
        },
        _ => panic!("not a list"),
    }
    assert_eq!(Variable::from_id(18446744073709551615).cast_str(), "18446744073709551615");
}

#[test]
fn dictionary_equality_goes_both_ways() {
    let dict = |entries: Vec<(&str, &str)>| Variable {
        kind: VariableKind::Dictionary(entries.into_iter().map(|(k, v)| (k.to_string(), text(v))).collect()),
        interpret_as: VariableInterpretAs::NonSpecific,
    };
    let repeated = dict(vec![("a", "1"), ("a", "1")]);
    let distinct = dict(vec![("a", "1"), ("b", "1")]);
    assert!(!repeated.equals(&distinct));
    assert!(!distinct.equals(&repeated));
    let reordered = dict(vec![("b", "1"), ("a", "1")]);
    assert!(distinct.equals(&reordered));
    assert!(reordered.equals(&distinct));
    let lists_a = Variable::from(vec![repeated.duplicate()]);
    let lists_b = Variable::from(vec![distinct.duplicate()]);
    assert!(!lists_a.contains_one_of(&lists_b));
    assert!(!lists_b.contains_one_of(&lists_a));
}
