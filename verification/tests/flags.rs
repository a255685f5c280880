use bagger::flag::{Flag, FlagMap, FlagSet, Flags};

#[test]
fn interning_twice_gives_the_same_flag() {
    let mut flags = Flags::new();
    let a = Flag::from_str(&mut flags, "static");
    let b = Flag::new(&mut flags, "include".to_string());
    let c = Flag::from_str(&mut flags, "static");
    assert_eq!(a, c);
    assert_ne!(a, b);
    assert_eq!(a.name(&flags), "static");
    assert_eq!(b.name(&flags), "include");
}

#[test]
fn equal_names_give_equal_flags_in_either_order() {
    let mut one = Flags::new();
    let a1 = Flag::from_str(&mut one, "a");
    let b1 = Flag::from_str(&mut one, "b");
    let a2 = Flag::from_str(&mut one, "a");
    let b2 = Flag::from_str(&mut one, "b");
    assert_eq!(a1, a2);
    assert_eq!(b1, b2);
    assert_ne!(a1, b1);
    assert_eq!(one.len(), 3);
}

#[test]
fn a_registry_starts_with_the_artifact_flag() {
    let mut flags = Flags::new();
    assert_eq!(flags.len(), 1);
    assert_eq!(Flag::artifact().name(&flags), "artifact");
    assert_eq!(Flag::from_str(&mut flags, "artifact"), Flag::artifact());
    assert_eq!(flags.len(), 1);
}

#[test]
fn lookup_finds_only_what_was_interned() {
    let mut flags = Flags::new();
    let content = flags.intern("content".to_string());
    assert_eq!(flags.lookup(&"content".to_string()), Some(content));
    assert_eq!(flags.lookup(&"missing".to_string()), None);
    assert_eq!(flags.name_of(content), Some("content".to_string()));
    let other = Flags::new();
    assert_eq!(other.name_of(content), None);
}

#[test]
fn with_name_hands_the_name_to_the_function() {
    let mut flags = Flags::new();
    let flag = Flag::from_str(&mut flags, "static");
    assert_eq!(flag.with_name(&flags, |name| name.len()), 6);
}

#[test]
fn a_flag_set_holds_each_flag_once_in_insertion_order() {
    let mut flags = Flags::new();
    let a = Flag::from_str(&mut flags, "a");
    let b = Flag::from_str(&mut flags, "b");
    let c = Flag::from_str(&mut flags, "c");
    let mut set = FlagSet::new();
    assert!(set.insert(b));
    assert!(set.insert(a));
    assert!(!set.insert(b));
    assert_eq!(set.len(), 2);
    assert!(set.contains(&a));
    assert!(!set.contains(&c));

    let mut other = FlagSet::new();
    other.insert(a);
    assert_eq!(set.first_missing(&other), Some(b));
    assert_eq!(other.first_missing(&set), None);
    assert_eq!(set.first_common(&other), Some(a));

    assert!(set.remove(&b));
    assert!(!set.remove(&b));
    assert_eq!(set.len(), 1);
    assert_eq!(set.first_missing(&other), None);
}

#[test]
fn extending_a_flag_set_adds_what_is_new() {
    let mut flags = Flags::new();
    let a = Flag::from_str(&mut flags, "a");
    let b = Flag::from_str(&mut flags, "b");
    let c = Flag::from_str(&mut flags, "c");
    let mut set = FlagSet::new();
    set.insert(a);
    set.extend(&vec![b, a, b]);
    assert_eq!(set.len(), 2);

    let mut declared = FlagSet::new();
    declared.extend(&vec![a, b, c]);
    let mut required = FlagSet::new();
    required.insert(c);
    let mut satisfied = FlagSet::new();
    satisfied.extend_common(&declared, &required);
    assert_eq!(satisfied.len(), 1);
    assert!(satisfied.contains(&c));
    let copy = satisfied.duplicate();
    assert!(copy.contains(&c));
    assert_eq!(copy.len(), 1);
}

#[test]
fn a_later_argument_replaces_an_earlier_one() {
    let mut flags = Flags::new();
    let content = Flag::from_str(&mut flags, "content");
    let size = Flag::from_str(&mut flags, "size");
    let mut map = FlagMap::new();
    assert_eq!(map.get(&content), None);
    map.insert(content, "image/png".to_string());
    map.insert(size, "120px".to_string());
    map.insert(content, "text/plain".to_string());
    assert_eq!(map.get(&content), Some(&"text/plain".to_string()));
    assert_eq!(map.get(&size), Some(&"120px".to_string()));
    assert_eq!(map.duplicate().get(&content), Some(&"text/plain".to_string()));
}
