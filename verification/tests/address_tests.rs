use move_mutation_test::addresses::{format_address_entry, u128_to_decimal, NamedAddressMap};

#[test]
fn decimal_rendering_exact() {
    assert_eq!(u128_to_decimal(0), "0");
    assert_eq!(u128_to_decimal(7), "7");
    assert_eq!(u128_to_decimal(10), "10");
    assert_eq!(u128_to_decimal(12345), "12345");
    assert_eq!(
        u128_to_decimal(u128::MAX),
        "340282366920938463463374607431768211455"
    );
}

#[test]
fn address_entry_rendering() {
    assert_eq!(format_address_entry(&"std".to_string(), 1), "std=1");
    assert_eq!(
        format_address_entry(&"framework".to_string(), 4096),
        "framework=4096"
    );
}

#[test]
fn insert_keeps_first_position_and_last_value() {
    let mut map = NamedAddressMap::new();
    map.insert("a".to_string(), 1);
    map.insert("b".to_string(), 2);
    map.insert("a".to_string(), 3);
    assert_eq!(
        map.entries,
        vec![("a".to_string(), 3), ("b".to_string(), 2)]
    );
    assert_eq!(map.lookup(&"a".to_string()), Some(3));
    assert_eq!(map.lookup(&"b".to_string()), Some(2));
    assert_eq!(map.lookup(&"c".to_string()), None);
}

#[test]
fn merge_is_last_table_wins() {
    let mut map = NamedAddressMap::new();
    map.merge_from(&vec![("a".to_string(), 1), ("b".to_string(), 2)]);
    map.merge_from(&vec![("a".to_string(), 9), ("c".to_string(), 5)]);
    assert_eq!(map.lookup(&"a".to_string()), Some(9));
    assert_eq!(map.lookup(&"b".to_string()), Some(2));
    assert_eq!(map.lookup(&"c".to_string()), Some(5));
    assert_eq!(
        map.format_entries(),
        vec!["a=9".to_string(), "b=2".to_string(), "c=5".to_string()]
    );
}

#[test]
fn format_entries_sorted_by_name() {
    let mut map = NamedAddressMap::new();
    map.insert("z".to_string(), 26);
    map.insert("a".to_string(), 1);
    map.insert("m".to_string(), 13);
    assert_eq!(
        map.format_entries(),
        vec!["a=1".to_string(), "m=13".to_string(), "z=26".to_string()]
    );
}

#[test]
fn format_entries_sorted_and_duplicate_free_after_conflicts() {
    let mut map = NamedAddressMap::new();
    map.merge_from(&vec![("beta".to_string(), 1), ("alpha".to_string(), 2)]);
    map.merge_from(&vec![("beta".to_string(), 9)]);
    assert_eq!(
        map.format_entries(),
        vec!["alpha=2".to_string(), "beta=9".to_string()]
    );
}
