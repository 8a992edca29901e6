use rss_mdm::encoding::hex;
use rss_mdm::id::Id;
use rss_mdm::map::OrderedMap;
use rss_mdm::number::{decimal, parse_integer, signed};
use rss_mdm::order::precedes;
use rss_mdm::set::OrderedSet;
use rss_mdm::text::{join, join3, same, strip_prefix, truth};

#[test]
fn texts_are_joined_and_stripped() {
    assert_eq!(join("a", "é"), "aé");
    assert_eq!(join3("a", ":", "b"), "a:b");
    assert!(same("设备", "设备"));
    assert!(!same("a", "A"));
    assert_eq!(strip_prefix("job:设备", "job:"), Some("设备"));
    assert_eq!(strip_prefix("job:", "job:"), Some(""));
    assert_eq!(strip_prefix("jo", "job:"), None);
    assert_eq!(strip_prefix("Job:1", "job:"), None);
    assert_eq!(truth(true), "true");
    assert_eq!(truth(false), "false");
}

#[test]
fn bytes_are_written_in_lower_case_hexadecimal() {
    assert_eq!(hex(&[]), "");
    assert_eq!(hex(&[0, 9, 10, 0xab, 0xff]), "00090aabff");
}

#[test]
fn identifiers_read_back_from_their_text() {
    let id = Id { value: 0x1111_1111_1111_4111_8111_1111_1111_1111 };
    assert_eq!(id.text(), "11111111-1111-4111-8111-111111111111");
    assert_eq!(Id::parse(&id.text()), Some(id));
    assert_eq!(Id::parse("11111111111141118111111111111111"), Some(id));
    assert_eq!(Id::parse("{11111111-1111-4111-8111-111111111111}"), Some(id));
    assert_eq!(Id::parse("urn:uuid:11111111-1111-4111-8111-111111111111"), Some(id));
    assert_eq!(Id::parse("URN:UUID:11111111-1111-4111-8111-111111111111"), Some(id));
    let mixed = Id { value: 0xabcdef };
    assert_eq!(Id::parse("00000000-0000-0000-0000-000000aBcDeF"), Some(mixed));
    for text in [
        "",
        "11111111-1111-4111-8111",
        "11111111-1111-4111-81111-11111111111",
        "{11111111111141118111111111111111}",
        "{11111111-1111-4111-8111-111111111111)",
        "urn.uuid:11111111-1111-4111-8111-111111111111",
        "1111111111114111811111111111111g",
        "11111111-1111-4111-8111-11111111111é",
    ] {
        assert_eq!(Id::parse(text), None);
    }
    assert_eq!(Id { value: 0xabc }.text(), "00000000-0000-0000-0000-000000000abc");
    assert!(Id { value: 0 }.is_nil());
    assert!(!id.is_nil());
}

#[test]
fn numbers_read_back_from_their_text() {
    assert_eq!(decimal(0), "0");
    assert_eq!(decimal(1_000_000), "1000000");
    assert_eq!(decimal(u64::MAX), u64::MAX.to_string());
    for number in [0, 7, -7, 10, i64::MAX, i64::MIN, -9_000_000_000] {
        assert_eq!(signed(number), number.to_string());
        assert_eq!(parse_integer(&signed(number)), Some(number));
    }
    for text in ["+5", "-0", "007", "00000000000000000000001", "9223372036854775807"] {
        assert_eq!(parse_integer(text), text.parse::<i64>().ok());
    }
    for text in [
        "",
        "-",
        "+",
        "1 ",
        "a",
        "--1",
        "9223372036854775808",
        "-9223372036854775809",
        "99999999999999999999999999",
        "1e3",
        "é",
    ] {
        assert_eq!(parse_integer(text), None);
        assert!(text.parse::<i64>().is_err());
    }
}

#[test]
fn texts_are_ordered_by_their_bytes() {
    assert!(precedes("", "a"));
    assert!(precedes("Z", "a"));
    assert!(precedes("a", "a\0"));
    assert!(precedes("aa", "é"));
    assert!(precedes("é", "设备"));
    assert!(!precedes("a", "a"));
    assert!(!precedes("b", "a"));
}

#[test]
fn sets_keep_their_elements_once_and_in_order() {
    let mut set: OrderedSet<String> = OrderedSet::new();
    for item in ["b", "a", "c", "a", "b"] {
        set.insert(item.to_string());
    }
    assert_eq!(set.items, ["a", "b", "c"]);
    assert!(!set.insert("a".to_string()));
    assert!(set.insert("d".to_string()));
    assert!(set.contains(&"d".to_string()));
    assert!(!set.contains(&"e".to_string()));
    assert_eq!(set.find(&"c".to_string()), Some(2));
    assert_eq!(set.find(&"e".to_string()), None);
    let mut other: OrderedSet<String> = OrderedSet::new();
    other.insert("0".to_string());
    other.extend(&set);
    assert_eq!(other.items, ["0", "a", "b", "c", "d"]);
}

#[test]
fn the_order_of_a_set_depends_on_its_members_alone() {
    let mut one: OrderedSet<usize> = OrderedSet::new();
    let mut two: OrderedSet<usize> = OrderedSet::new();
    for item in [3, 1, 2] {
        one.insert(item);
    }
    for item in [2, 3, 1, 2] {
        two.insert(item);
    }
    assert_eq!(one.items, two.items);
    let mut ids: OrderedSet<Id> = OrderedSet::new();
    ids.insert(Id { value: 9 });
    ids.insert(Id { value: 2 });
    assert_eq!(ids.items, [Id { value: 2 }, Id { value: 9 }]);
}

#[test]
fn maps_hold_the_last_value_of_a_key() {
    let mut map: OrderedMap<String, u64> = OrderedMap::new();
    map.insert("b".to_string(), 1);
    map.insert("a".to_string(), 2);
    map.insert("b".to_string(), 3);
    assert_eq!(map.get(&"a".to_string()), Some(&2));
    assert_eq!(map.get(&"b".to_string()), Some(&3));
    assert_eq!(map.get(&"c".to_string()), None);
    assert_eq!(map.keys.items, ["a", "b"]);
    assert_eq!(map.values, [2, 3]);
}
