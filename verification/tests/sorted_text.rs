use sorted_debug::layout::render_entries;
use sorted_debug::{DebugText, SortedHashMapDebugOutput, SortedOutputExt};
use std::collections::{BTreeMap, HashMap};

/// A small deterministic generator, so that the maps differ from run to run
/// only in the order in which they walk their entries.
fn next(state: &mut u64) -> u64 {
    *state = state.wrapping_mul(6364136223846793005).wrapping_add(1442695040888963407);
    *state >> 33
}

fn sample_map(seed: u64, len: usize) -> HashMap<isize, isize> {
    let mut state = seed;
    let mut map = HashMap::new();
    for _ in 0..len {
        let key = next(&mut state) as i32 as isize;
        let value = next(&mut state) as i32 as isize;
        map.insert(key, value);
    }
    map
}

#[test]
fn three_entries_come_out_by_key() {
    let mut map: HashMap<i32, &str> = HashMap::new();
    map.insert(3, "c");
    map.insert(1, "a");
    map.insert(2, "b");
    assert_eq!(
        SortedHashMapDebugOutput(&map).debug_string(),
        "{1: \"a\", 2: \"b\", 3: \"c\"}"
    );
}

#[test]
fn three_entries_come_out_by_key_whatever_the_insertion_order() {
    let orders = [[1, 2, 3], [1, 3, 2], [2, 1, 3], [2, 3, 1], [3, 1, 2], [3, 2, 1]];
    let values = ["", "a", "b", "c"];
    for order in orders {
        let mut map: HashMap<i32, String> = HashMap::new();
        for key in order {
            map.insert(key, values[key as usize].to_string());
        }
        assert_eq!(map.sorted_debug().debug_string(), "{1: \"a\", 2: \"b\", 3: \"c\"}");
    }
}

#[test]
fn empty_map_is_a_pair_of_braces() {
    let map: HashMap<u8, u8> = HashMap::new();
    assert_eq!(map.sorted_debug().debug_string(), "{}");
    assert!(map.sorted_debug().sorted_keys().is_empty());
    assert!(map.sorted_debug().sorted_entries().is_empty());
}

#[test]
fn single_entry_has_no_separator() {
    let mut map: HashMap<i64, bool> = HashMap::new();
    map.insert(-7, true);
    assert_eq!(map.sorted_debug().debug_string(), "{-7: true}");
}

#[test]
fn test_output_alphebatized() {
    for seed in 0..40u64 {
        let data = sample_map(seed, (seed as usize) * 3);
        let ordered: BTreeMap<isize, isize> = data.iter().map(|(&k, &v)| (k, v)).collect();
        assert_eq!(
            SortedHashMapDebugOutput(&data).debug_string(),
            format!("{:?}", ordered)
        );
    }
}

#[test]
fn string_maps_agree_with_an_ordered_map() {
    let words = [
        "pear",
        "apple",
        "fig",
        "",
        "a\"b",
        "tab\there",
        "line\nbreak",
        "back\\slash",
        "Zebra",
        "émile",
    ];
    let mut map: HashMap<String, String> = HashMap::new();
    for (i, word) in words.iter().enumerate() {
        map.insert(word.to_string(), words[(i * 7 + 3) % words.len()].to_string());
    }
    let ordered: BTreeMap<String, String> =
        map.iter().map(|(k, v)| (k.clone(), v.clone())).collect();
    assert_eq!(map.sorted_debug().debug_string(), format!("{:?}", ordered));
}

#[test]
fn borrowed_strings_agree_with_an_ordered_map() {
    let mut map: HashMap<&str, &str> = HashMap::new();
    map.insert("b", "2");
    map.insert("a", "1");
    map.insert("c", "3");
    let ordered: BTreeMap<&str, &str> = map.iter().map(|(&k, &v)| (k, v)).collect();
    assert_eq!(map.sorted_debug().debug_string(), format!("{:?}", ordered));
    assert_eq!(map.sorted_debug().debug_string(), "{\"a\": \"1\", \"b\": \"2\", \"c\": \"3\"}");
}

#[test]
fn keys_come_out_ascending() {
    let mut map: HashMap<u32, u32> = HashMap::new();
    for key in 0..500u32 {
        map.insert((key * 7919) % 1000, key);
    }
    let view = map.sorted_debug();
    let keys = view.sorted_keys();
    assert_eq!(keys.len(), map.len());
    for pair in keys.windows(2) {
        assert!(pair[0] < pair[1]);
    }
    let mut expected: Vec<u32> = map.keys().copied().collect();
    expected.sort();
    let got: Vec<u32> = keys.iter().map(|k| **k).collect();
    assert_eq!(got, expected);
}

#[test]
fn negative_keys_sort_before_positive_ones() {
    let mut map: HashMap<i8, u8> = HashMap::new();
    map.insert(10, 1);
    map.insert(-2, 2);
    map.insert(0, 3);
    map.insert(-128, 4);
    map.insert(127, 5);
    assert_eq!(
        map.sorted_debug().debug_string(),
        "{-128: 4, -2: 2, 0: 3, 10: 1, 127: 5}"
    );
}

#[test]
fn entries_are_the_pairs_of_the_map() {
    let map = sample_map(99, 300);
    let view = SortedHashMapDebugOutput(&map);
    let entries = view.sorted_entries();
    assert_eq!(entries.len(), map.len());
    for (key, value) in &entries {
        assert_eq!(map.get(*key), Some(*value));
    }
    for pair in entries.windows(2) {
        assert!(pair[0].0 < pair[1].0);
    }
    for (key, value) in &map {
        assert!(entries.contains(&(key, value)));
    }
}

#[test]
fn map_is_unchanged_by_reading() {
    let map = sample_map(7, 64);
    let before = map.clone();
    let walk_before: Vec<(isize, isize)> = map.iter().map(|(&k, &v)| (k, v)).collect();
    let view = map.sorted_debug();
    let first = view.debug_string();
    let second = view.debug_string();
    assert_eq!(first, second);
    assert_eq!(map, before);
    let walk_after: Vec<(isize, isize)> = map.iter().map(|(&k, &v)| (k, v)).collect();
    assert_eq!(walk_before, walk_after);
}

#[test]
fn view_borrows_the_map_itself() {
    let mut map: HashMap<u16, u16> = HashMap::new();
    map.insert(1, 2);
    let view = map.sorted_debug();
    assert!(std::ptr::eq(view.0, &map));
    assert!(std::ptr::eq(view.sorted_keys()[0], map.keys().next().unwrap()));
}

#[test]
fn layout_of_given_texts() {
    let none: Vec<(String, String)> = Vec::new();
    assert_eq!(render_entries(&none), "{}");
    let one = vec![("k".to_string(), "v".to_string())];
    assert_eq!(render_entries(&one), "{k: v}");
    let three = vec![
        ("1".to_string(), "a".to_string()),
        ("2".to_string(), "".to_string()),
        ("".to_string(), "c".to_string()),
    ];
    assert_eq!(render_entries(&three), "{1: a, 2: , : c}");
}

#[test]
fn layout_keeps_the_given_order() {
    let pairs = vec![
        ("z".to_string(), "1".to_string()),
        ("a".to_string(), "2".to_string()),
    ];
    assert_eq!(render_entries(&pairs), "{z: 1, a: 2}");
}

#[test]
fn integers_are_written_in_decimal() {
    assert_eq!(0u8.debug_string(), "0");
    assert_eq!(9u8.debug_string(), "9");
    assert_eq!(10u16.debug_string(), "10");
    assert_eq!(305u32.debug_string(), "305");
    assert_eq!(u64::MAX.debug_string(), "18446744073709551615");
    assert_eq!(u128::MAX.debug_string(), "340282366920938463463374607431768211455");
    assert_eq!(usize::MAX.debug_string(), format!("{:?}", usize::MAX));
    assert_eq!((-1i8).debug_string(), "-1");
    assert_eq!(i8::MIN.debug_string(), "-128");
    assert_eq!((-12i16).debug_string(), "-12");
    assert_eq!(i32::MIN.debug_string(), "-2147483648");
    assert_eq!(i64::MAX.debug_string(), "9223372036854775807");
    assert_eq!(i128::MIN.debug_string(), "-170141183460469231731687303715884105728");
    assert_eq!(i128::MAX.debug_string(), "170141183460469231731687303715884105727");
    assert_eq!(isize::MIN.debug_string(), format!("{:?}", isize::MIN));
}

#[test]
fn integers_agree_with_std() {
    let mut state = 12345u64;
    for _ in 0..200 {
        let wide = ((next(&mut state) as u128) << 97)
            ^ ((next(&mut state) as u128) << 64)
            ^ ((next(&mut state) as u128) << 31)
            ^ (next(&mut state) as u128);
        let shift = (next(&mut state) % 128) as u32;
        let n = wide >> shift;
        assert_eq!(n.debug_string(), format!("{:?}", n));
        assert_eq!((n as i128).debug_string(), format!("{:?}", n as i128));
        assert_eq!((n as i64).debug_string(), format!("{:?}", n as i64));
        assert_eq!((n as u32).debug_string(), format!("{:?}", n as u32));
        assert_eq!((n as i16).debug_string(), format!("{:?}", n as i16));
    }
}

#[test]
fn truth_values_are_keywords() {
    assert_eq!(true.debug_string(), "true");
    assert_eq!(false.debug_string(), "false");
}

#[test]
fn strings_are_quoted_and_escaped() {
    assert_eq!("".debug_string(), "\"\"");
    assert_eq!("abc".debug_string(), "\"abc\"");
    assert_eq!("a\"b".debug_string(), "\"a\\\"b\"");
    assert_eq!("tab\t".debug_string(), "\"tab\\t\"");
    assert_eq!("back\\".debug_string(), "\"back\\\\\"");
    assert_eq!(String::from("line\n").debug_string(), "\"line\\n\"");
    assert_eq!((&&"x").debug_string(), "\"x\"");
}
