use substrate::order::{sort_by_name, sort_strings, sort_unique_by_name, sort_unique_strings, text_less};

fn strings(values: &[&str]) -> Vec<String> {
    values.iter().map(|v| v.to_string()).collect()
}

#[test]
fn names_compare_like_str() {
    let samples = ["", "a", "ab", "b", "B", "é", "z", "aa", "a\u{10000}"];
    for a in samples {
        for b in samples {
            assert_eq!(text_less(a, b), a < b, "{a:?} {b:?}");
        }
    }
}

#[test]
fn sorting_matches_std() {
    let input = strings(&["pip", "node", "npm", "node", "", "Node"]);
    let mut expected = input.clone();
    expected.sort();
    assert_eq!(sort_strings(input.clone()), expected);
    expected.dedup();
    assert_eq!(sort_unique_strings(input), expected);
}

#[test]
fn sorting_by_name_is_stable_and_dedup_keeps_the_first() {
    let input = vec![
        ("b".to_string(), 1),
        ("a".to_string(), 2),
        ("b".to_string(), 3),
        ("a".to_string(), 4),
    ];
    assert_eq!(
        sort_by_name(input.clone()),
        vec![("a".to_string(), 2), ("a".to_string(), 4), ("b".to_string(), 1), ("b".to_string(), 3)]
    );
    assert_eq!(sort_unique_by_name(input), vec![("a".to_string(), 2), ("b".to_string(), 1)]);
}
