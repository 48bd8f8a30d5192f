use warden_twofactor::sorting::{sort_without_repetition, stable_sort};

fn pair(k: &str, v: &str) -> (String, String) {
    (k.to_string(), v.to_string())
}

#[test]
fn sorting_is_stable() {
    let sorted = stable_sort(vec![pair("b", "1"), pair("a", "2"), pair("b", "3"), pair("a", "4")]);
    assert_eq!(sorted, vec![pair("a", "2"), pair("a", "4"), pair("b", "1"), pair("b", "3")]);
    let none: Vec<(String, String)> = vec![];
    assert_eq!(stable_sort(none), vec![]);
}

#[test]
fn sorting_once_is_sorting_twice() {
    let sorted = stable_sort(vec![3, 1, 2, 3, -5]);
    assert_eq!(sorted, vec![-5, 1, 2, 3, 3]);
    assert_eq!(stable_sort(sorted.clone()), sorted);
}

#[test]
fn repetitions_are_dropped() {
    assert_eq!(sort_without_repetition(vec![3, 1, 3, 2, 1]), vec![1, 2, 3]);
    let texts = vec!["b".to_string(), "a".to_string(), "b".to_string(), "".to_string()];
    assert_eq!(sort_without_repetition(texts), vec!["", "a", "b"]);
}
