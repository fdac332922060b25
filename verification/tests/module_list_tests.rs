use mapmap_ui::module_list::{module_list_order, order_by_keys, sort_modules_by_name};

fn names() -> Vec<(u64, String)> {
    vec![
        (1, "beta".to_string()),
        (2, "Alpha".to_string()),
        (3, "alpha".to_string()),
        (4, "Gamma".to_string()),
        (5, String::new()),
        (6, "alphabet".to_string()),
    ]
}

#[test]
fn modules_sorted_ignoring_case_and_stable() {
    let sorted = sort_modules_by_name(&names());
    let ids: Vec<u64> = sorted.iter().map(|x| x.0).collect();
    assert_eq!(ids, vec![5, 2, 3, 6, 1, 4]);
    assert_eq!(sorted[1].1, "Alpha");
}

#[test]
fn order_lists_every_index_once() {
    let order = module_list_order(&names());
    assert_eq!(order, vec![4, 1, 2, 5, 0, 3]);
    assert!(module_list_order(&Vec::new()).is_empty());
}

#[test]
fn uppercase_letters_sort_with_their_lowercase() {
    let v = vec![(1, "b".to_string()), (2, "B".to_string()), (3, "a".to_string()), (4, "Z".to_string())];
    let ids: Vec<u64> = sort_modules_by_name(&v).iter().map(|x| x.0).collect();
    assert_eq!(ids, vec![3, 1, 2, 4]);
}

#[test]
fn order_by_given_keys() {
    let keys = vec!["b".to_string(), "B".to_string(), "a".to_string(), "b".to_string(), "ab".to_string()];
    assert_eq!(order_by_keys(&keys), vec![1, 2, 4, 0, 3]);
}
