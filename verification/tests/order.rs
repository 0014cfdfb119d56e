use convergio_cli::order::{compare_keys, compare_text, insert_sorted};

#[test]
fn text_order_follows_code_points() {
    let a: Vec<char> = "GET".chars().collect();
    let b: Vec<char> = "POST".chars().collect();
    let c: Vec<char> = "GE".chars().collect();
    assert!(compare_text(&a, &b) < 0);
    assert!(compare_text(&b, &a) > 0);
    assert!(compare_text(&c, &a) < 0);
    assert_eq!(compare_text(&a, &a), 0);
    let k1 = vec![a.clone(), b.clone()];
    let k2 = vec![a.clone(), c.clone()];
    assert!(compare_keys(&k1, &k2) > 0);
}

#[test]
fn insert_sorted_keeps_order_and_refuses_duplicates() {
    let mut v: Vec<String> = Vec::new();
    assert!(insert_sorted(&mut v, "m".to_string()));
    assert!(insert_sorted(&mut v, "a".to_string()));
    assert!(insert_sorted(&mut v, "z".to_string()));
    assert!(!insert_sorted(&mut v, "m".to_string()));
    assert_eq!(v, vec!["a".to_string(), "m".to_string(), "z".to_string()]);
}
