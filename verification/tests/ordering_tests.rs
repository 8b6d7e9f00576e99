use asciii_cli::ordering::arrange;
use asciii_cli::ordering::{listing_order, sort_field, sorts_before, ProjectRecord, SortField};

fn rec(name: Option<&str>, manager: Option<&str>, date: Option<i64>, index: Option<&str>) -> ProjectRecord {
    ProjectRecord {
        name: name.map(|s| s.to_string()),
        manager: manager.map(|s| s.to_string()),
        date,
        index: index.map(|s| s.to_string()),
    }
}

#[test]
fn sort_field_names() {
    assert_eq!(sort_field("manager"), SortField::Manager);
    assert_eq!(sort_field("date"), SortField::Date);
    assert_eq!(sort_field("name"), SortField::Name);
    assert_eq!(sort_field("index"), SortField::Index);
    assert_eq!(sort_field("anything"), SortField::Index);
    assert_eq!(sort_field(""), SortField::Index);
}

#[test]
fn order_by_name_is_lexicographic() {
    let recs = vec![
        rec(Some("beta"), None, None, None),
        rec(Some("alpha"), None, None, None),
        rec(Some("Zed"), None, None, None),
        rec(None, None, None, None),
        rec(Some("alp"), None, None, None),
    ];
    assert_eq!(listing_order(&recs, SortField::Name), vec![3, 2, 4, 1, 0]);
}

#[test]
fn order_by_date_puts_missing_first() {
    let recs = vec![
        rec(None, None, Some(700), None),
        rec(None, None, None, None),
        rec(None, None, Some(-3), None),
        rec(None, None, Some(700), None),
    ];
    assert_eq!(listing_order(&recs, SortField::Date), vec![1, 2, 0, 3]);
}

#[test]
fn order_by_index_sorts_missing_as_zzzz() {
    let recs = vec![
        rec(None, None, None, None),
        rec(None, None, None, Some("R015")),
        rec(None, None, None, Some("zzzzz")),
        rec(None, None, None, Some("A001")),
        rec(None, None, None, Some("zzzz")),
    ];
    assert_eq!(listing_order(&recs, SortField::Index), vec![3, 1, 0, 4, 2]);
}

#[test]
fn order_is_stable_for_equal_managers() {
    let recs = vec![
        rec(Some("a"), Some("Hendrik"), None, None),
        rec(Some("b"), Some("Anna"), None, None),
        rec(Some("c"), Some("Hendrik"), None, None),
        rec(Some("d"), Some("Anna"), None, None),
    ];
    assert_eq!(listing_order(&recs, SortField::Manager), vec![1, 3, 0, 2]);
}

#[test]
fn order_matches_std_stable_sort() {
    let names = ["m", "b", "", "ä", "ab", "b", "a", "z", "B", "é"];
    let recs: Vec<ProjectRecord> = names.iter().map(|n| rec(Some(n), None, None, None)).collect();
    let mut expected: Vec<usize> = (0..names.len()).collect();
    expected.sort_by(|x, y| names[*x].cmp(names[*y]));
    assert_eq!(listing_order(&recs, SortField::Name), expected);
}

#[test]
fn empty_listing() {
    assert_eq!(listing_order(&Vec::new(), SortField::Date), Vec::<usize>::new());
}

#[test]
fn sorts_before_compares_the_field() {
    let a = rec(Some("x"), Some("b"), Some(1), None);
    let b = rec(Some("y"), Some("a"), Some(1), Some("A"));
    assert!(sorts_before(&a, &b, SortField::Name));
    assert!(!sorts_before(&a, &b, SortField::Manager));
    assert!(!sorts_before(&a, &b, SortField::Date));
    assert!(!sorts_before(&b, &a, SortField::Date));
    assert!(sorts_before(&b, &a, SortField::Index));
}

#[test]
fn arrange_follows_the_order() {
    let items = vec!["a".to_string(), "b".to_string(), "c".to_string(), "d".to_string()];
    assert_eq!(arrange(items, &vec![2, 0, 3, 1]), vec!["c", "a", "d", "b"]);
    assert_eq!(arrange(Vec::<u8>::new(), &vec![]), Vec::<u8>::new());
}
