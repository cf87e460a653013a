use user_api::paginate::paginate;
use user_api::query::{Predicate, Query};
use user_api::user::{Params, User};

fn user(id: u128, email: &str, created_at: i64, updated_at: Option<i64>) -> User {
    User {
        id,
        email: String::from(email),
        password: String::from("x"),
        created_at,
        updated_at,
    }
}

fn table() -> Vec<User> {
    vec![
        user(3, "carol@example.com", 300, None),
        user(1, "alice@example.com", 100, Some(150)),
        user(5, "eve@example.com", 500, Some(550)),
        user(2, "bob@example.com", 200, None),
        user(4, "dave@example.com", 400, Some(450)),
    ]
}

fn params() -> Params {
    Params {
        email: None,
        sort_by: None,
        created_at_gte: None,
        created_at_lte: None,
        updated_at_gte: None,
        updated_at_lte: None,
        page: None,
        page_size: None,
    }
}

fn ids(rows: &[User]) -> Vec<u128> {
    rows.iter().map(|u| u.id).collect()
}

#[test]
fn no_filters_returns_full_set() {
    let (rows, total_pages, total) = User::find_all(&table(), params()).unwrap();
    assert_eq!(total, 5);
    assert_eq!(total_pages, 1);
    assert_eq!(ids(&rows), vec![1, 2, 3, 4, 5]);
}

#[test]
fn created_at_range_bounds_are_inclusive() {
    let mut p = params();
    p.created_at_gte = Some(200);
    p.created_at_lte = Some(400);
    let (rows, _, total) = User::find_all(&table(), p).unwrap();
    assert_eq!(total, 3);
    assert_eq!(ids(&rows), vec![2, 3, 4]);
    for u in &rows {
        assert!(u.created_at >= 200 && u.created_at <= 400);
    }
}

#[test]
fn updated_at_bound_never_matches_absent_field() {
    let mut p = params();
    p.updated_at_gte = Some(0);
    let (rows, _, total) = User::find_all(&table(), p).unwrap();
    assert_eq!(total, 3);
    assert_eq!(ids(&rows), vec![1, 4, 5]);
}

#[test]
fn email_filter_is_substring_match() {
    let mut p = params();
    p.email = Some(String::from("li"));
    let (rows, _, total) = User::find_all(&table(), p).unwrap();
    assert_eq!(total, 1);
    assert_eq!(ids(&rows), vec![1]);
}

#[test]
fn email_filter_empty_pattern_matches_all() {
    let mut p = params();
    p.email = Some(String::new());
    let (_, _, total) = User::find_all(&table(), p).unwrap();
    assert_eq!(total, 5);
}

#[test]
fn sort_by_email_orders_ascending() {
    let mut p = params();
    p.sort_by = Some(String::from("email"));
    let (rows, _, _) = User::find_all(&table(), p).unwrap();
    assert_eq!(ids(&rows), vec![1, 2, 3, 4, 5]);
    let mut q = params();
    q.sort_by = Some(String::from("created_at"));
    let (rows2, _, _) = User::find_all(&table(), q).unwrap();
    assert_eq!(ids(&rows2), vec![1, 2, 3, 4, 5]);
}

#[test]
fn sort_by_updated_at_puts_absent_last() {
    let mut p = params();
    p.sort_by = Some(String::from("updated_at"));
    let (rows, _, _) = User::find_all(&table(), p).unwrap();
    let tail: Vec<u128> = ids(&rows)[3..].to_vec();
    assert_eq!(ids(&rows)[..3], [1, 4, 5]);
    assert!(tail.contains(&2) && tail.contains(&3));
    assert!(rows[3].updated_at.is_none() && rows[4].updated_at.is_none());
}

#[test]
fn unrecognized_sort_key_matches_default_order() {
    let (default_rows, dtp, dtc) = User::find_all(&table(), params()).unwrap();
    let mut p = params();
    p.sort_by = Some(String::from("no_such_column"));
    let (rows, tp, tc) = User::find_all(&table(), p).unwrap();
    assert_eq!(ids(&rows), ids(&default_rows));
    assert_eq!(tp, dtp);
    assert_eq!(tc, dtc);
}

#[test]
fn third_page_of_five_rows_at_two_per_page() {
    let mut p = params();
    p.page = Some(3);
    p.page_size = Some(2);
    let (rows, total_pages, total) = User::find_all(&table(), p).unwrap();
    assert_eq!(ids(&rows), vec![5]);
    assert_eq!(total_pages, 3);
    assert_eq!(total, 5);
}

#[test]
fn page_beyond_last_is_empty_with_unchanged_counts() {
    let mut p = params();
    p.page = Some(7);
    p.page_size = Some(2);
    let (rows, total_pages, total) = User::find_all(&table(), p).unwrap();
    assert!(rows.is_empty());
    assert_eq!(total_pages, 3);
    assert_eq!(total, 5);
}

#[test]
fn page_and_size_defaults_apply() {
    let rows: Vec<User> = (1..=12u128).map(|i| user(i, "u@example.com", i as i64, None)).collect();
    let (page, total_pages, total) = paginate(&rows, None, None);
    assert_eq!(page.len(), 10);
    assert_eq!(total_pages, 2);
    assert_eq!(total, 12);
    let (page2, tp2, _) = paginate(&rows, Some(0), Some(-3));
    assert_eq!(page2.len(), 10);
    assert_eq!(page2[0].id, 1);
    assert_eq!(tp2, 2);
}

#[test]
fn total_pages_is_ceiling_and_zero_iff_empty() {
    let rows: Vec<User> = (1..=5u128).map(|i| user(i, "u@example.com", 0, None)).collect();
    let (_, tp, tc) = paginate(&rows, Some(1), Some(2));
    assert_eq!((tp, tc), (3, 5));
    let (_, tp4, _) = paginate(&rows, Some(1), Some(5));
    assert_eq!(tp4, 1);
    let empty: Vec<User> = Vec::new();
    let (_, tp0, tc0) = paginate(&empty, Some(1), Some(2));
    assert_eq!((tp0, tc0), (0, 0));
}

#[test]
fn filters_compose_conjunctively() {
    let mut p = params();
    p.email = Some(String::from("example"));
    p.created_at_gte = Some(300);
    p.updated_at_lte = Some(500);
    let (rows, _, total) = User::find_all(&table(), p).unwrap();
    assert_eq!(total, 1);
    assert_eq!(ids(&rows), vec![4]);
}

#[test]
fn composer_appends_only_present_predicates() {
    let filters = vec![
        Some(Predicate::EmailEqual(String::from("bob@example.com"))),
        None,
        Some(Predicate::CreatedAtLe(400)),
    ];
    let q = Query::base().narrow(&filters);
    let rows = q.run(&table());
    assert_eq!(ids(&rows), vec![2]);

    let none_present: Vec<Option<Predicate>> = vec![None, None, None];
    let all = Query::base().narrow(&none_present).run(&table());
    assert_eq!(all.len(), 5);
}
