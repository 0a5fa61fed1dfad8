use cookie_grab::query::{build_formatter, cookie_query, is_store_name, STORE_FILE_NAME};

#[test]
fn placeholders_for_zero_and_one() {
    assert_eq!(build_formatter(0), "");
    assert_eq!(build_formatter(1), "?");
}

#[test]
fn placeholders_for_many() {
    assert_eq!(build_formatter(2), "?,?");
    assert_eq!(build_formatter(5), "?,?,?,?,?");
    let hundred = build_formatter(100);
    let parts: Vec<&str> = hundred.split(',').collect();
    assert_eq!(parts.len(), 100);
    assert!(parts.iter().all(|p| *p == "?"));
    assert_eq!(hundred.len(), 199);
}

#[test]
fn query_binds_one_placeholder_per_host() {
    assert_eq!(
        cookie_query(1),
        "select name, value, host, path, expiry from moz_cookies where host in (?)"
    );
    assert_eq!(
        cookie_query(3),
        "select name, value, host, path, expiry from moz_cookies where host in (?,?,?)"
    );
}

#[test]
fn store_name_matches_exactly() {
    assert!(is_store_name("cookies.sqlite"));
    assert!(is_store_name(STORE_FILE_NAME));
    assert!(!is_store_name("cookies.sqlite-wal"));
    assert!(!is_store_name("Cookies.sqlite"));
    assert!(!is_store_name("places.sqlite"));
    assert!(!is_store_name(""));
}
