use cookie_grab::cookie::{render, MozCookie};
use cookie_grab::query::cookie_query;

fn store() -> rusqlite::Connection {
    let conn = rusqlite::Connection::open_in_memory().unwrap();
    conn.execute_batch(
        "create table moz_cookies (id integer primary key, name text, value text, host text, path text, expiry integer);
         insert into moz_cookies (name, value, host, path, expiry) values ('a1', 'va', 'a.com', '/', 100);
         insert into moz_cookies (name, value, host, path, expiry) values ('b1', 'vb', 'b.com', '/', 200);
         insert into moz_cookies (name, value, host, path, expiry) values ('c1', 'vc', 'c.com', '/x', 300);",
    )
    .unwrap();
    conn
}

fn extract(conn: &rusqlite::Connection, hosts: &[String]) -> Vec<MozCookie> {
    let mut s = conn.prepare(&cookie_query(hosts.len())).unwrap();
    let rows = s
        .query_map(rusqlite::params_from_iter(hosts), |row| {
            Ok(MozCookie::new(
                row.get("host")?,
                row.get("path")?,
                row.get("expiry")?,
                row.get("name")?,
                row.get("value")?,
            ))
        })
        .unwrap();
    rows.collect::<Result<Vec<_>, _>>().unwrap()
}

#[test]
fn query_selects_only_requested_hosts() {
    let conn = store();
    let hosts = vec!["a.com".to_string(), "c.com".to_string()];
    let mut cookies = extract(&conn, &hosts);
    cookies.sort_by(|x, y| x.host().cmp(y.host()));
    assert_eq!(cookies.len(), 2);
    let text = render(&cookies);
    let data: Vec<&str> = text.lines().skip(5).collect();
    assert_eq!(data, vec!["a.com\tTRUE\t/\tFALSE\t100\ta1\tva", "c.com\tTRUE\t/x\tFALSE\t300\tc1\tvc"]);
    assert!(!text.contains("b.com"));
}

#[test]
fn query_binds_hosts_with_special_characters() {
    let conn = store();
    let hosts = vec!["a.com' or '1'='1".to_string()];
    assert!(extract(&conn, &hosts).is_empty());
    let one = vec!["b.com".to_string()];
    let got = extract(&conn, &one);
    assert_eq!(got.len(), 1);
    assert_eq!(got[0].name(), "b1");
}
