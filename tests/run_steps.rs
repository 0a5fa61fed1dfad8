use cookie_grab::cookie::{render, MozCookie};
use cookie_grab::pipeline::{Action, Event, Request, Root, NOT_FOUND};

fn request(hosts: &[&str], output: Option<&str>) -> Request {
    Request::new(hosts.iter().map(|h| h.to_string()).collect(), output.map(|o| o.to_string()))
}

fn one_cookie() -> Vec<MozCookie> {
    vec![MozCookie::new("a.com".to_string(), "/".to_string(), 9, "k".to_string(), "v".to_string())]
}

#[test]
fn no_hosts_succeeds_at_once() {
    let req = request(&[], None);
    assert!(matches!(req.next_action(Event::Start), Action::Succeed));
    let req = request(&[], Some("out.txt"));
    assert!(matches!(req.next_action(Event::Start), Action::Succeed));
}

#[test]
fn search_tries_data_root_then_home() {
    let req = request(&["a.com"], None);
    assert!(matches!(req.next_action(Event::Start), Action::Search(Root::Data)));
    assert!(matches!(req.next_action(Event::Searched(Root::Data, false)), Action::Search(Root::Home)));
    assert!(matches!(req.next_action(Event::Searched(Root::Data, true)), Action::Open));
    assert!(matches!(req.next_action(Event::Searched(Root::Home, true)), Action::Open));
    match req.next_action(Event::Searched(Root::Home, false)) {
        Action::Fail(m) => assert_eq!(m, NOT_FOUND),
        other => panic!("unexpected {:?}", other),
    }
}

#[test]
fn missing_root_is_not_found() {
    let req = request(&["a.com"], None);
    for root in [Root::Data, Root::Home] {
        match req.next_action(Event::RootMissing(root)) {
            Action::Fail(m) => assert_eq!(m, "cookie db not found"),
            other => panic!("unexpected {:?}", other),
        }
    }
}

#[test]
fn opened_store_gets_sized_query() {
    let req = request(&["a.com", "c.com"], None);
    match req.next_action(Event::StoreOpened) {
        Action::Query(q) => assert!(q.ends_with("where host in (?,?)")),
        other => panic!("unexpected {:?}", other),
    }
    assert_eq!(req.hosts().len(), 2);
}

#[test]
fn open_failure_fails_without_writing() {
    let req = request(&["a.com"], Some("out.txt"));
    match req.next_action(Event::StoreFailed("unable to open database file".to_string())) {
        Action::Fail(m) => assert_eq!(m, "unable to open database file"),
        other => panic!("unexpected {:?}", other),
    }
}

#[test]
fn file_and_stdout_get_the_same_text() {
    let to_file = request(&["a.com"], Some("out.txt"));
    let to_stdout = request(&["a.com"], None);
    let (p, a) = match to_file.next_action(Event::Rows(one_cookie())) {
        Action::Write(p, t) => (p, t),
        other => panic!("unexpected {:?}", other),
    };
    let (q, b) = match to_stdout.next_action(Event::Rows(one_cookie())) {
        Action::Write(p, t) => (p, t),
        other => panic!("unexpected {:?}", other),
    };
    assert_eq!(p.as_deref(), Some("out.txt"));
    assert_eq!(q, None);
    assert_eq!(a, b);
    assert_eq!(a, render(&one_cookie()));
}

#[test]
fn errors_and_completion_end_the_run() {
    let req = request(&["a.com"], None);
    assert!(matches!(req.next_action(Event::Written), Action::Succeed));
    assert!(matches!(req.next_action(Event::QueryFailed("no such table".to_string())), Action::Fail(m) if m == "no such table"));
    assert!(matches!(req.next_action(Event::WriteFailed("disk full".to_string())), Action::Fail(m) if m == "disk full"));
}
