//! The decisions of one extraction run, as a step function.
//!
//! A run is driven by its caller: it reports what happened as an [`Event`]
//! and performs the [`Action`] that [`Request::next_action`] returns, until
//! the action is `Succeed` or `Fail`. The caller does the outside work:
//! resolving a profile root and searching it, opening the store, running
//! the query with the request's hosts bound in order, and writing the text.
use vstd::prelude::*;

use crate::cookie::{document, views, CookieView, MozCookie};
use crate::query::{cookie_query, query_text};

verus! {

/// The message of a run that found no cookie store.
pub const NOT_FOUND: &'static str = "cookie db not found";

/// A directory under which browser profiles are searched, in the order tried.
#[derive(Clone, Copy, Debug, PartialEq, Eq, Structural)]
pub enum Root {
    /// The profile directory under the user's application-data directory.
    Data,
    /// The profile directory under the user's home directory.
    Home,
}

/// What the caller reports to the run.
#[derive(Debug)]
pub enum Event {
    /// The run begins.
    Start,
    /// The root's base directory could not be determined.
    RootMissing(Root),
    /// The root was searched; whether a store file was found in it.
    Searched(Root, bool),
    /// The store that was found was opened.
    StoreOpened,
    /// The store could not be opened, with the reason.
    StoreFailed(String),
    /// The query ran and gave these records, in the store's order.
    Rows(Vec<MozCookie>),
    /// The query could not be run or a row could not be read, with the reason.
    QueryFailed(String),
    /// The text was written.
    Written,
    /// The text could not be written, with the reason.
    WriteFailed(String),
}

/// What the caller is to do next.
#[derive(Debug)]
pub enum Action {
    /// Search this root for the store file.
    Search(Root),
    /// Open the store file that the last search found.
    Open,
    /// Run this query, with the request's hosts bound in order.
    Query(String),
    /// Write this text to the file at the path, or to standard output where there is none.
    Write(Option<String>, String),
    /// The run is over and succeeded.
    Succeed,
    /// The run is over and failed, with this message.
    Fail(String),
}

/// The hosts whose cookies are wanted, and where the result goes.
#[derive(Debug)]
pub struct Request {
    hosts: Vec<String>,
    output: Option<String>,
}

/// The mathematical value of an event.
pub enum EventView {
    Start,
    RootMissing(Root),
    Searched(Root, bool),
    StoreOpened,
    StoreFailed(Seq<char>),
    Rows(Seq<CookieView>),
    QueryFailed(Seq<char>),
    Written,
    WriteFailed(Seq<char>),
}

/// The mathematical value of an action.
pub enum ActionView {
    Search(Root),
    Open,
    Query(Seq<char>),
    Write(Option<Seq<char>>, Seq<char>),
    Succeed,
    Fail(Seq<char>),
}

/// The mathematical value of a request.
pub struct RequestView {
    pub hosts: Seq<Seq<char>>,
    pub output: Option<Seq<char>>,
}

/// The view of an optional string.
pub open spec fn opt_view(o: Option<String>) -> Option<Seq<char>> {
    match o {
        Some(s) => Some(s@),
        None => None,
    }
}

impl View for Event {
    type V = EventView;

    open spec fn view(&self) -> EventView {
        match self {
            Event::Start => EventView::Start,
            Event::RootMissing(r) => EventView::RootMissing(*r),
            Event::Searched(r, f) => EventView::Searched(*r, *f),
            Event::StoreOpened => EventView::StoreOpened,
            Event::StoreFailed(m) => EventView::StoreFailed(m@),
            Event::Rows(cs) => EventView::Rows(views(cs@)),
            Event::QueryFailed(m) => EventView::QueryFailed(m@),
            Event::Written => EventView::Written,
            Event::WriteFailed(m) => EventView::WriteFailed(m@),
        }
    }
}

impl View for Action {
    type V = ActionView;

    open spec fn view(&self) -> ActionView {
        match self {
            Action::Search(r) => ActionView::Search(*r),
            Action::Open => ActionView::Open,
            Action::Query(q) => ActionView::Query(q@),
            Action::Write(p, t) => ActionView::Write(opt_view(*p), t@),
            Action::Succeed => ActionView::Succeed,
            Action::Fail(m) => ActionView::Fail(m@),
        }
    }
}

impl View for Request {
    type V = RequestView;

    closed spec fn view(&self) -> RequestView {
        RequestView { hosts: self.hosts@.map_values(|h: String| h@), output: opt_view(self.output) }
    }
}

/// What a run does after `ev`.
pub open spec fn next_step(req: RequestView, ev: EventView) -> ActionView {
    match ev {
        EventView::Start => if req.hosts.len() == 0 {
            ActionView::Succeed
        } else {
            ActionView::Search(Root::Data)
        },
        EventView::RootMissing(_) => ActionView::Fail(NOT_FOUND@),
        EventView::Searched(root, found) => if found {
            ActionView::Open
        } else if root == Root::Data {
            ActionView::Search(Root::Home)
        } else {
            ActionView::Fail(NOT_FOUND@)
        },
        EventView::StoreOpened => ActionView::Query(query_text(req.hosts.len())),
        EventView::StoreFailed(m) => ActionView::Fail(m),
        EventView::Rows(cs) => ActionView::Write(req.output, document(cs)),
        EventView::QueryFailed(m) => ActionView::Fail(m),
        EventView::Written => ActionView::Succeed,
        EventView::WriteFailed(m) => ActionView::Fail(m),
    }
}

impl Request {
    /// A request for the cookies of `hosts`, written to the file at `output`
    /// or, where there is none, to standard output.
    pub fn new(hosts: Vec<String>, output: Option<String>) -> (r: Request)
        ensures
            r@.hosts == hosts@.map_values(|h: String| h@),
            r@.output == opt_view(output),
    {
        Request { hosts, output }
    }

    /// The hosts, in the order they are bound to the query.
    pub fn hosts(&self) -> (r: &Vec<String>)
        ensures
            r@.map_values(|h: String| h@) == self@.hosts,
    {
        &self.hosts
    }

    /// The next action of a run of this request, after `ev`.
    pub fn next_action(&self, ev: Event) -> (r: Action)
        ensures
            r@ == next_step(self@, ev@),
    {
        match ev {
            Event::Start => {
                if self.hosts.len() == 0 {
                    Action::Succeed
                } else {
                    Action::Search(Root::Data)
                }
            },
            Event::RootMissing(_) => Action::Fail(String::from_str(NOT_FOUND)),
            Event::Searched(root, found) => {
                if found {
                    Action::Open
                } else {
                    match root {
                        Root::Data => Action::Search(Root::Home),
                        Root::Home => Action::Fail(String::from_str(NOT_FOUND)),
                    }
                }
            },
            Event::StoreOpened => Action::Query(cookie_query(self.hosts.len())),
            Event::StoreFailed(m) => Action::Fail(m),
            Event::Rows(cs) => {
                let text = crate::cookie::render(&cs);
                let dest = match &self.output {
                    Some(p) => Some(p.clone()),
                    None => None,
                };
                Action::Write(dest, text)
            },
            Event::QueryFailed(m) => Action::Fail(m),
            Event::Written => Action::Succeed,
            Event::WriteFailed(m) => Action::Fail(m),
        }
    }
}

/// A request with no hosts ends at its start with success: the run
/// searches for no store, runs no query and writes nothing.
pub proof fn lemma_no_hosts_no_work(req: RequestView)
    requires
        req.hosts.len() == 0,
    ensures
        next_step(req, EventView::Start) == ActionView::Succeed,
{
}

/// The text written is the same whether it goes to a file or to standard
/// output: any two requests write the same document for the same records,
/// each to its own destination.
pub proof fn lemma_same_text_for_every_destination(
    a: RequestView,
    b: RequestView,
    cs: Seq<CookieView>,
)
    ensures
        next_step(a, EventView::Rows(cs)) == ActionView::Write(a.output, document(cs)),
        next_step(b, EventView::Rows(cs)) == ActionView::Write(b.output, document(cs)),
{
}

/// A store that cannot be opened ends the run in failure with the reason
/// given, before any query is run or anything is written.
pub proof fn lemma_open_failure_ends_run(req: RequestView, reason: Seq<char>)
    ensures
        next_step(req, EventView::StoreFailed(reason)) == ActionView::Fail(reason),
{
}

} // verus!
