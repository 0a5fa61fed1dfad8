//! The parameterised query that selects cookies by host, and the name of
//! the store file.
use vstd::prelude::*;

verus! {

/// The query text up to its placeholder list.
pub const QUERY_HEAD: &'static str = "select name, value, host, path, expiry from moz_cookies where host in (";

/// The query text after its placeholder list.
pub const QUERY_TAIL: &'static str = ")";

/// The file name of a browser's cookie store.
pub const STORE_FILE_NAME: &'static str = "cookies.sqlite";

/// `n` positional placeholders, comma-separated: empty for 0, `?` for 1, `?,?` for 2, ...
pub open spec fn placeholders(n: nat) -> Seq<char>
    decreases n,
{
    if n == 0 {
        Seq::empty()
    } else if n == 1 {
        seq!['?']
    } else {
        placeholders((n - 1) as nat) + seq![',', '?']
    }
}

/// The query that selects every cookie whose host is one of `n` bound values.
pub open spec fn query_text(n: nat) -> Seq<char> {
    QUERY_HEAD@ + placeholders(n) + QUERY_TAIL@
}

/// The placeholder list for `len` bound values.
pub fn build_formatter(len: usize) -> (r: String)
    ensures
        r@ == placeholders(len as nat),
{
    let mut buf = String::new();
    if len == 0 {
        return buf;
    }
    proof {
        reveal_strlit("?");
    }
    buf.append("?");
    let mut i: usize = 1;
    while i < len
        invariant
            1 <= i <= len,
            buf@ == placeholders(i as nat),
        decreases len - i,
    {
        proof {
            reveal_strlit(",?");
        }
        buf.append(",?");
        i = i + 1;
    }
    buf
}

/// The query for `n` hosts, with one placeholder per host.
pub fn cookie_query(n: usize) -> (r: String)
    ensures
        r@ == query_text(n as nat),
{
    let mut q = String::from_str(QUERY_HEAD);
    let list = build_formatter(n);
    q.append(list.as_str());
    q.append(QUERY_TAIL);
    q
}

/// Whether a file name is that of a cookie store.
pub fn is_store_name(name: &str) -> (r: bool)
    ensures
        r == (name@ == STORE_FILE_NAME@),
{
    let a = String::from_str(name);
    let b = String::from_str(STORE_FILE_NAME);
    a == b
}

/// The placeholder list for `n` values is empty for `n == 0`; otherwise it
/// is `?` and `,` in turn, starting and ending with `?`: exactly `n`
/// placeholders joined by `n - 1` commas.
pub proof fn lemma_placeholder_shape(n: nat)
    ensures
        n == 0 ==> placeholders(n).len() == 0,
        n > 0 ==> placeholders(n).len() == 2 * n - 1,
        forall|i: int|
            0 <= i < placeholders(n).len() ==> #[trigger] placeholders(n)[i] == (if i % 2 == 0 {
                '?'
            } else {
                ','
            }),
    decreases n,
{
    if n > 1 {
        lemma_placeholder_shape((n - 1) as nat);
        let p = placeholders((n - 1) as nat);
        assert forall|i: int| 0 <= i < placeholders(n).len() implies #[trigger] placeholders(
            n,
        )[i] == (if i % 2 == 0 {
            '?'
        } else {
            ','
        }) by {
            if i >= p.len() {
                assert(i == p.len() || i == p.len() + 1);
            }
        }
    }
}

} // verus!
