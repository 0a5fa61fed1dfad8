//! Cookie records and their rendering in the Netscape cookie-file format.
use vstd::prelude::*;

use crate::decimal::{decimal, push_decimal};

verus! {

/// The fixed comment block that opens every cookie file.
pub const COOKIE_FILE_HEADER: &'static str = "# Netscape HTTP Cookie File
# http://curl.haxx.se/rfc/cookie_spec.html
# This is a generated file!  Do not edit.
# ALL SPACES MUST BE TABS! - IT WILL THROW AN ERROR!";

/// One cookie as read from the store.
#[derive(Debug)]
pub struct MozCookie {
    host: String,
    path: String,
    expiry: i64,
    name: String,
    value: String,
}

/// The mathematical value of a cookie record.
pub struct CookieView {
    pub host: Seq<char>,
    pub path: Seq<char>,
    pub expiry: int,
    pub name: Seq<char>,
    pub value: Seq<char>,
}

impl View for MozCookie {
    type V = CookieView;

    closed spec fn view(&self) -> CookieView {
        CookieView {
            host: self.host@,
            path: self.path@,
            expiry: self.expiry as int,
            name: self.name@,
            value: self.value@,
        }
    }
}

/// The field separator of a cookie line.
pub open spec fn tab() -> Seq<char> {
    seq!['\t']
}

/// The constant of the second field: the domain applies to its subdomains.
pub open spec fn flag_true() -> Seq<char> {
    seq!['T', 'R', 'U', 'E']
}

/// The constant of the fourth field: the cookie is not secure-only.
pub open spec fn flag_false() -> Seq<char> {
    seq!['F', 'A', 'L', 'S', 'E']
}

/// The seven fields of a cookie line, in order.
pub open spec fn line_fields(c: CookieView) -> Seq<Seq<char>> {
    seq![c.host, flag_true(), c.path, flag_false(), decimal(c.expiry), c.name, c.value]
}

/// The line of a cookie: `host TRUE path FALSE expiry name value`, tab-separated.
pub open spec fn line_text(c: CookieView) -> Seq<char> {
    c.host + tab() + flag_true() + tab() + c.path + tab() + flag_false() + tab() + decimal(
        c.expiry,
    ) + tab() + c.name + tab() + c.value
}

/// The views of a sequence of records.
pub open spec fn views(cs: Seq<MozCookie>) -> Seq<CookieView> {
    cs.map_values(|c: MozCookie| c@)
}

/// The header block: the header followed by its line end and one blank line.
pub open spec fn header_block() -> Seq<char> {
    COOKIE_FILE_HEADER@ + seq!['\n', '\n']
}

/// The data lines of a cookie file, each ended by a newline.
pub open spec fn body_text(cs: Seq<CookieView>) -> Seq<char>
    decreases cs.len(),
{
    if cs.len() == 0 {
        Seq::empty()
    } else {
        body_text(cs.drop_last()) + line_text(cs.last()) + seq!['\n']
    }
}

/// A whole cookie file: the header block, then one line per record.
pub open spec fn document(cs: Seq<CookieView>) -> Seq<char> {
    header_block() + body_text(cs)
}

impl MozCookie {
    /// A record with the given fields.
    pub fn new(host: String, path: String, expiry: i64, name: String, value: String) -> (r:
        MozCookie)
        ensures
            r@ == (CookieView {
                host: host@,
                path: path@,
                expiry: expiry as int,
                name: name@,
                value: value@,
            }),
    {
        MozCookie { host, path, expiry, name, value }
    }

    pub fn host(&self) -> (r: &str)
        ensures
            r@ == self@.host,
    {
        self.host.as_str()
    }

    pub fn path(&self) -> (r: &str)
        ensures
            r@ == self@.path,
    {
        self.path.as_str()
    }

    pub fn expiry(&self) -> (r: i64)
        ensures
            r as int == self@.expiry,
    {
        self.expiry
    }

    pub fn name(&self) -> (r: &str)
        ensures
            r@ == self@.name,
    {
        self.name.as_str()
    }

    pub fn value(&self) -> (r: &str)
        ensures
            r@ == self@.value,
    {
        self.value.as_str()
    }

    /// Appends this cookie's line, without a line end, to `out`.
    pub fn push_line(&self, out: &mut String)
        ensures
            final(out)@ == old(out)@ + line_text(self@),
    {
        proof {
            reveal_strlit("\t");
            reveal_strlit("TRUE");
            reveal_strlit("FALSE");
        }
        out.append(self.host.as_str());
        out.append("\t");
        out.append("TRUE");
        out.append("\t");
        out.append(self.path.as_str());
        out.append("\t");
        out.append("FALSE");
        out.append("\t");
        push_decimal(out, self.expiry);
        out.append("\t");
        out.append(self.name.as_str());
        out.append("\t");
        out.append(self.value.as_str());
        assert(final(out)@ =~= old(out)@ + line_text(self@));
    }

    /// The cookie's line in the Netscape cookie-file format, without a line end.
    pub fn fmt(&self) -> (r: String)
        ensures
            r@ == line_text(self@),
    {
        let mut s = String::new();
        self.push_line(&mut s);
        assert(s@ =~= line_text(self@));
        s
    }
}

/// The complete cookie file for `cookies`, in their order.
pub fn render(cookies: &Vec<MozCookie>) -> (r: String)
    ensures
        r@ == document(views(cookies@)),
{
    let mut out = String::new();
    proof {
        reveal_strlit("\n\n");
    }
    out.append(COOKIE_FILE_HEADER);
    out.append("\n\n");
    let ghost all = views(cookies@);
    let mut i: usize = 0;
    while i < cookies.len()
        invariant
            i <= cookies@.len(),
            all == views(cookies@),
            out@ == header_block() + body_text(all.take(i as int)),
        decreases cookies@.len() - i,
    {
        proof {
            reveal_strlit("\n");
            let next = all.take(i as int + 1);
            assert(next.drop_last() =~= all.take(i as int));
            assert(next.last() == cookies@[i as int]@);
            assert(body_text(next) == body_text(all.take(i as int)) + line_text(
                cookies@[i as int]@,
            ) + seq!['\n']);
        }
        cookies[i].push_line(&mut out);
        out.append("\n");
        i = i + 1;
        assert(out@ =~= header_block() + body_text(all.take(i as int)));
    }
    assert(all.take(i as int) =~= all);
    out
}

/// Whether `s` holds no tab character.
pub open spec fn tab_free(s: Seq<char>) -> bool {
    forall|i: int| 0 <= i < s.len() ==> s[i] != '\t'
}

/// The pieces of `s` between its tab characters, in order; always at least one.
pub open spec fn split_tabs(s: Seq<char>) -> Seq<Seq<char>>
    decreases s.len(),
{
    if s.len() == 0 {
        seq![Seq::empty()]
    } else {
        let prev = split_tabs(s.drop_last());
        if s.last() == '\t' {
            prev.push(Seq::empty())
        } else {
            prev.update(prev.len() - 1, prev.last().push(s.last()))
        }
    }
}

proof fn lemma_split_nonempty(s: Seq<char>)
    ensures
        split_tabs(s).len() >= 1,
    decreases s.len(),
{
    if s.len() > 0 {
        lemma_split_nonempty(s.drop_last());
    }
}

proof fn lemma_split_extend(a: Seq<char>, b: Seq<char>)
    requires
        tab_free(b),
    ensures
        split_tabs(a + b) == split_tabs(a).update(
            split_tabs(a).len() - 1,
            split_tabs(a).last() + b,
        ),
    decreases b.len(),
{
    let p = split_tabs(a);
    lemma_split_nonempty(a);
    if b.len() == 0 {
        assert(a + b =~= a);
        assert(p.last() + b =~= p.last());
        assert(p.update(p.len() - 1, p.last() + b) =~= p);
    } else {
        let b0 = b.drop_last();
        assert(tab_free(b0));
        lemma_split_extend(a, b0);
        assert((a + b).drop_last() =~= a + b0);
        assert((a + b).last() == b.last());
        assert((p.last() + b0).push(b.last()) =~= p.last() + b);
        assert(split_tabs(a + b) =~= p.update(p.len() - 1, p.last() + b));
    }
}

proof fn lemma_split_field(x: Seq<char>, f: Seq<char>)
    requires
        tab_free(f),
    ensures
        split_tabs(x + tab() + f) == split_tabs(x).push(f),
{
    let xt = x + tab();
    assert(xt.drop_last() =~= x);
    assert(split_tabs(xt) == split_tabs(x).push(Seq::empty()));
    lemma_split_extend(xt, f);
    let p = split_tabs(xt);
    assert(Seq::<char>::empty() + f =~= f);
    assert(p.update(p.len() - 1, p.last() + f) =~= split_tabs(x).push(f));
}

proof fn lemma_digits_tab_free(n: nat)
    ensures
        tab_free(crate::decimal::digits(n)),
    decreases n,
{
    if n >= 10 {
        lemma_digits_tab_free(n / 10);
    }
}

/// Splitting a cookie's line on its tab characters gives back its seven
/// fields in order: host, `TRUE`, path, `FALSE`, expiry, name, value.
/// This holds whenever host, path, name and value hold no tab themselves.
pub proof fn lemma_line_splits_into_fields(c: CookieView)
    requires
        tab_free(c.host),
        tab_free(c.path),
        tab_free(c.name),
        tab_free(c.value),
    ensures
        split_tabs(line_text(c)) == line_fields(c),
        split_tabs(line_text(c)).len() == 7,
{
    let e = decimal(c.expiry);
    if c.expiry < 0 {
        lemma_digits_tab_free((-c.expiry) as nat);
        assert(tab_free(e));
    } else {
        lemma_digits_tab_free(c.expiry as nat);
    }
    assert(tab_free(flag_true()));
    assert(tab_free(flag_false()));
    lemma_split_extend(Seq::empty(), c.host);
    assert(Seq::<char>::empty() + c.host =~= c.host);
    assert(split_tabs(Seq::<char>::empty()) =~= seq![Seq::<char>::empty()]);
    assert(split_tabs(c.host) =~= seq![c.host]);
    let s1 = c.host + tab() + flag_true();
    lemma_split_field(c.host, flag_true());
    let s2 = s1 + tab() + c.path;
    lemma_split_field(s1, c.path);
    let s3 = s2 + tab() + flag_false();
    lemma_split_field(s2, flag_false());
    let s4 = s3 + tab() + e;
    lemma_split_field(s3, e);
    let s5 = s4 + tab() + c.name;
    lemma_split_field(s4, c.name);
    lemma_split_field(s5, c.value);
    assert(split_tabs(line_text(c)) =~= line_fields(c));
}

/// Whether `s` is a block of comment lines: it is not empty, each of its
/// lines starts with `#`, and it does not end with a line end.
pub open spec fn comment_lines(s: Seq<char>) -> bool {
    &&& s.len() > 0
    &&& s[0] == '#'
    &&& s.last() != '\n'
    &&& forall|i: int| 0 <= i < s.len() - 1 && #[trigger] s[i] == '\n' ==> s[i + 1] == '#'
}

proof fn lemma_body_starts_with_first_line(cs: Seq<CookieView>)
    requires
        cs.len() > 0,
    ensures
        body_text(cs).len() >= line_text(cs[0]).len() + 1,
        body_text(cs).subrange(0, line_text(cs[0]).len() + 1 as int) == line_text(cs[0]) + seq!['\n'],
    decreases cs.len(),
{
    if cs.len() == 1 {
        assert(cs.drop_last() =~= Seq::<CookieView>::empty());
        assert(body_text(cs.drop_last()) == Seq::<char>::empty());
        assert(cs.last() == cs[0]);
        assert(body_text(cs) =~= line_text(cs[0]) + seq!['\n']);
    } else {
        let rest = cs.drop_last();
        lemma_body_starts_with_first_line(rest);
        assert(rest[0] == cs[0]);
        let n: int = line_text(cs[0]).len() + 1 as int;
        assert(body_text(cs).subrange(0, n) =~= body_text(rest).subrange(0, n));
    }
}

/// Every cookie file opens with the same header block: the header's comment
/// lines, the line end of its last line, and exactly one blank line. The
/// first record's line follows at once; with no records the file ends there.
pub proof fn lemma_document_opens_with_header(cs: Seq<CookieView>)
    ensures
        header_block() == COOKIE_FILE_HEADER@ + seq!['\n', '\n'],
        comment_lines(COOKIE_FILE_HEADER@),
        document(cs).subrange(0, header_block().len() as int) == header_block(),
        cs.len() == 0 ==> document(cs) == header_block(),
        cs.len() > 0 ==> document(cs).subrange(
            header_block().len() as int,
            header_block().len() + line_text(cs[0]).len() + 1 as int,
        ) == line_text(cs[0]) + seq!['\n'],
{
    reveal_strlit("# Netscape HTTP Cookie File
# http://curl.haxx.se/rfc/cookie_spec.html
# This is a generated file!  Do not edit.
# ALL SPACES MUST BE TABS! - IT WILL THROW AN ERROR!");
    let h = COOKIE_FILE_HEADER@;
    assert(comment_lines(h));
    let hb = header_block();
    assert(document(cs).subrange(0, hb.len() as int) =~= hb);
    if cs.len() == 0 {
        assert(document(cs) =~= hb);
    } else {
        lemma_body_starts_with_first_line(cs);
        let n: int = line_text(cs[0]).len() + 1 as int;
        assert(document(cs).subrange(hb.len() as int, hb.len() + n) =~= body_text(cs).subrange(
            0,
            n,
        ));
    }
}

} // verus!
