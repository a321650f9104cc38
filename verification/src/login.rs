//! The admin login page: where to go after signing in, and escaping of
//! values placed in the page.
use vstd::prelude::*;
use crate::text::{chars_of, string_of, starts_with, eq_str, has_prefix_str};

verus! {

/// A same-site path to continue to after login: it starts with one `/`
/// (not `//`, which would name another host) and is not the login page.
pub open spec fn is_safe_next(next: Seq<char>) -> bool {
    starts_with(next, "/"@) && !starts_with(next, "//"@) && next != "/login"@
}

/// Where to continue after login: `next` when it is safe, else `/`.
pub fn sanitize_next(next: &str) -> (r: String)
    ensures
        r@ == (if is_safe_next(next@) {
            next@
        } else {
            "/"@
        }),
{
    let n = chars_of(next);
    if has_prefix_str(&n, "/") && !has_prefix_str(&n, "//") && !eq_str(&n, "/login") {
        string_of(&n)
    } else {
        string_of(&chars_of("/"))
    }
}

/// The HTML escape of one character.
pub open spec fn escape_char(c: char) -> Seq<char> {
    if c == '&' {
        "&amp;"@
    } else if c == '<' {
        "&lt;"@
    } else if c == '>' {
        "&gt;"@
    } else if c == '"' {
        "&quot;"@
    } else if c == '\'' {
        "&#x27;"@
    } else {
        seq![c]
    }
}

/// The HTML escape of a text, character by character.
pub open spec fn html_escape_spec(s: Seq<char>) -> Seq<char>
    decreases s.len(),
{
    if s.len() == 0 {
        Seq::empty()
    } else {
        html_escape_spec(s.drop_last()) + escape_char(s.last())
    }
}

fn push_str(out: &mut Vec<char>, s: &str)
    ensures
        final(out)@ == old(out)@ + s@,
{
    let c = chars_of(s);
    let ghost start = out@;
    let mut i: usize = 0;
    while i < c.len()
        invariant
            i <= c@.len(),
            c@ == s@,
            out@ == start + c@.subrange(0, i as int),
        decreases c.len() - i,
    {
        out.push(c[i]);
        i = i + 1;
        assert(out@ =~= start + c@.subrange(0, i as int));
    }
    assert(c@.subrange(0, c@.len() as int) =~= c@);
}

/// Escapes `&`, `<`, `>`, `"` and `'` for use inside an HTML attribute.
pub fn html_escape(s: &str) -> (r: String)
    ensures
        r@ == html_escape_spec(s@),
{
    let v = chars_of(s);
    let mut out: Vec<char> = Vec::new();
    let mut i: usize = 0;
    while i < v.len()
        invariant
            i <= v@.len(),
            v@ == s@,
            out@ == html_escape_spec(v@.subrange(0, i as int)),
        decreases v.len() - i,
    {
        let ghost pre = v@.subrange(0, i as int);
        assert(v@.subrange(0, i + 1).drop_last() =~= pre);
        let c = v[i];
        if c == '&' {
            push_str(&mut out, "&amp;");
        } else if c == '<' {
            push_str(&mut out, "&lt;");
        } else if c == '>' {
            push_str(&mut out, "&gt;");
        } else if c == '"' {
            push_str(&mut out, "&quot;");
        } else if c == '\'' {
            push_str(&mut out, "&#x27;");
        } else {
            out.push(c);
            assert(out@ =~= html_escape_spec(pre) + seq![c]);
        }
        i = i + 1;
    }
    assert(v@.subrange(0, v@.len() as int) =~= v@);
    string_of(&out)
}

} // verus!
