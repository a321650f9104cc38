//! Helpers of the assistant's tool executors: DNS host normalisation and the
//! human-readable summaries of proposed rules.
use vstd::prelude::*;
use crate::text::{
    chars_of, string_of, trim, trim_vec, lower, lower_vec, is_ws, is_ws_exec, join, upper_char,
    upper_char_exec, strs_view, slice_vec, eq_chars, decimal, decimal_exec, all_digits, all_digits_exec,
    digits_value, parse_unsigned_exec,
};
use crate::json::{Json, JsonValue};

verus! {

/// Characters stripped from both ends of a DNS host the model wrote.
pub open spec fn is_dns_wrapping(c: char) -> bool {
    c == '"' || c == '\'' || c == '`' || c == '<' || c == '>' || c == ',' || c == ';' || c == '.'
}

pub open spec fn strip_dns_start(s: Seq<char>) -> Seq<char>
    decreases s.len(),
{
    if s.len() > 0 && is_dns_wrapping(s[0]) {
        strip_dns_start(s.subrange(1, s.len() as int))
    } else {
        s
    }
}

pub open spec fn strip_dns_end(s: Seq<char>) -> Seq<char>
    decreases s.len(),
{
    if s.len() > 0 && is_dns_wrapping(s[s.len() - 1]) {
        strip_dns_end(s.subrange(0, s.len() - 1))
    } else {
        s
    }
}

/// A clean hostname: no path, query or fragment characters, no whitespace,
/// at most 255 bytes.
pub open spec fn is_clean_hostname(h: Seq<char>) -> bool {
    &&& (vstd::utf8::encode_utf8(h).len() as usize) <= 255
    &&& forall|i: int| 0 <= i < h.len() ==> #[trigger] h[i] != '/' && h[i] != '?' && h[i] != '#' && !is_ws(h[i])
}

/// The DNS override host: trimmed, stripped of quoting and trailing
/// punctuation, lower-cased; it must be non-empty and a clean hostname.
pub open spec fn dns_host_spec(raw: Seq<char>) -> Result<Seq<char>, Seq<char>> {
    let host = lower(strip_dns_end(strip_dns_start(trim(raw))));
    if host.len() == 0 {
        Err("DNS override host is required"@)
    } else if !is_clean_hostname(host) {
        Err("DNS override host must be a clean hostname"@)
    } else {
        Ok(host)
    }
}

fn is_dns_wrapping_exec(c: char) -> (r: bool)
    ensures
        r == is_dns_wrapping(c),
{
    c == '"' || c == '\'' || c == '`' || c == '<' || c == '>' || c == ',' || c == ';' || c == '.'
}

/// Normalises the host of a DNS override.
pub fn normalize_dns_host(raw: &str) -> (r: Result<String, String>)
    ensures
        match r {
            Ok(h) => dns_host_spec(raw@) == Ok::<Seq<char>, Seq<char>>(h@),
            Err(e) => dns_host_spec(raw@) == Err::<Seq<char>, Seq<char>>(e@),
        },
{
    let t = trim_vec(&chars_of(raw));
    let mut a: usize = 0;
    assert(t@.subrange(0, t@.len() as int) =~= t@);
    while a < t.len() && is_dns_wrapping_exec(t[a])
        invariant
            a <= t@.len(),
            strip_dns_start(t@) == strip_dns_start(t@.subrange(a as int, t@.len() as int)),
        decreases t.len() - a,
    {
        let ghost u = t@.subrange(a as int, t@.len() as int);
        assert(u.subrange(1, u.len() as int) =~= t@.subrange(a + 1, t@.len() as int));
        a = a + 1;
    }
    let ghost u = t@.subrange(a as int, t@.len() as int);
    let mut b: usize = t.len();
    assert(u.subrange(0, u.len() as int) =~= u);
    while b > a && is_dns_wrapping_exec(t[b - 1])
        invariant
            a <= b <= t@.len(),
            u == t@.subrange(a as int, t@.len() as int),
            strip_dns_end(u) == strip_dns_end(t@.subrange(a as int, b as int)),
        decreases b,
    {
        let ghost w = t@.subrange(a as int, b as int);
        assert(w.subrange(0, w.len() - 1) =~= t@.subrange(a as int, b - 1));
        b = b - 1;
    }
    let host = lower_vec(&slice_vec(&t, a, b));
    if host.len() == 0 {
        return Err(string_of(&chars_of("DNS override host is required")));
    }
    let text = string_of(&host);
    let mut clean = text.as_str().len() <= 255;
    let mut i: usize = 0;
    while i < host.len()
        invariant
            i <= host@.len(),
            clean == ((vstd::utf8::encode_utf8(host@).len() as usize) <= 255 && forall|j: int|
                0 <= j < i ==> #[trigger] host@[j] != '/' && host@[j] != '?' && host@[j] != '#'
                    && !is_ws(host@[j])),
        decreases host.len() - i,
    {
        let c = host[i];
        if c == '/' || c == '?' || c == '#' || is_ws_exec(c) {
            clean = false;
        }
        i = i + 1;
    }
    if !clean {
        return Err(string_of(&chars_of("DNS override host must be a clean hostname")));
    }
    Ok(text)
}

/// What a rewrite or mock rule matches, in words: the methods joined by
/// commas, the host and the path, separated by spaces; `matching traffic`
/// when none is given.
pub open spec fn location_summary_spec(
    host: Option<Seq<char>>,
    path: Option<Seq<char>>,
    methods: Seq<Seq<char>>,
) -> Seq<char> {
    let parts = (if methods.len() > 0 {
        seq![join(methods, ","@)]
    } else {
        Seq::empty()
    }) + (match host {
        Some(h) => seq![h],
        None => Seq::empty(),
    }) + (match path {
        Some(p) => seq![p],
        None => Seq::empty(),
    });
    if parts.len() == 0 {
        "matching traffic"@
    } else {
        join(parts, " "@)
    }
}

fn push_chars(out: &mut Vec<char>, s: &[char])
    ensures
        final(out)@ == old(out)@ + s@,
{
    let mut i: usize = 0;
    let ghost start = out@;
    while i < s.len()
        invariant
            i <= s@.len(),
            out@ == start + s@.subrange(0, i as int),
        decreases s.len() - i,
    {
        out.push(s[i]);
        i = i + 1;
        assert(out@ =~= start + s@.subrange(0, i as int));
    }
    assert(s@.subrange(0, s@.len() as int) =~= s@);
}

fn join_exec(parts: &Vec<Vec<char>>, sep: char) -> (r: Vec<char>)
    ensures
        r@ == join(parts@.map_values(|p: Vec<char>| p@), seq![sep]),
{
    let ghost pv = parts@.map_values(|p: Vec<char>| p@);
    let mut out: Vec<char> = Vec::new();
    let mut k: usize = 0;
    while k < parts.len()
        invariant
            k <= parts@.len(),
            pv == parts@.map_values(|p: Vec<char>| p@),
            out@ == join(pv.subrange(0, k as int), seq![sep]),
        decreases parts.len() - k,
    {
        let ghost prev = pv.subrange(0, k as int);
        let ghost next = pv.subrange(0, k + 1);
        assert(next.subrange(0, k as int) =~= prev);
        if k > 0 {
            out.push(sep);
        }
        push_chars(&mut out, &parts[k]);
        k = k + 1;
        proof {
            if k == 1 {
                assert(prev =~= Seq::<Seq<char>>::empty());
                assert(out@ =~= next[0]);
            } else {
                assert(out@ =~= join(prev, seq![sep]) + seq![sep] + next[k - 1]);
            }
        }
    }
    assert(pv.subrange(0, parts@.len() as int) =~= pv);
    out
}

/// Describes what a rule matches.
pub fn location_summary(host: Option<&str>, path: Option<&str>, methods: &Vec<String>) -> (r: String)
    ensures
        r@ == location_summary_spec(
            match host {
                Some(h) => Some(h@),
                None => None,
            },
            match path {
                Some(p) => Some(p@),
                None => None,
            },
            strs_view(methods@),
        ),
{
    let mut ms: Vec<Vec<char>> = Vec::new();
    let mut i: usize = 0;
    while i < methods.len()
        invariant
            i <= methods@.len(),
            ms@.len() == i,
            ms@.map_values(|p: Vec<char>| p@) == strs_view(methods@).subrange(0, i as int),
        decreases methods.len() - i,
    {
        ms.push(chars_of(methods[i].as_str()));
        i = i + 1;
        assert(ms@.map_values(|p: Vec<char>| p@) =~= strs_view(methods@).subrange(0, i as int));
    }
    assert(strs_view(methods@).subrange(0, methods@.len() as int) =~= strs_view(methods@));
    proof {
        reveal_strlit(",");
        reveal_strlit(" ");
        assert(","@ =~= seq![',']);
        assert(" "@ =~= seq![' ']);
    }
    let ghost m_part: Seq<Seq<char>> = if methods@.len() > 0 {
        seq![join(strs_view(methods@), ","@)]
    } else {
        Seq::empty()
    };
    let ghost h_part: Seq<Seq<char>> = match host {
        Some(h) => seq![h@],
        None => Seq::<Seq<char>>::empty(),
    };
    let ghost p_part: Seq<Seq<char>> = match path {
        Some(p) => seq![p@],
        None => Seq::<Seq<char>>::empty(),
    };
    let mut parts: Vec<Vec<char>> = Vec::new();
    if methods.len() > 0 {
        let j = join_exec(&ms, ',');
        parts.push(j);
    }
    assert(parts@.map_values(|p: Vec<char>| p@) =~= m_part);
    match host {
        Some(h) => parts.push(chars_of(h)),
        None => {},
    }
    assert(parts@.map_values(|p: Vec<char>| p@) =~= m_part + h_part);
    match path {
        Some(p) => parts.push(chars_of(p)),
        None => {},
    }
    assert(parts@.map_values(|p: Vec<char>| p@) =~= m_part + h_part + p_part);
    if parts.len() == 0 {
        string_of(&chars_of("matching traffic"))
    } else {
        string_of(&join_exec(&parts, ' '))
    }
}

/// The first character ASCII-upper-cased, the rest unchanged.
pub open spec fn title_case_spec(s: Seq<char>) -> Seq<char> {
    if s.len() == 0 {
        s
    } else {
        seq![upper_char(s[0])] + s.subrange(1, s.len() as int)
    }
}

/// Capitalises the first character of a word.
pub fn title_case(value: &str) -> (r: String)
    ensures
        r@ == title_case_spec(value@),
{
    let v = chars_of(value);
    if v.len() == 0 {
        return String::new();
    }
    let mut out: Vec<char> = Vec::new();
    out.push(upper_char_exec(v[0]));
    let rest = slice_vec(&v, 1, v.len());
    push_chars(&mut out, &rest);
    string_of(&out)
}

/// The one-line summary of a tool's result: how many fields an object has,
/// how many items an array has, or that a result came back.
pub open spec fn tool_summary_of(v: Json) -> Seq<char> {
    match v {
        Json::Object(entries) => decimal(entries.len()) + " fields returned"@,
        Json::Array(items) => decimal(items.len()) + " items returned"@,
        _ => "tool result returned"@,
    }
}

/// Summarises a tool's result for the chat transcript.
pub fn tool_summary(value: &JsonValue) -> (r: String)
    ensures
        r@ == tool_summary_of(value.model()),
{
    match value {
        JsonValue::Object(entries) => {
            proof {
                crate::json::lemma_entry_models(entries@);
            }
            let mut out = decimal_exec(entries.len() as u64);
            let tail = chars_of(" fields returned");
            out.extend_from_slice(tail.as_slice());
            string_of(&out)
        },
        JsonValue::Array(items) => {
            proof {
                crate::json::lemma_models(items@);
            }
            let mut out = decimal_exec(items.len() as u64);
            let tail = chars_of(" items returned");
            out.extend_from_slice(tail.as_slice());
            string_of(&out)
        },
        _ => string_of(&chars_of("tool result returned")),
    }
}


/// The value of a JSON number that is a non-negative integer within `u64`
/// (`Number::as_u64`: the number's text is plain decimal digits).
pub open spec fn number_as_u64(n: Seq<char>) -> Option<nat> {
    if n.len() > 0 && all_digits(n) && digits_value(n) <= u64::MAX {
        Some(digits_value(n))
    } else {
        None
    }
}

/// The optional non-negative integer argument `key`: absent or `null` is
/// none; anything but a non-negative integer within `u64` is an error.
pub open spec fn optional_u64_spec(args: Json, key: Seq<char>) -> Result<Option<nat>, Seq<char>> {
    match args.get(key) {
        None => Ok(None),
        Some(Json::Null) => Ok(None),
        Some(Json::Number(n)) => match number_as_u64(n) {
            Some(v) => Ok(Some(v)),
            None => Err(key + " must be a non-negative integer"@),
        },
        Some(_) => Err(key + " must be a non-negative integer"@),
    }
}

/// Reads the optional non-negative integer argument `key` of a tool call.
pub fn optional_u64_arg(args: &JsonValue, key: &str) -> (r: Result<Option<u64>, String>)
    ensures
        optional_u64_spec(args.model(), key@) == match r {
            Ok(Some(v)) => Ok::<Option<nat>, Seq<char>>(Some(v as nat)),
            Ok(None) => Ok::<Option<nat>, Seq<char>>(None),
            Err(e) => Err::<Option<nat>, Seq<char>>(e@),
        },
{
    let mut msg = chars_of(key);
    msg.extend_from_slice(chars_of(" must be a non-negative integer").as_slice());
    assert(msg@ =~= key@ + " must be a non-negative integer"@);
    match args.get(key) {
        None => Ok(None),
        Some(JsonValue::Null) => Ok(None),
        Some(JsonValue::Number(n)) => {
            let digits = chars_of(n.as_str());
            if digits.len() > 0 && all_digits_exec(&digits) {
                assert(crate::text::is_digit(digits@[0]));
                match parse_unsigned_exec(&digits, u64::MAX) {
                    Some(v) => {
                        assert(digits@ == n@);
                        assert(crate::text::parse_unsigned(digits@, u64::MAX as nat) == Some(
                            digits_value(digits@),
                        ));
                        assert(number_as_u64(n@) == Some(v as nat));
                        Ok(Some(v))
                    },
                    None => Err(string_of(&msg)),
                }
            } else {
                Err(string_of(&msg))
            }
        },
        Some(_) => Err(string_of(&msg)),
    }
}

/// The string argument `key`, trimmed, when it is a string with something
/// besides whitespace.
pub open spec fn non_empty_string_spec(args: Json, key: Seq<char>) -> Option<Seq<char>> {
    match args.get(key) {
        Some(v) => match v.text() {
            Some(t) => if trim(t).len() > 0 {
                Some(trim(t))
            } else {
                None
            },
            None => None,
        },
        None => None,
    }
}

/// Reads the non-empty string argument `key` of a tool call, trimmed.
pub fn non_empty_string_arg(args: &JsonValue, key: &str) -> (r: Option<String>)
    ensures
        match r {
            Some(s) => non_empty_string_spec(args.model(), key@) == Some(s@),
            None => non_empty_string_spec(args.model(), key@) is None,
        },
{
    match args.get(key) {
        Some(v) => match v.as_str() {
            Some(t) => {
                let trimmed = trim_vec(&chars_of(t.as_str()));
                if trimmed.len() > 0 {
                    Some(string_of(&trimmed))
                } else {
                    None
                }
            },
            None => None,
        },
        None => None,
    }
}

/// The trimmed, non-empty strings among `items`, in order.
pub open spec fn trimmed_texts(items: Seq<Json>) -> Seq<Seq<char>>
    decreases items.len(),
{
    if items.len() == 0 {
        Seq::empty()
    } else {
        let prev = trimmed_texts(items.drop_last());
        match items.last().text() {
            Some(t) => if trim(t).len() > 0 {
                prev.push(trim(t))
            } else {
                prev
            },
            None => prev,
        }
    }
}

/// An array argument read as a list of strings: its string items, trimmed,
/// without the empty ones; none when the value is not an array.
pub fn parse_string_array_arg(value: &JsonValue) -> (r: Option<Vec<String>>)
    ensures
        match r {
            Some(v) => value.model() matches Json::Array(items) && strs_view(v@) == trimmed_texts(
                items,
            ),
            None => !(value.model() is Array),
        },
{
    match value {
        JsonValue::Array(items) => {
            proof {
                crate::json::lemma_models(items@);
            }
            let ghost all = crate::json::models(items@);
            let mut out: Vec<String> = Vec::new();
            let mut i: usize = 0;
            while i < items.len()
                invariant
                    i <= items@.len(),
                    all == crate::json::models(items@),
                    all.len() == items@.len(),
                    forall|j: int| 0 <= j < all.len() ==> #[trigger] all[j] == items@[j].model(),
                    strs_view(out@) == trimmed_texts(all.subrange(0, i as int)),
                decreases items.len() - i,
            {
                let ghost pre = all.subrange(0, i as int);
                let ghost next = all.subrange(0, i + 1);
                assert(next.drop_last() =~= pre);
                assert(next.last() == items@[i as int].model());
                match items[i].as_str() {
                    Some(t) => {
                        let trimmed = trim_vec(&chars_of(t.as_str()));
                        if trimmed.len() > 0 {
                            let ghost before = out@;
                            out.push(string_of(&trimmed));
                            assert(strs_view(out@) =~= strs_view(before).push(trimmed@));
                        }
                    },
                    None => {},
                }
                i = i + 1;
            }
            assert(all.subrange(0, all.len() as int) =~= all);
            Some(out)
        },
        _ => None,
    }
}

} // verus!
