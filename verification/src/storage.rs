//! Files under the storage directory: which requested paths may be used,
//! and the checks on a resolved path. Paths use `/` as separator; the
//! filesystem calls (creating and canonicalising directories, testing for a
//! file) are made by the caller, which hands their results in.
use vstd::prelude::*;
use crate::text::{chars_of, string_of, split, split_char, vecs_view, eq_str, has_prefix_str, starts_with, ends_with, has_suffix};

verus! {

/// The components of a path, as `std::path::Path::components` gives them:
/// a root marker for an absolute path, a leading `.` of a relative path,
/// then the non-empty segments other than `.`.
pub open spec fn components(s: Seq<char>) -> Seq<Seq<char>> {
    let segs = split(s, '/');
    let rooted = s.len() > 0 && s[0] == '/';
    (if rooted {
        seq!["/"@]
    } else {
        Seq::empty()
    }) + (if !rooted && segs.len() > 0 && segs[0] == "."@ {
        seq!["."@]
    } else {
        Seq::empty()
    }) + normal_segments(segs)
}

/// The non-empty segments other than `.`, in order.
pub open spec fn normal_segments(segs: Seq<Seq<char>>) -> Seq<Seq<char>>
    decreases segs.len(),
{
    if segs.len() == 0 {
        Seq::empty()
    } else {
        let prev = normal_segments(segs.drop_last());
        let g = segs.last();
        if g.len() > 0 && g != "."@ {
            prev.push(g)
        } else {
            prev
        }
    }
}

/// A relative path that cannot leave the directory it is joined to: not
/// empty, not absolute, and without a `..` segment.
pub open spec fn is_safe_relative(s: Seq<char>) -> bool {
    &&& s.len() > 0
    &&& s[0] != '/'
    &&& forall|i: int| 0 <= i < split(s, '/').len() ==> #[trigger] split(s, '/')[i] != ".."@
}

/// Whether a requested path is a safe relative path.
pub fn is_safe_relative_path(path: &str) -> (r: bool)
    ensures
        r == is_safe_relative(path@),
{
    let p = chars_of(path);
    if p.len() == 0 || p[0] == '/' {
        return false;
    }
    let segs = split_char(&p, '/');
    let ghost sv = vecs_view(segs@);
    let mut i: usize = 0;
    while i < segs.len()
        invariant
            i <= segs@.len(),
            sv == vecs_view(segs@),
            sv == split(path@, '/'),
            p@ == path@,
            forall|j: int| 0 <= j < i ==> #[trigger] sv[j] != ".."@,
        decreases segs.len() - i,
    {
        if eq_str(&segs[i], "..") {
            assert(sv[i as int] == ".."@);
            return false;
        }
        i = i + 1;
    }
    true
}

/// `base` joined with a relative path, as `Path::join` does it.
pub open spec fn join_path(base: Seq<char>, rel: Seq<char>) -> Seq<char> {
    if base.len() == 0 {
        rel
    } else if ends_with(base, "/"@) {
        base + rel
    } else {
        base + "/"@ + rel
    }
}

/// The file a read request names: an absolute request as given, a safe
/// relative request under the storage root.
pub open spec fn candidate_spec(root: Seq<char>, requested: Seq<char>) -> Result<Seq<char>, Seq<char>> {
    if requested.len() == 0 {
        Err("path is required"@)
    } else if requested[0] == '/' {
        Ok(requested)
    } else if !is_safe_relative(requested) {
        Err("path must stay inside storage directory"@)
    } else {
        Ok(join_path(root, requested))
    }
}

fn concat(a: &[char], b: &[char]) -> (r: Vec<char>)
    ensures
        r@ == a@ + b@,
{
    let mut out: Vec<char> = Vec::new();
    let mut i: usize = 0;
    while i < a.len()
        invariant
            i <= a@.len(),
            out@ == a@.subrange(0, i as int),
        decreases a.len() - i,
    {
        out.push(a[i]);
        i = i + 1;
        assert(out@ =~= a@.subrange(0, i as int));
    }
    let mut j: usize = 0;
    while j < b.len()
        invariant
            j <= b@.len(),
            out@ == a@ + b@.subrange(0, j as int),
        decreases b.len() - j,
    {
        out.push(b[j]);
        j = j + 1;
        assert(out@ =~= a@ + b@.subrange(0, j as int));
    }
    assert(a@.subrange(0, a@.len() as int) =~= a@);
    assert(b@.subrange(0, b@.len() as int) =~= b@);
    out
}

/// The candidate file of a read request, given the canonical storage root.
pub fn storage_candidate(root: &str, requested: &str) -> (r: Result<String, String>)
    ensures
        match r {
            Ok(p) => candidate_spec(root@, requested@) == Ok::<Seq<char>, Seq<char>>(p@),
            Err(e) => candidate_spec(root@, requested@) == Err::<Seq<char>, Seq<char>>(e@),
        },
{
    let req = chars_of(requested);
    if req.len() == 0 {
        return Err(string_of(&chars_of("path is required")));
    }
    if req[0] == '/' {
        return Ok(string_of(&req));
    }
    if !is_safe_relative_path(requested) {
        return Err(string_of(&chars_of("path must stay inside storage directory")));
    }
    let base = chars_of(root);
    if base.len() == 0 {
        return Ok(string_of(&req));
    }
    let slash = chars_of("/");
    if has_suffix(&base, &slash) {
        Ok(string_of(&concat(&base, &req)))
    } else {
        let with_sep = concat(&base, &slash);
        Ok(string_of(&concat(&with_sep, &req)))
    }
}

/// `base`'s components are a prefix of `path`'s (`Path::starts_with`).
pub open spec fn path_starts_with(path: Seq<char>, base: Seq<char>) -> bool {
    let p = components(path);
    let b = components(base);
    b.len() <= p.len() && p.subrange(0, b.len() as int) == b
}

fn components_exec(s: &[char]) -> (r: Vec<Vec<char>>)
    ensures
        vecs_view(r@) == components(s@),
{
    let segs = split_char(s, '/');
    let ghost sv = vecs_view(segs@);
    let rooted = s.len() > 0 && s[0] == '/';
    let mut out: Vec<Vec<char>> = Vec::new();
    proof {
        reveal_strlit("/");
        reveal_strlit(".");
    }
    if rooted {
        out.push(chars_of("/"));
    }
    if !rooted && segs.len() > 0 && eq_str(&segs[0], ".") {
        out.push(chars_of("."));
    }
    let ghost head = vecs_view(out@);
    let mut i: usize = 0;
    while i < segs.len()
        invariant
            i <= segs@.len(),
            sv == vecs_view(segs@),
            vecs_view(out@) == head + normal_segments(sv.subrange(0, i as int)),
        decreases segs.len() - i,
    {
        let ghost pre = sv.subrange(0, i as int);
        assert(sv.subrange(0, i + 1).drop_last() =~= pre);
        assert(sv.subrange(0, i + 1).last() == segs@[i as int]@);
        if segs[i].len() > 0 && !eq_str(&segs[i], ".") {
            let ghost before = vecs_view(out@);
            let g = crate::text::slice_vec(&segs[i], 0, segs[i].len());
            assert(g@ =~= segs@[i as int]@);
            out.push(g);
            assert(vecs_view(out@) =~= before.push(segs@[i as int]@));
        }
        i = i + 1;
    }
    assert(sv.subrange(0, segs@.len() as int) =~= sv);
    out
}

/// Whether `path` lies under `base`, component-wise.
pub fn path_within(path: &str, base: &str) -> (r: bool)
    ensures
        r == path_starts_with(path@, base@),
{
    let pc = chars_of(path);
    let bc = chars_of(base);
    let p = components_exec(&pc);
    let b = components_exec(&bc);
    let ghost pv = vecs_view(p@);
    let ghost bv = vecs_view(b@);
    assert(pv == components(path@));
    assert(bv == components(base@));
    if b.len() > p.len() {
        return false;
    }
    let mut i: usize = 0;
    while i < b.len()
        invariant
            i <= b@.len(),
            b@.len() <= p@.len(),
            pv == vecs_view(p@),
            bv == vecs_view(b@),
            forall|j: int| 0 <= j < i ==> pv[j] == bv[j],
            pv == components(path@),
            bv == components(base@),
        decreases b.len() - i,
    {
        if !crate::text::eq_chars(&p[i], &b[i]) {
            assert(pv[i as int] == p@[i as int]@ && bv[i as int] == b@[i as int]@);
            assert(pv.subrange(0, bv.len() as int)[i as int] != bv[i as int]);
            assert(pv.subrange(0, bv.len() as int) != bv);
            return false;
        }
        i = i + 1;
    }
    assert(pv.subrange(0, bv.len() as int) =~= bv);
    true
}

/// The outcome of a read request once the candidate has been canonicalised
/// (`resolved`: the canonical path, or the error text) and tested for being
/// a regular file.
pub open spec fn resolved_read_spec(
    root: Seq<char>,
    resolved: Result<Seq<char>, Seq<char>>,
    is_file: bool,
) -> Result<Seq<char>, Seq<char>> {
    match resolved {
        Err(e) => Err("failed to resolve file: "@ + e),
        Ok(file) => if !path_starts_with(file, root) {
            Err("path must stay inside storage directory"@)
        } else if !is_file {
            Err("path must reference a file"@)
        } else {
            Ok(file)
        },
    }
}

/// Checks a canonicalised read candidate against the storage root.
pub fn resolve_storage_file_for_read(root: &str, resolved: Result<String, String>, is_file: bool) -> (r: Result<String, String>)
    ensures
        match r {
            Ok(p) => resolved_read_spec(
                root@,
                match resolved {
                    Ok(f) => Ok::<Seq<char>, Seq<char>>(f@),
                    Err(e) => Err::<Seq<char>, Seq<char>>(e@),
                },
                is_file,
            ) == Ok::<Seq<char>, Seq<char>>(p@),
            Err(e) => resolved_read_spec(
                root@,
                match resolved {
                    Ok(f) => Ok::<Seq<char>, Seq<char>>(f@),
                    Err(e) => Err::<Seq<char>, Seq<char>>(e@),
                },
                is_file,
            ) == Err::<Seq<char>, Seq<char>>(e@),
        },
{
    match resolved {
        Err(e) => {
            let msg = concat(&chars_of("failed to resolve file: "), &chars_of(e.as_str()));
            Err(string_of(&msg))
        },
        Ok(file) => {
            if !path_within(file.as_str(), root) {
                Err(string_of(&chars_of("path must stay inside storage directory")))
            } else if !is_file {
                Err(string_of(&chars_of("path must reference a file")))
            } else {
                Ok(file)
            }
        },
    }
}

} // verus!
