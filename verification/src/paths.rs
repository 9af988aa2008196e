//! Path reasoning over plain strings: base names, extensions, ancestry and
//! rebasing. Paths use `/` as the separator.

use vstd::prelude::*;

verus! {

/// Whether the character occurs in the sequence.
pub open spec fn contains_char(s: Seq<char>, c: char) -> bool {
    exists|i: int| 0 <= i < s.len() && s[i] == c
}

/// The characters after the last occurrence of `c`; the whole sequence when
/// `c` does not occur.
pub open spec fn after_last(s: Seq<char>, c: char) -> Seq<char>
    decreases s.len(),
{
    if s.len() == 0 {
        s
    } else if s.last() == c {
        Seq::<char>::empty()
    } else {
        after_last(s.drop_last(), c).push(s.last())
    }
}

proof fn lemma_after_last_found(s: Seq<char>, c: char, k: int)
    requires
        0 <= k < s.len(),
        s[k] == c,
        forall|j: int| k < j < s.len() ==> s[j] != c,
    ensures
        after_last(s, c) == s.skip(k + 1),
    decreases s.len(),
{
    if k == s.len() - 1 {
        assert(s.last() == c);
        assert(s.skip(k + 1) =~= Seq::<char>::empty());
    } else {
        assert(s.last() != c);
        let d = s.drop_last();
        assert(d[k] == c);
        assert(forall|j: int| k < j < d.len() ==> d[j] != c) by {
            assert(forall|j: int| 0 <= j < d.len() ==> d[j] == #[trigger] s[j]);
        }
        lemma_after_last_found(d, c, k);
        assert(d.skip(k + 1).push(s.last()) =~= s.skip(k + 1));
    }
}

proof fn lemma_after_last_absent(s: Seq<char>, c: char)
    requires
        forall|j: int| 0 <= j < s.len() ==> s[j] != c,
    ensures
        after_last(s, c) == s,
    decreases s.len(),
{
    if s.len() > 0 {
        let d = s.drop_last();
        assert(forall|j: int| 0 <= j < d.len() ==> d[j] != c) by {
            assert(forall|j: int| 0 <= j < d.len() ==> d[j] == #[trigger] s[j]);
        }
        lemma_after_last_absent(d, c);
        assert(d.push(s.last()) =~= s);
    }
}

/// What follows the last occurrence of a character is never longer than
/// the sequence.
pub proof fn lemma_after_last_len(s: Seq<char>, c: char)
    ensures
        after_last(s, c).len() <= s.len(),
    decreases s.len(),
{
    if s.len() > 0 && s.last() != c {
        lemma_after_last_len(s.drop_last(), c);
    }
}

/// Index of the last occurrence of `c` in `s`.
pub fn find_last(s: &str, c: char) -> (r: Option<usize>)
    ensures
        r is Some ==> {
            &&& r.unwrap() < s@.len()
            &&& s@[r.unwrap() as int] == c
            &&& forall|j: int| r.unwrap() < j < s@.len() ==> s@[j] != c
        },
        r is None ==> forall|j: int| 0 <= j < s@.len() ==> s@[j] != c,
{
    let len = s.unicode_len();
    let mut i: usize = len;
    while i > 0
        invariant
            len == s@.len(),
            i <= len,
            forall|j: int| i <= j < len ==> s@[j] != c,
        decreases i,
    {
        i = i - 1;
        if s.get_char(i) == c {
            return Some(i);
        }
    }
    None
}

/// The base name of a path: what follows the last separator.
pub open spec fn basename_of(s: Seq<char>) -> Seq<char> {
    after_last(s, '/')
}

/// Returns the base name of a path.
pub fn basename(s: &str) -> (r: String)
    ensures
        r@ == basename_of(s@),
{
    let len = s.unicode_len();
    match find_last(s, '/') {
        Some(k) => {
            proof {
                lemma_after_last_found(s@, '/', k as int);
            }
            let sub = s.substring_char(k + 1, len);
            String::from_str(sub)
        },
        None => {
            proof {
                lemma_after_last_absent(s@, '/');
            }
            String::from_str(s)
        },
    }
}

/// The extension of a file name: what follows the last dot, provided a dot
/// occurs past the first character. A name whose only dot leads it has no
/// extension.
pub open spec fn extension_of(name: Seq<char>) -> Option<Seq<char>> {
    if exists|i: int| 1 <= i < name.len() && name[i] == '.' {
        Some(after_last(name, '.'))
    } else {
        None
    }
}

/// Returns the extension of a file name.
pub fn extension(name: &str) -> (r: Option<String>)
    ensures
        r is Some <==> extension_of(name@) is Some,
        r is Some ==> extension_of(name@) == Some(r.unwrap()@),
{
    let len = name.unicode_len();
    match find_last(name, '.') {
        Some(k) => {
            if k == 0 {
                proof {
                    assert(forall|i: int| 1 <= i < name@.len() ==> name@[i] != '.');
                }
                None
            } else {
                proof {
                    lemma_after_last_found(name@, '.', k as int);
                }
                let sub = name.substring_char(k + 1, len);
                Some(String::from_str(sub))
            }
        },
        None => None,
    }
}

/// Whether `child` lies strictly below `parent` in the tree: `parent` is a
/// proper prefix ending at a separator boundary.
pub open spec fn is_strict_descendant(child: Seq<char>, parent: Seq<char>) -> bool {
    &&& parent.len() < child.len()
    &&& child.take(parent.len() as int) == parent
    &&& (child[parent.len() as int] == '/' || (parent.len() > 0 && parent.last() == '/'))
}

/// Tests whether `child` lies strictly below `parent`.
pub fn strict_descendant(child: &str, parent: &str) -> (r: bool)
    ensures
        r == is_strict_descendant(child@, parent@),
{
    let clen = child.unicode_len();
    let plen = parent.unicode_len();
    if plen >= clen {
        return false;
    }
    let mut i: usize = 0;
    while i < plen
        invariant
            clen == child@.len(),
            plen == parent@.len(),
            plen < clen,
            i <= plen,
            forall|j: int| 0 <= j < i ==> child@[j] == parent@[j],
        decreases plen - i,
    {
        if child.get_char(i) != parent.get_char(i) {
            proof {
                assert(child@.take(plen as int)[i as int] == child@[i as int]);
            }
            return false;
        }
        i = i + 1;
    }
    proof {
        assert(child@.take(plen as int) =~= parent@);
    }
    if child.get_char(plen) == '/' {
        return true;
    }
    if plen > 0 && parent.get_char(plen - 1) == '/' {
        return true;
    }
    proof {
        assert(child@.take(plen as int) == parent@);
    }
    false
}

/// The path of `rel` under `base`; `base` itself when `rel` is the
/// current-directory sentinel.
pub open spec fn join_of(base: Seq<char>, rel: Seq<char>) -> Seq<char> {
    if rel == "."@ {
        base
    } else {
        base + seq!['/'] + rel
    }
}

/// Joins a relative path onto a base path.
pub fn join_path(base: &str, rel: &str) -> (r: String)
    ensures
        r@ == join_of(base@, rel@),
{
    if crate::text::str_eq(rel, ".") {
        String::from_str(base)
    } else {
        let mut out = String::from_str(base);
        out.push('/');
        out.append(rel);
        proof {
            assert(out@ =~= base@ + seq!['/'] + rel@);
        }
        out
    }
}

/// A path rewritten relative to a base: the sentinel `.` for the base
/// itself, the suffix for a strict descendant, and the path unchanged
/// otherwise. A descendant whose suffix is empty — the base followed by
/// nothing but a separator — also becomes the sentinel, never an empty
/// string.
pub open spec fn rel_of(path: Seq<char>, base: Seq<char>) -> Seq<char> {
    if path == base {
        "."@
    } else if is_strict_descendant(path, base) {
        let suffix = if path[base.len() as int] == '/' {
            path.skip(base.len() as int + 1)
        } else {
            path.skip(base.len() as int)
        };
        if suffix.len() == 0 {
            "."@
        } else {
            suffix
        }
    } else {
        path
    }
}

/// Rewrites a path relative to a base path.
pub fn rel_path(path: &str, base: &str) -> (r: String)
    ensures
        r@ == rel_of(path@, base@),
{
    if crate::text::str_eq(path, base) {
        String::from_str(".")
    } else if strict_descendant(path, base) {
        let plen = path.unicode_len();
        let blen = base.unicode_len();
        let suffix = if path.get_char(blen) == '/' {
            path.substring_char(blen + 1, plen)
        } else {
            path.substring_char(blen, plen)
        };
        if suffix.unicode_len() == 0 {
            String::from_str(".")
        } else {
            String::from_str(suffix)
        }
    } else {
        String::from_str(path)
    }
}

/// Whether a name denotes a hidden entry: it starts with a dot and is not
/// the current-directory marker.
pub open spec fn is_hidden_name(s: Seq<char>) -> bool {
    s.len() > 0 && s[0] == '.' && s != "."@
}

/// Tests whether a name denotes a hidden entry.
pub fn hidden_name(s: &str) -> (r: bool)
    ensures
        r == is_hidden_name(s@),
{
    let len = s.unicode_len();
    if len == 0 {
        return false;
    }
    if s.get_char(0) != '.' {
        return false;
    }
    !crate::text::str_eq(s, ".")
}

/// Rebasing never yields an empty path: the sentinel stands in for the
/// base and for an empty suffix, and a path not under the base is kept.
pub proof fn lemma_rel_of_nonempty(path: Seq<char>, base: Seq<char>)
    requires
        path.len() > 0,
    ensures
        rel_of(path, base).len() > 0,
{
    reveal_strlit(".");
    assert("."@.len() == 1);
}

/// Rebasing preserves ancestry: for paths at or below a base path written
/// without a trailing separator, a strict descendant in rebased form is a
/// strict descendant in absolute form.
pub proof fn lemma_rel_preserves_descent(p: Seq<char>, q: Seq<char>, base: Seq<char>)
    requires
        base.len() == 0 || base.last() != '/',
        p == base || is_strict_descendant(p, base),
        q == base || is_strict_descendant(q, base),
        is_strict_descendant(rel_of(p, base), rel_of(q, base)),
    ensures
        is_strict_descendant(p, q),
{
    let lb = base.len() as int;
    if p == base {
        // rel p is the one-character sentinel; it cannot lie strictly
        // below anything of equal or greater length unless q's relative
        // form is empty, and then the boundary check fails.
        let rp = rel_of(p, base);
        let rq = rel_of(q, base);
        reveal_strlit(".");
        assert(rp.len() == 1);
        assert(rq.len() < 1);
        assert(rp[rq.len() as int] == '.');
        assert(!(rq.len() > 0 && rq.last() == '/'));
        assert(false);
    } else if q == base {
        assert(is_strict_descendant(p, base));
    } else {
        assert(p[lb] == '/');
        assert(q[lb] == '/');
        let sp = p.skip(lb + 1);
        let sq = q.skip(lb + 1);
        reveal_strlit(".");
        assert("."@.len() == 1);
        if sp.len() == 0 {
            // p's relative form is the sentinel, one character long; q's
            // relative form is never shorter, so nothing lies strictly
            // below it at p's length.
            assert(rel_of(p, base) == "."@);
            assert(rel_of(q, base).len() >= 1);
            assert(rel_of(q, base).len() < rel_of(p, base).len());
            assert(false);
        } else if sq.len() == 0 {
            // q is the base followed by a bare separator: everything
            // strictly below the base and longer than q lies below q.
            assert(q.len() == lb + 1);
            assert(p.len() > q.len());
            assert forall|i: int| 0 <= i < q.len() implies p[i] == q[i] by {
                if i < lb {
                    assert(p.take(lb)[i] == p[i]);
                    assert(q.take(lb)[i] == q[i]);
                }
            }
            assert(p.take(q.len() as int) =~= q);
            assert(q.last() == '/');
        } else {
            let rp = sp;
            let rq = sq;
            assert(rel_of(p, base) == rp);
            assert(rel_of(q, base) == rq);
            assert(q.len() < p.len());
            assert forall|i: int| 0 <= i < q.len() implies p[i] == q[i] by {
                if i < lb {
                    assert(p.take(lb)[i] == p[i]);
                    assert(q.take(lb)[i] == q[i]);
                } else if i > lb {
                    assert(rp[i - (lb + 1)] == p[i]);
                    assert(rq[i - (lb + 1)] == q[i]);
                    assert(rp.take(rq.len() as int)[i - (lb + 1)] == rp[i - (lb + 1)]);
                }
            }
            assert(p.take(q.len() as int) =~= q);
            if rp[rq.len() as int] == '/' {
                assert(p[q.len() as int] == rp[rq.len() as int]);
            } else {
                assert(rq.len() > 0 && rq.last() == '/');
                assert(q.last() == rq.last());
            }
        }
    }
}

} // verus!
