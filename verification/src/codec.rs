//! Plan-document text format: a line-oriented rendering of cleanup plans
//! and transaction logs that round-trips losslessly through
//! serialize-then-deserialize.
//!
//! Each field stands on one line as `key value`, with backslash, newline and
//! carriage return escaped in string payloads, so a payload never spans
//! lines. Lists are written as a count line followed by the records.

use vstd::prelude::*;
use crate::text::{dec_of, lemma_parse_dec_round_trip, parse_u64, spec_parse_u64, u64_to_dec};

verus! {

// ---------------------------------------------------------------------------
// Escaping
// ---------------------------------------------------------------------------

/// The escaped form of one character.
pub open spec fn esc_char(c: char) -> Seq<char> {
    if c == '\\' {
        seq!['\\', '\\']
    } else if c == '\n' {
        seq!['\\', 'n']
    } else if c == '\r' {
        seq!['\\', 'r']
    } else {
        seq![c]
    }
}

/// The escaped form of a string payload.
pub open spec fn spec_escape(s: Seq<char>) -> Seq<char>
    decreases s.len(),
{
    if s.len() == 0 {
        Seq::<char>::empty()
    } else {
        esc_char(s[0]) + spec_escape(s.skip(1))
    }
}

/// What unescaping a payload yields; `None` on a dangling or unknown escape.
pub open spec fn spec_unescape(s: Seq<char>) -> Option<Seq<char>>
    decreases s.len(),
{
    if s.len() == 0 {
        Some(Seq::<char>::empty())
    } else if s[0] == '\\' {
        if s.len() >= 2 && (s[1] == '\\' || s[1] == 'n' || s[1] == 'r') {
            let c = if s[1] == '\\' { '\\' } else if s[1] == 'n' { '\n' } else { '\r' };
            match spec_unescape(s.skip(2)) {
                Some(t) => Some(seq![c] + t),
                None => None,
            }
        } else {
            None
        }
    } else {
        match spec_unescape(s.skip(1)) {
            Some(t) => Some(seq![s[0]] + t),
            None => None,
        }
    }
}

/// No character of an escaped payload is a newline or carriage return.
pub proof fn lemma_escape_no_newline(s: Seq<char>)
    ensures
        forall|i: int| 0 <= i < spec_escape(s).len() ==> #[trigger] spec_escape(s)[i] != '\n',
    decreases s.len(),
{
    if s.len() > 0 {
        lemma_escape_no_newline(s.skip(1));
        assert(forall|i: int|
            0 <= i < spec_escape(s).len() ==> #[trigger] spec_escape(s)[i] != '\n') by {
            let e = esc_char(s[0]);
            assert(forall|i: int| 0 <= i < e.len() ==> #[trigger] e[i] != '\n');
            assert(forall|i: int|
                e.len() <= i < spec_escape(s).len()
                    ==> #[trigger] spec_escape(s)[i] == spec_escape(s.skip(1))[i - e.len()]);
        }
    }
}

/// Unescaping an escaped payload yields the original payload.
pub proof fn lemma_escape_round_trip(s: Seq<char>)
    ensures
        spec_unescape(spec_escape(s)) == Some(s),
    decreases s.len(),
{
    if s.len() == 0 {
    } else {
        lemma_escape_round_trip(s.skip(1));
        let e = esc_char(s[0]);
        let whole = spec_escape(s);
        assert(whole == e + spec_escape(s.skip(1)));
        if s[0] == '\\' || s[0] == '\n' || s[0] == '\r' {
            assert(e.len() == 2);
            assert(whole[0] == '\\');
            assert(whole.skip(2) =~= spec_escape(s.skip(1)));
            assert(spec_unescape(whole) == Some(seq![s[0]] + s.skip(1)));
        } else {
            assert(e.len() == 1);
            assert(whole[0] == s[0]);
            assert(whole[0] != '\\');
            assert(whole.skip(1) =~= spec_escape(s.skip(1)));
            assert(spec_unescape(whole) == Some(seq![s[0]] + s.skip(1)));
        }
        assert(seq![s[0]] + s.skip(1) =~= s);
    }
}

/// Escapes a string payload.
pub fn escape(s: &str) -> (r: String)
    ensures
        r@ == spec_escape(s@),
{
    let len = s.unicode_len();
    let mut out = String::new();
    let mut i: usize = 0;
    proof {
        assert(s@.skip(0) =~= s@);
        assert(Seq::<char>::empty() + spec_escape(s@) =~= spec_escape(s@));
    }
    while i < len
        invariant
            len == s@.len(),
            i <= len,
            spec_escape(s@) == out@ + spec_escape(s@.skip(i as int)),
        decreases len - i,
    {
        let c = s.get_char(i);
        proof {
            let suf = s@.skip(i as int);
            assert(suf.len() > 0);
            assert(suf[0] == s@[i as int]);
            assert(suf.skip(1) =~= s@.skip(i + 1 as int));
            assert(spec_escape(suf) == esc_char(s@[i as int]) + spec_escape(s@.skip(i + 1 as int)));
        }
        if c == '\\' {
            out.push('\\');
            out.push('\\');
        } else if c == '\n' {
            out.push('\\');
            out.push('n');
        } else if c == '\r' {
            out.push('\\');
            out.push('r');
        } else {
            out.push(c);
        }
        proof {
            assert(spec_escape(s@) =~= out@ + spec_escape(s@.skip(i + 1 as int)));
        }
        i = i + 1;
    }
    proof {
        assert(s@.skip(len as int) =~= Seq::<char>::empty());
        assert(out@ =~= spec_escape(s@));
    }
    out
}

/// Unescapes a string payload.
pub fn unescape(s: &str) -> (r: Option<String>)
    ensures
        r is Some <==> spec_unescape(s@) is Some,
        r is Some ==> spec_unescape(s@) == Some(r.unwrap()@),
{
    let len = s.unicode_len();
    let mut out = String::new();
    let mut i: usize = 0;
    proof {
        assert(s@.skip(0) =~= s@);
        if spec_unescape(s@) is Some {
            assert(Seq::<char>::empty() + spec_unescape(s@).unwrap() =~= spec_unescape(s@).unwrap());
        }
    }
    while i < len
        invariant
            len == s@.len(),
            i <= len,
            spec_unescape(s@) is Some <==> spec_unescape(s@.skip(i as int)) is Some,
            spec_unescape(s@.skip(i as int)) is Some
                ==> spec_unescape(s@) == Some(out@ + spec_unescape(s@.skip(i as int)).unwrap()),
        decreases len - i,
    {
        let c = s.get_char(i);
        let ghost suf = s@.skip(i as int);
        proof {
            assert(suf.len() > 0);
            assert(suf[0] == s@[i as int]);
        }
        if c == '\\' {
            if i + 1 >= len {
                proof {
                    assert(suf.len() == 1);
                    assert(spec_unescape(suf) is None);
                }
                return None;
            }
            let n = s.get_char(i + 1);
            let ghost out0 = out@;
            proof {
                assert(suf[1] == s@[i + 1 as int]);
                assert(suf.skip(2) =~= s@.skip(i + 2 as int));
            }
            if n == '\\' {
                out.push('\\');
            } else if n == 'n' {
                out.push('\n');
            } else if n == 'r' {
                out.push('\r');
            } else {
                proof {
                    assert(spec_unescape(suf) is None);
                }
                return None;
            }
            proof {
                let m = if suf[1] == '\\' { '\\' } else if suf[1] == 'n' { '\n' } else { '\r' };
                assert(out@ == out0.push(m));
                if spec_unescape(s@.skip(i + 2 as int)) is Some {
                    let t = spec_unescape(s@.skip(i + 2 as int)).unwrap();
                    assert(spec_unescape(suf) == Some(seq![m] + t));
                    assert(out0 + (seq![m] + t) =~= out@ + t);
                } else {
                    assert(spec_unescape(suf) is None);
                }
            }
            i = i + 2;
        } else {
            let ghost out0 = out@;
            out.push(c);
            proof {
                assert(suf.skip(1) =~= s@.skip(i + 1 as int));
                if spec_unescape(s@.skip(i + 1 as int)) is Some {
                    let t = spec_unescape(s@.skip(i + 1 as int)).unwrap();
                    assert(spec_unescape(suf) == Some(seq![suf[0]] + t));
                    assert(out0 + (seq![suf[0]] + t) =~= out@ + t);
                } else {
                    assert(spec_unescape(suf) is None);
                }
            }
            i = i + 1;
        }
    }
    proof {
        assert(s@.skip(len as int) =~= Seq::<char>::empty());
        assert(spec_unescape(s@) == Some(out@ + Seq::<char>::empty()));
        assert(out@ + Seq::<char>::empty() =~= out@);
    }
    Some(out)
}

// ---------------------------------------------------------------------------
// Lines
// ---------------------------------------------------------------------------

/// Reading one line at `pos`: the characters before the next newline, and
/// the position just after that newline. `None` when no newline remains.
pub open spec fn spec_read_line(s: Seq<char>, pos: int) -> Option<(Seq<char>, int)>
    decreases s.len() - pos,
{
    if pos < 0 || pos >= s.len() {
        None
    } else if s[pos] == '\n' {
        Some((Seq::<char>::empty(), pos + 1))
    } else {
        match spec_read_line(s, pos + 1) {
            Some((l, p)) => Some((seq![s[pos]] + l, p)),
            None => None,
        }
    }
}

/// Reading a line recovers exactly a newline-free prefix laid down before a
/// newline.
pub proof fn lemma_read_line_of(s: Seq<char>, pos: int, l: Seq<char>)
    requires
        0 <= pos,
        pos + l.len() + 1 <= s.len(),
        forall|i: int| 0 <= i < l.len() ==> s[pos + i] == #[trigger] l[i],
        s[pos + l.len()] == '\n',
        forall|i: int| 0 <= i < l.len() ==> #[trigger] l[i] != '\n',
    ensures
        spec_read_line(s, pos) == Some((l, pos + l.len() + 1)),
    decreases l.len(),
{
    if l.len() == 0 {
        assert(s[pos] == '\n');
    } else {
        assert(s[pos] == l[0]);
        assert(s[pos] != '\n');
        let l2 = l.skip(1);
        assert(forall|i: int| 0 <= i < l2.len() ==> s[pos + 1 + i] == #[trigger] l2[i]) by {
            assert(forall|i: int| 0 <= i < l2.len() ==> #[trigger] l2[i] == l[i + 1]);
        }
        assert(s[pos + 1 + l2.len()] == '\n');
        lemma_read_line_of(s, pos + 1, l2);
        assert(seq![s[pos]] + l2 =~= l);
    }
}

/// Reads one line starting at `pos`.
pub fn read_line(s: &str, pos: usize) -> (r: Option<(String, usize)>)
    requires
        pos <= s@.len(),
    ensures
        r is Some <==> spec_read_line(s@, pos as int) is Some,
        r is Some ==> {
            &&& spec_read_line(s@, pos as int) == Some((r.unwrap().0@, r.unwrap().1 as int))
            &&& pos < r.unwrap().1 <= s@.len()
        },
{
    let len = s.unicode_len();
    let mut out = String::new();
    let mut j: usize = pos;
    while j < len
        invariant
            len == s@.len(),
            pos <= j <= len,
            forall|i: int| 0 <= i < out@.len() ==> #[trigger] out@[i] != '\n',
            spec_read_line(s@, pos as int) is Some <==> spec_read_line(s@, j as int) is Some,
            forall|l: Seq<char>, p: int|
                spec_read_line(s@, j as int) == Some((l, p))
                    ==> spec_read_line(s@, pos as int) == Some((out@ + l, p)),
        decreases len - j,
    {
        let c = s.get_char(j);
        if c == '\n' {
            proof {
                assert(spec_read_line(s@, j as int) == Some((Seq::<char>::empty(), j + 1 as int)));
                assert(out@ + Seq::<char>::empty() =~= out@);
            }
            return Some((out, j + 1));
        }
        let ghost out0 = out@;
        out.push(c);
        proof {
            if spec_read_line(s@, j + 1 as int) is Some {
                let (l, p) = spec_read_line(s@, j + 1 as int).unwrap();
                assert(spec_read_line(s@, j as int) == Some((seq![s@[j as int]] + l, p)));
                assert(out0 + (seq![s@[j as int]] + l) =~= out@ + l);
            } else {
                assert(spec_read_line(s@, j as int) is None);
            }
        }
        j = j + 1;
    }
    proof {
        assert(spec_read_line(s@, j as int) is None);
    }
    None
}

// ---------------------------------------------------------------------------
// Fields
// ---------------------------------------------------------------------------

/// One `key value` line, newline-terminated.
pub open spec fn spec_line(key: Seq<char>, payload: Seq<char>) -> Seq<char> {
    key + seq![' '] + payload + seq!['\n']
}

/// Appends a `key value` line to the output.
pub fn put_line(out: &mut String, key: &str, payload: &str)
    ensures
        final(out)@ == old(out)@ + spec_line(key@, payload@),
{
    out.append(key);
    out.push(' ');
    out.append(payload);
    out.push('\n');
    proof {
        assert(out@ =~= old(out)@ + spec_line(key@, payload@));
    }
}

/// The payload of a line beginning with `key` and one space; `None` when
/// the line does not carry that key.
pub open spec fn spec_strip_key(line: Seq<char>, key: Seq<char>) -> Option<Seq<char>> {
    let pref = key + seq![' '];
    if line.len() >= pref.len() && line.take(pref.len() as int) == pref {
        Some(line.skip(pref.len() as int))
    } else {
        None
    }
}

/// Splits a line into its key's payload.
pub fn strip_key(line: &str, key: &str) -> (r: Option<String>)
    ensures
        r is Some <==> spec_strip_key(line@, key@) is Some,
        r is Some ==> spec_strip_key(line@, key@) == Some(r.unwrap()@),
{
    let llen = line.unicode_len();
    let klen = key.unicode_len();
    let ghost pref = key@ + seq![' '];
    if llen <= klen {
        return None;
    }
    let mut i: usize = 0;
    while i < klen
        invariant
            llen == line@.len(),
            klen == key@.len(),
            klen + 1 <= llen,
            i <= klen,
            forall|j: int| 0 <= j < i ==> line@[j] == key@[j],
        decreases klen - i,
    {
        if line.get_char(i) != key.get_char(i) {
            proof {
                assert((key@ + seq![' '])[i as int] == key@[i as int]);
                if spec_strip_key(line@, key@) is Some {
                    assert(line@.take(pref.len() as int)[i as int] == line@[i as int]);
                }
            }
            return None;
        }
        i = i + 1;
    }
    if line.get_char(klen) != ' ' {
        proof {
            assert((key@ + seq![' '])[klen as int] == ' ');
            if spec_strip_key(line@, key@) is Some {
                assert(line@.take(pref.len() as int)[klen as int] == line@[klen as int]);
            }
        }
        return None;
    }
    let payload = line.substring_char(klen + 1, llen);
    let r = String::from_str(payload);
    proof {
        assert(line@.take(pref.len() as int) =~= pref);
        assert(line@.skip(pref.len() as int) =~= r@);
    }
    Some(r)
}

/// Reading a field: one line whose key matches, yielding the raw payload.
pub open spec fn spec_read_field(s: Seq<char>, pos: int, key: Seq<char>) -> Option<(Seq<char>, int)> {
    match spec_read_line(s, pos) {
        Some((line, p)) => match spec_strip_key(line, key) {
            Some(v) => Some((v, p)),
            None => None,
        },
        None => None,
    }
}

/// Reads a raw field at `pos`.
pub fn read_field(s: &str, pos: usize, key: &str) -> (r: Option<(String, usize)>)
    requires
        pos <= s@.len(),
    ensures
        r is Some <==> spec_read_field(s@, pos as int, key@) is Some,
        r is Some ==> {
            &&& spec_read_field(s@, pos as int, key@) == Some((r.unwrap().0@, r.unwrap().1 as int))
            &&& pos < r.unwrap().1 <= s@.len()
        },
{
    match read_line(s, pos) {
        Some((line, p)) => match strip_key(line.as_str(), key) {
            Some(v) => Some((v, p)),
            None => None,
        },
        None => None,
    }
}

/// Reading a field of an encoding recovers its payload: if the input from
/// `pos` on is `key payload` then the rest, the field parse yields exactly
/// the payload and stops at the rest.
pub proof fn lemma_read_field_of(s: Seq<char>, pos: int, key: Seq<char>, payload: Seq<char>, rest: Seq<char>)
    requires
        0 <= pos <= s.len(),
        s.skip(pos) == spec_line(key, payload) + rest,
        forall|i: int| 0 <= i < key.len() ==> #[trigger] key[i] != '\n',
        forall|i: int| 0 <= i < payload.len() ==> #[trigger] payload[i] != '\n',
    ensures
        spec_read_field(s, pos, key) == Some((payload, pos + key.len() + 1 + payload.len() + 1)),
        pos + key.len() + 1 + payload.len() + 1 + rest.len() == s.len(),
{
    let l = key + seq![' '] + payload;
    assert(s.skip(pos).len() == s.len() - pos);
    assert(forall|i: int| 0 <= i < s.len() - pos ==> #[trigger] s.skip(pos)[i] == s[pos + i]);
    assert(forall|i: int| 0 <= i < l.len() ==> s[pos + i] == #[trigger] l[i]) by {
        assert(forall|i: int| 0 <= i < l.len() ==> (spec_line(key, payload) + rest)[i] == #[trigger] l[i]);
    }
    assert(s[pos + l.len()] == '\n') by {
        assert((spec_line(key, payload) + rest)[l.len() as int] == '\n');
    }
    assert(forall|i: int| 0 <= i < l.len() ==> #[trigger] l[i] != '\n') by {
        assert(forall|i: int| 0 <= i < key.len() ==> #[trigger] l[i] == key[i]);
        assert(l[key.len() as int] == ' ');
        assert(forall|i: int| key.len() + 1 <= i < l.len() ==> #[trigger] l[i] == payload[i - key.len() - 1]);
    }
    lemma_read_line_of(s, pos, l);
    let pref = key + seq![' '];
    assert(l.take(pref.len() as int) =~= pref);
    assert(l.skip(pref.len() as int) =~= payload);
    assert(spec_strip_key(l, key) == Some(payload));
}

// ---------------------------------------------------------------------------
// Shared payload facts
// ---------------------------------------------------------------------------

/// Advancing a cursor past a known leading chunk.
pub proof fn lemma_skip_concat(s: Seq<char>, pos: int, a: Seq<char>, b: Seq<char>)
    requires
        0 <= pos <= s.len(),
        s.skip(pos) == a + b,
    ensures
        pos + a.len() <= s.len(),
        s.skip(pos + a.len()) == b,
{
    assert(s.skip(pos).len() == s.len() - pos);
    assert forall|i: int| 0 <= i < b.len() implies s.skip(pos + a.len() as int)[i] == b[i] by {
        assert((a + b)[a.len() + i] == b[i]);
        assert(s.skip(pos)[a.len() + i] == s[pos + a.len() + i]);
        assert(s.skip(pos + a.len() as int)[i] == s[pos + a.len() + i]);
    }
    assert(s.skip(pos + a.len() as int) =~= b);
}

/// No decimal rendering contains a newline.
pub proof fn lemma_dec_no_newline(n: int)
    requires
        n >= 0,
    ensures
        forall|i: int| 0 <= i < dec_of(n).len() ==> #[trigger] dec_of(n)[i] != '\n',
{
    crate::text::lemma_dec_of_val(n);
    assert(forall|i: int| 0 <= i < dec_of(n).len() ==> #[trigger] dec_of(n)[i] != '\n') by {
        assert('\n' as int == 10);
        assert(forall|i: int|
            0 <= i < dec_of(n).len() ==> crate::text::is_digit(#[trigger] dec_of(n)[i]));
    }
}

// ---------------------------------------------------------------------------
// Actions
// ---------------------------------------------------------------------------

/// The plan-file name of an action.
pub open spec fn action_name(a: crate::models::CleanupAction) -> Seq<char> {
    match a {
        crate::models::CleanupAction::Delete => "delete"@,
        crate::models::CleanupAction::Keep => "keep"@,
        crate::models::CleanupAction::Review => "review"@,
    }
}

/// The action a plan-file name denotes.
pub open spec fn spec_action_of(v: Seq<char>) -> Option<crate::models::CleanupAction> {
    if v == "delete"@ {
        Some(crate::models::CleanupAction::Delete)
    } else if v == "keep"@ {
        Some(crate::models::CleanupAction::Keep)
    } else if v == "review"@ {
        Some(crate::models::CleanupAction::Review)
    } else {
        None
    }
}

/// Action names parse back to their action and contain no newline.
pub proof fn lemma_action_round_trip(a: crate::models::CleanupAction)
    ensures
        spec_action_of(action_name(a)) == Some(a),
        forall|i: int| 0 <= i < action_name(a).len() ==> #[trigger] action_name(a)[i] != '\n',
{
    reveal_strlit("delete");
    reveal_strlit("keep");
    reveal_strlit("review");
    assert("keep"@ != "delete"@) by {
        assert("keep"@.len() == 4);
        assert("delete"@.len() == 6);
    }
    assert("review"@ != "delete"@) by {
        assert("review"@[0] == 'r');
        assert("delete"@[0] == 'd');
    }
    match a {
        crate::models::CleanupAction::Delete => {
            assert(forall|i: int|
                0 <= i < "delete"@.len() ==> #[trigger] "delete"@[i] != '\n') by {
                assert("delete"@[0] != '\n');
                assert("delete"@[1] != '\n');
                assert("delete"@[2] != '\n');
                assert("delete"@[3] != '\n');
                assert("delete"@[4] != '\n');
                assert("delete"@[5] != '\n');
            }
        },
        crate::models::CleanupAction::Keep => {
            assert(forall|i: int| 0 <= i < "keep"@.len() ==> #[trigger] "keep"@[i] != '\n') by {
                assert("keep"@[0] != '\n');
                assert("keep"@[1] != '\n');
                assert("keep"@[2] != '\n');
                assert("keep"@[3] != '\n');
            }
        },
        crate::models::CleanupAction::Review => {
            assert(forall|i: int|
                0 <= i < "review"@.len() ==> #[trigger] "review"@[i] != '\n') by {
                assert("review"@[0] != '\n');
                assert("review"@[1] != '\n');
                assert("review"@[2] != '\n');
                assert("review"@[3] != '\n');
                assert("review"@[4] != '\n');
                assert("review"@[5] != '\n');
            }
        },
    }
}

/// Renders an action's plan-file name.
pub fn action_str(a: crate::models::CleanupAction) -> (r: &'static str)
    ensures
        r@ == action_name(a),
{
    match a {
        crate::models::CleanupAction::Delete => "delete",
        crate::models::CleanupAction::Keep => "keep",
        crate::models::CleanupAction::Review => "review",
    }
}

/// Parses an action's plan-file name.
pub fn parse_action(v: &str) -> (r: Option<crate::models::CleanupAction>)
    ensures
        r == spec_action_of(v@),
{
    if crate::text::str_eq(v, "delete") {
        Some(crate::models::CleanupAction::Delete)
    } else if crate::text::str_eq(v, "keep") {
        Some(crate::models::CleanupAction::Keep)
    } else if crate::text::str_eq(v, "review") {
        Some(crate::models::CleanupAction::Review)
    } else {
        None
    }
}

/// The document keys are newline-free.
pub proof fn lemma_keys_no_newline()
    ensures
        forall|i: int| 0 <= i < "version"@.len() ==> #[trigger] "version"@[i] != '\n',
        forall|i: int| 0 <= i < "created_at"@.len() ==> #[trigger] "created_at"@[i] != '\n',
        forall|i: int| 0 <= i < "base_path"@.len() ==> #[trigger] "base_path"@[i] != '\n',
        forall|i: int| 0 <= i < "entries"@.len() ==> #[trigger] "entries"@[i] != '\n',
        forall|i: int| 0 <= i < "path"@.len() ==> #[trigger] "path"@[i] != '\n',
        forall|i: int| 0 <= i < "size"@.len() ==> #[trigger] "size"@[i] != '\n',
        forall|i: int| 0 <= i < "modified"@.len() ==> #[trigger] "modified"@[i] != '\n',
        forall|i: int| 0 <= i < "action"@.len() ==> #[trigger] "action"@[i] != '\n',
        forall|i: int| 0 <= i < "rule_name"@.len() ==> #[trigger] "rule_name"@[i] != '\n',
        forall|i: int| 0 <= i < "reason"@.len() ==> #[trigger] "reason"@[i] != '\n',
{
    reveal_strlit("version");
    reveal_strlit("created_at");
    reveal_strlit("base_path");
    reveal_strlit("entries");
    reveal_strlit("path");
    reveal_strlit("size");
    reveal_strlit("modified");
    reveal_strlit("action");
    reveal_strlit("rule_name");
    reveal_strlit("reason");
}

// ---------------------------------------------------------------------------
// Plan encoding
// ---------------------------------------------------------------------------

/// The rendering of one plan entry: six `key value` lines.
pub open spec fn spec_encode_entry(e: crate::models::CleanupEntryV) -> Seq<char> {
    spec_line("path"@, spec_escape(e.path))
        + spec_line("size"@, dec_of(e.size as int))
        + spec_line("modified"@, spec_escape(e.modified))
        + spec_line("action"@, action_name(e.action))
        + spec_line("rule_name"@, spec_escape(e.rule_name))
        + spec_line("reason"@, spec_escape(e.reason))
}

/// The rendering of a list of plan entries, in order.
pub open spec fn spec_encode_entries(es: Seq<crate::models::CleanupEntryV>) -> Seq<char>
    decreases es.len(),
{
    if es.len() == 0 {
        Seq::<char>::empty()
    } else {
        spec_encode_entry(es[0]) + spec_encode_entries(es.skip(1))
    }
}

/// The rendering of a whole plan: a header of four lines, then the entries.
pub open spec fn spec_encode_plan(p: crate::models::CleanupPlanV) -> Seq<char> {
    spec_line("version"@, spec_escape(p.version))
        + spec_line("created_at"@, spec_escape(p.created_at))
        + spec_line("base_path"@, spec_escape(p.base_path))
        + spec_line("entries"@, dec_of(p.entries.len() as int))
        + spec_encode_entries(p.entries)
}

/// What parsing one entry at `pos` yields.
pub open spec fn spec_parse_entry(s: Seq<char>, pos: int) -> Option<(crate::models::CleanupEntryV, int)> {
    match spec_read_field(s, pos, "path"@) {
        None => None,
        Some((raw_path, p1)) => match spec_unescape(raw_path) {
            None => None,
            Some(path) => match spec_read_field(s, p1, "size"@) {
                None => None,
                Some((raw_size, p2)) => match spec_parse_u64(raw_size) {
                    None => None,
                    Some(size) => match spec_read_field(s, p2, "modified"@) {
                        None => None,
                        Some((raw_mod, p3)) => match spec_unescape(raw_mod) {
                            None => None,
                            Some(modified) => match spec_read_field(s, p3, "action"@) {
                                None => None,
                                Some((raw_act, p4)) => match spec_action_of(raw_act) {
                                    None => None,
                                    Some(action) => match spec_read_field(s, p4, "rule_name"@) {
                                        None => None,
                                        Some((raw_rule, p5)) => match spec_unescape(raw_rule) {
                                            None => None,
                                            Some(rule_name) => match spec_read_field(s, p5, "reason"@) {
                                                None => None,
                                                Some((raw_reason, p6)) => match spec_unescape(raw_reason) {
                                                    None => None,
                                                    Some(reason) => Some((
                                                        crate::models::CleanupEntryV {
                                                            path,
                                                            size,
                                                            modified,
                                                            action,
                                                            rule_name,
                                                            reason,
                                                        },
                                                        p6,
                                                    )),
                                                },
                                            },
                                        },
                                    },
                                },
                            },
                        },
                    },
                },
            },
        },
    }
}

/// What parsing `n` entries in a row at `pos` yields.
pub open spec fn spec_parse_entries(s: Seq<char>, pos: int, n: nat) -> Option<(
    Seq<crate::models::CleanupEntryV>,
    int,
)>
    decreases n,
{
    if n == 0 {
        Some((Seq::<crate::models::CleanupEntryV>::empty(), pos))
    } else {
        match spec_parse_entry(s, pos) {
            None => None,
            Some((e, p)) => match spec_parse_entries(s, p, (n - 1) as nat) {
                None => None,
                Some((es, p2)) => Some((seq![e] + es, p2)),
            },
        }
    }
}

/// What parsing a whole plan document yields. The parse is strict: fields
/// come in a fixed order and the document must be consumed completely.
pub open spec fn spec_parse_plan(s: Seq<char>) -> Option<crate::models::CleanupPlanV> {
    match spec_read_field(s, 0, "version"@) {
        None => None,
        Some((raw_ver, p1)) => match spec_unescape(raw_ver) {
            None => None,
            Some(version) => match spec_read_field(s, p1, "created_at"@) {
                None => None,
                Some((raw_created, p2)) => match spec_unescape(raw_created) {
                    None => None,
                    Some(created_at) => match spec_read_field(s, p2, "base_path"@) {
                        None => None,
                        Some((raw_base, p3)) => match spec_unescape(raw_base) {
                            None => None,
                            Some(base_path) => match spec_read_field(s, p3, "entries"@) {
                                None => None,
                                Some((raw_count, p4)) => match spec_parse_u64(raw_count) {
                                    None => None,
                                    Some(count) => if count <= usize::MAX as u64 {
                                        match spec_parse_entries(s, p4, count as nat) {
                                            None => None,
                                            Some((es, p5)) => if p5 == s.len() {
                                                Some(crate::models::CleanupPlanV {
                                                    version,
                                                    created_at,
                                                    base_path,
                                                    entries: es,
                                                })
                                            } else {
                                                None
                                            },
                                        }
                                    } else {
                                        None
                                    },
                                },
                            },
                        },
                    },
                },
            },
        },
    }
}

/// Parsing an encoded string field yields the string back; the cursor lands
/// on the rest.
pub proof fn lemma_read_str_field_of(
    s: Seq<char>,
    pos: int,
    key: Seq<char>,
    v: Seq<char>,
    rest: Seq<char>,
)
    requires
        0 <= pos <= s.len(),
        s.skip(pos) == spec_line(key, spec_escape(v)) + rest,
        forall|i: int| 0 <= i < key.len() ==> #[trigger] key[i] != '\n',
    ensures
        spec_read_field(s, pos, key) == Some((
            spec_escape(v),
            s.len() - rest.len(),
        )),
        spec_unescape(spec_escape(v)) == Some(v),
        pos <= s.len() - rest.len() <= s.len(),
        s.skip(s.len() - rest.len()) == rest,
{
    lemma_escape_no_newline(v);
    lemma_read_field_of(s, pos, key, spec_escape(v), rest);
    lemma_escape_round_trip(v);
    lemma_skip_concat(s, pos, spec_line(key, spec_escape(v)), rest);
}

/// Parsing an encoded decimal field yields the number back.
pub proof fn lemma_read_u64_field_of(s: Seq<char>, pos: int, key: Seq<char>, n: u64, rest: Seq<char>)
    requires
        0 <= pos <= s.len(),
        s.skip(pos) == spec_line(key, dec_of(n as int)) + rest,
        forall|i: int| 0 <= i < key.len() ==> #[trigger] key[i] != '\n',
    ensures
        spec_read_field(s, pos, key) == Some((dec_of(n as int), s.len() - rest.len())),
        spec_parse_u64(dec_of(n as int)) == Some(n),
        pos <= s.len() - rest.len() <= s.len(),
        s.skip(s.len() - rest.len()) == rest,
{
    lemma_dec_no_newline(n as int);
    lemma_read_field_of(s, pos, key, dec_of(n as int), rest);
    lemma_parse_dec_round_trip(n);
    lemma_skip_concat(s, pos, spec_line(key, dec_of(n as int)), rest);
}

/// Parsing a field with an arbitrary newline-free payload yields the
/// payload back.
pub proof fn lemma_read_plain_field_of(
    s: Seq<char>,
    pos: int,
    key: Seq<char>,
    payload: Seq<char>,
    rest: Seq<char>,
)
    requires
        0 <= pos <= s.len(),
        s.skip(pos) == spec_line(key, payload) + rest,
        forall|i: int| 0 <= i < key.len() ==> #[trigger] key[i] != '\n',
        forall|i: int| 0 <= i < payload.len() ==> #[trigger] payload[i] != '\n',
    ensures
        spec_read_field(s, pos, key) == Some((payload, s.len() - rest.len())),
        pos <= s.len() - rest.len() <= s.len(),
        s.skip(s.len() - rest.len()) == rest,
{
    lemma_read_field_of(s, pos, key, payload, rest);
    lemma_skip_concat(s, pos, spec_line(key, payload), rest);
}

/// Parsing an encoded action field yields the action back.
proof fn lemma_read_action_field_of(
    s: Seq<char>,
    pos: int,
    key: Seq<char>,
    a: crate::models::CleanupAction,
    rest: Seq<char>,
)
    requires
        0 <= pos <= s.len(),
        s.skip(pos) == spec_line(key, action_name(a)) + rest,
        forall|i: int| 0 <= i < key.len() ==> #[trigger] key[i] != '\n',
    ensures
        spec_read_field(s, pos, key) == Some((action_name(a), s.len() - rest.len())),
        spec_action_of(action_name(a)) == Some(a),
        pos <= s.len() - rest.len() <= s.len(),
        s.skip(s.len() - rest.len()) == rest,
{
    lemma_action_round_trip(a);
    lemma_read_field_of(s, pos, key, action_name(a), rest);
    lemma_skip_concat(s, pos, spec_line(key, action_name(a)), rest);
}

/// Parsing the rendering of one entry yields the entry back.
proof fn lemma_parse_entry_of(
    s: Seq<char>,
    pos: int,
    e: crate::models::CleanupEntryV,
    rest: Seq<char>,
)
    requires
        0 <= pos <= s.len(),
        s.skip(pos) == spec_encode_entry(e) + rest,
    ensures
        spec_parse_entry(s, pos) == Some((e, s.len() - rest.len())),
        pos <= s.len() - rest.len() <= s.len(),
        s.skip(s.len() - rest.len()) == rest,
{
    lemma_keys_no_newline();
    let l1 = spec_line("path"@, spec_escape(e.path));
    let l2 = spec_line("size"@, dec_of(e.size as int));
    let l3 = spec_line("modified"@, spec_escape(e.modified));
    let l4 = spec_line("action"@, action_name(e.action));
    let l5 = spec_line("rule_name"@, spec_escape(e.rule_name));
    let l6 = spec_line("reason"@, spec_escape(e.reason));
    assert(s.skip(pos) =~= l1 + (l2 + (l3 + (l4 + (l5 + (l6 + rest))))));
    lemma_read_str_field_of(s, pos, "path"@, e.path, l2 + (l3 + (l4 + (l5 + (l6 + rest)))));
    let p1 = s.len() - (l2 + (l3 + (l4 + (l5 + (l6 + rest))))).len();
    lemma_read_u64_field_of(s, p1, "size"@, e.size, l3 + (l4 + (l5 + (l6 + rest))));
    let p2 = s.len() - (l3 + (l4 + (l5 + (l6 + rest)))).len();
    lemma_read_str_field_of(s, p2, "modified"@, e.modified, l4 + (l5 + (l6 + rest)));
    let p3 = s.len() - (l4 + (l5 + (l6 + rest))).len();
    lemma_read_action_field_of(s, p3, "action"@, e.action, l5 + (l6 + rest));
    let p4 = s.len() - (l5 + (l6 + rest)).len();
    lemma_read_str_field_of(s, p4, "rule_name"@, e.rule_name, l6 + rest);
    let p5 = s.len() - (l6 + rest).len();
    lemma_read_str_field_of(s, p5, "reason"@, e.reason, rest);
}

/// Parsing the rendering of an entry list yields the list back.
proof fn lemma_parse_entries_of(
    s: Seq<char>,
    pos: int,
    es: Seq<crate::models::CleanupEntryV>,
    rest: Seq<char>,
)
    requires
        0 <= pos <= s.len(),
        s.skip(pos) == spec_encode_entries(es) + rest,
    ensures
        spec_parse_entries(s, pos, es.len()) == Some((es, s.len() - rest.len())),
        pos <= s.len() - rest.len() <= s.len(),
        s.skip(s.len() - rest.len()) == rest,
    decreases es.len(),
{
    if es.len() == 0 {
        assert(spec_encode_entries(es) + rest =~= rest);
        assert(s.skip(pos).len() == s.len() - pos);
        assert(spec_parse_entries(s, pos, 0) == Some((
            Seq::<crate::models::CleanupEntryV>::empty(),
            pos,
        )));
        assert(es =~= Seq::<crate::models::CleanupEntryV>::empty());
    } else {
        let tail = spec_encode_entries(es.skip(1)) + rest;
        assert(s.skip(pos) =~= spec_encode_entry(es[0]) + tail);
        lemma_parse_entry_of(s, pos, es[0], tail);
        let p1 = s.len() - tail.len();
        assert(s.skip(p1) =~= spec_encode_entries(es.skip(1)) + rest);
        lemma_parse_entries_of(s, p1, es.skip(1), rest);
        assert(seq![es[0]] + es.skip(1) =~= es);
    }
}

/// Law: serialize-then-deserialize yields a plan equal in all observable
/// fields to the original. For every plan value, parsing its rendering
/// succeeds and gives the plan back.
pub proof fn lemma_plan_round_trip(p: crate::models::CleanupPlanV)
    requires
        p.entries.len() <= usize::MAX,
    ensures
        spec_parse_plan(spec_encode_plan(p)) == Some(p),
{
    lemma_keys_no_newline();
    let s = spec_encode_plan(p);
    let l1 = spec_line("version"@, spec_escape(p.version));
    let l2 = spec_line("created_at"@, spec_escape(p.created_at));
    let l3 = spec_line("base_path"@, spec_escape(p.base_path));
    let l4 = spec_line("entries"@, dec_of(p.entries.len() as int));
    let le = spec_encode_entries(p.entries);
    assert(s.skip(0) =~= l1 + (l2 + (l3 + (l4 + le))));
    lemma_read_str_field_of(s, 0, "version"@, p.version, l2 + (l3 + (l4 + le)));
    let p1 = s.len() - (l2 + (l3 + (l4 + le))).len();
    lemma_read_str_field_of(s, p1, "created_at"@, p.created_at, l3 + (l4 + le));
    let p2 = s.len() - (l3 + (l4 + le)).len();
    lemma_read_str_field_of(s, p2, "base_path"@, p.base_path, l4 + le);
    let p3 = s.len() - (l4 + le).len();
    assert(p.entries.len() <= usize::MAX);
    lemma_read_u64_field_of(s, p3, "entries"@, p.entries.len() as u64, le);
    let p4 = s.len() - le.len();
    assert(s.skip(p4) =~= spec_encode_entries(p.entries) + Seq::<char>::empty());
    lemma_parse_entries_of(s, p4, p.entries, Seq::<char>::empty());
    assert((p.entries.len() as u64) as nat == p.entries.len());
}

/// Appends the rendering of one entry.
fn append_entry(out: &mut String, e: &crate::models::CleanupEntry)
    ensures
        final(out)@ == old(out)@ + spec_encode_entry(e@),
{
    let v1 = escape(e.path.as_str());
    put_line(out, "path", v1.as_str());
    let v2 = u64_to_dec(e.size);
    put_line(out, "size", v2.as_str());
    let v3 = escape(e.modified.as_str());
    put_line(out, "modified", v3.as_str());
    put_line(out, "action", action_str(e.action));
    let v5 = escape(e.rule_name.as_str());
    put_line(out, "rule_name", v5.as_str());
    let v6 = escape(e.reason.as_str());
    put_line(out, "reason", v6.as_str());
    proof {
        assert(out@ =~= old(out)@ + spec_encode_entry(e@));
    }
}

/// Renders a plan as its plan-document text.
pub fn encode_plan(p: &crate::models::CleanupPlan) -> (r: String)
    ensures
        r@ == spec_encode_plan(p@),
{
    let mut out = String::new();
    let v1 = escape(p.version.as_str());
    put_line(&mut out, "version", v1.as_str());
    let v2 = escape(p.created_at.as_str());
    put_line(&mut out, "created_at", v2.as_str());
    let v3 = escape(p.base_path.as_str());
    put_line(&mut out, "base_path", v3.as_str());
    let v4 = u64_to_dec(p.entries.len() as u64);
    put_line(&mut out, "entries", v4.as_str());
    let ghost header = out@;
    let mut i: usize = 0;
    proof {
        assert(p@.entries.skip(0) =~= p@.entries);
    }
    while i < p.entries.len()
        invariant
            i <= p.entries.len(),
            p@.entries.len() == p.entries.len(),
            out@ + spec_encode_entries(p@.entries.skip(i as int)) == header
                + spec_encode_entries(p@.entries),
        decreases p.entries.len() - i,
    {
        proof {
            let suf = p@.entries.skip(i as int);
            assert(suf.len() > 0);
            assert(suf[0] == p@.entries[i as int]);
            assert(suf.skip(1) =~= p@.entries.skip(i + 1 as int));
            assert(p.entries[i as int]@ == p@.entries[i as int]);
        }
        let ghost out0 = out@;
        append_entry(&mut out, &self_entry(p, i));
        proof {
            assert(out0 + (spec_encode_entry(p@.entries[i as int])
                + spec_encode_entries(p@.entries.skip(i + 1 as int)))
                =~= out@ + spec_encode_entries(p@.entries.skip(i + 1 as int)));
        }
        i = i + 1;
    }
    proof {
        assert(p@.entries.skip(p.entries.len() as int) =~= Seq::<crate::models::CleanupEntryV>::empty());
        assert(out@ + Seq::<char>::empty() =~= out@);
        assert(out@ =~= spec_encode_plan(p@));
    }
    out
}

/// Borrows one entry of a plan.
fn self_entry(p: &crate::models::CleanupPlan, i: usize) -> (r: &crate::models::CleanupEntry)
    requires
        i < p.entries.len(),
    ensures
        r@ == p@.entries[i as int],
{
    &p.entries[i]
}

/// Parses one entry at `pos`.
fn parse_entry_at(s: &str, pos: usize) -> (r: Option<(crate::models::CleanupEntry, usize)>)
    requires
        pos <= s@.len(),
    ensures
        r is Some <==> spec_parse_entry(s@, pos as int) is Some,
        r is Some ==> {
            &&& spec_parse_entry(s@, pos as int) == Some((
                r.unwrap().0@,
                r.unwrap().1 as int,
            ))
            &&& pos < r.unwrap().1 <= s@.len()
        },
{
    let f1 = read_field(s, pos, "path");
    match f1 {
        None => None,
        Some((raw_path, p1)) => match unescape(raw_path.as_str()) {
            None => None,
            Some(path) => match read_field(s, p1, "size") {
                None => None,
                Some((raw_size, p2)) => match parse_u64(raw_size.as_str()) {
                    None => None,
                    Some(size) => match read_field(s, p2, "modified") {
                        None => None,
                        Some((raw_mod, p3)) => match unescape(raw_mod.as_str()) {
                            None => None,
                            Some(modified) => match read_field(s, p3, "action") {
                                None => None,
                                Some((raw_act, p4)) => match parse_action(raw_act.as_str()) {
                                    None => None,
                                    Some(action) => match read_field(s, p4, "rule_name") {
                                        None => None,
                                        Some((raw_rule, p5)) => match unescape(raw_rule.as_str()) {
                                            None => None,
                                            Some(rule_name) => match read_field(s, p5, "reason") {
                                                None => None,
                                                Some((raw_reason, p6)) => match unescape(
                                                    raw_reason.as_str(),
                                                ) {
                                                    None => None,
                                                    Some(reason) => Some((
                                                        crate::models::CleanupEntry {
                                                            path,
                                                            size,
                                                            modified,
                                                            action,
                                                            rule_name,
                                                            reason,
                                                        },
                                                        p6,
                                                    )),
                                                },
                                            },
                                        },
                                    },
                                },
                            },
                        },
                    },
                },
            },
        },
    }
}

/// Parses `n` entries in a row at `pos`.
fn parse_entries_at(s: &str, pos: usize, n: usize) -> (r: Option<(
    Vec<crate::models::CleanupEntry>,
    usize,
)>)
    requires
        pos <= s@.len(),
    ensures
        r is Some <==> spec_parse_entries(s@, pos as int, n as nat) is Some,
        r is Some ==> {
            &&& spec_parse_entries(s@, pos as int, n as nat) == Some((
                r.unwrap().0.deep_view(),
                r.unwrap().1 as int,
            ))
            &&& pos <= r.unwrap().1 <= s@.len()
        },
{
    let mut collected: Vec<crate::models::CleanupEntry> = Vec::new();
    let mut cur: usize = pos;
    let mut i: usize = 0;
    proof {
        assert(collected.deep_view() =~= Seq::<crate::models::CleanupEntryV>::empty());
    }
    while i < n
        invariant
            pos <= cur <= s@.len(),
            i <= n,
            spec_parse_entries(s@, pos as int, n as nat) is Some <==> spec_parse_entries(
                s@,
                cur as int,
                (n - i) as nat,
            ) is Some,
            forall|es: Seq<crate::models::CleanupEntryV>, p: int|
                spec_parse_entries(s@, cur as int, (n - i) as nat) == Some((es, p))
                    ==> spec_parse_entries(s@, pos as int, n as nat) == Some((
                    collected.deep_view() + es,
                    p,
                )),
        decreases n - i,
    {
        match parse_entry_at(s, cur) {
            None => {
                proof {
                    assert(spec_parse_entries(s@, cur as int, (n - i) as nat) is None);
                }
                return None;
            },
            Some((e, p)) => {
                let ghost col0 = collected.deep_view();
                let ghost ev = e@;
                collected.push(e);
                proof {
                    assert(collected.deep_view() =~= col0.push(ev));
                    if spec_parse_entries(s@, p as int, (n - i - 1) as nat) is Some {
                        let (es2, p2) = spec_parse_entries(s@, p as int, (n - i - 1) as nat)
                            .unwrap();
                        assert(spec_parse_entries(s@, cur as int, (n - i) as nat) == Some((
                            seq![ev] + es2,
                            p2,
                        )));
                        assert(col0 + (seq![ev] + es2) =~= collected.deep_view() + es2);
                    } else {
                        assert(spec_parse_entries(s@, cur as int, (n - i) as nat) is None);
                    }
                }
                cur = p;
                i = i + 1;
            },
        }
    }
    proof {
        assert(spec_parse_entries(s@, cur as int, 0) == Some((
            Seq::<crate::models::CleanupEntryV>::empty(),
            cur as int,
        )));
        assert(collected.deep_view() + Seq::<crate::models::CleanupEntryV>::empty()
            =~= collected.deep_view());
    }
    Some((collected, cur))
}

/// Parses a plan document. Strict: fields in order, full consumption;
/// `None` exactly when the text is not the rendering the parser accepts.
pub fn parse_plan(s: &str) -> (r: Option<crate::models::CleanupPlan>)
    ensures
        r is Some <==> spec_parse_plan(s@) is Some,
        r is Some ==> spec_parse_plan(s@) == Some(r.unwrap()@),
{
    match read_field(s, 0, "version") {
        None => None,
        Some((raw_ver, p1)) => match unescape(raw_ver.as_str()) {
            None => None,
            Some(version) => match read_field(s, p1, "created_at") {
                None => None,
                Some((raw_created, p2)) => match unescape(raw_created.as_str()) {
                    None => None,
                    Some(created_at) => match read_field(s, p2, "base_path") {
                        None => None,
                        Some((raw_base, p3)) => match unescape(raw_base.as_str()) {
                            None => None,
                            Some(base_path) => match read_field(s, p3, "entries") {
                                None => None,
                                Some((raw_count, p4)) => match parse_u64(raw_count.as_str()) {
                                    None => None,
                                    Some(count) => if count <= usize::MAX as u64 {
                                        match parse_entries_at(s, p4, count as usize) {
                                            None => None,
                                            Some((entries, p5)) => if p5 == s.unicode_len() {
                                                Some(crate::models::CleanupPlan {
                                                    version,
                                                    created_at,
                                                    base_path,
                                                    entries,
                                                })
                                            } else {
                                                None
                                            },
                                        }
                                    } else {
                                        None
                                    },
                                },
                            },
                        },
                    },
                },
            },
        },
    }
}

// ---------------------------------------------------------------------------
// Signed numbers, booleans, optional payloads
// ---------------------------------------------------------------------------

/// The rendering of a signed number.
pub open spec fn spec_enc_int(n: i64) -> Seq<char> {
    if n < 0 {
        seq!['-'] + dec_of(-(n as int))
    } else {
        dec_of(n as int)
    }
}

/// What parsing a signed decimal yields.
pub open spec fn spec_parse_i64(v: Seq<char>) -> Option<i64> {
    if v.len() > 0 && v[0] == '-' {
        match spec_parse_u64(v.skip(1)) {
            Some(m) => if m <= 0x8000_0000_0000_0000u64 {
                Some((-(m as int)) as i64)
            } else {
                None
            },
            None => None,
        }
    } else {
        match spec_parse_u64(v) {
            Some(m) => if m <= i64::MAX as u64 {
                Some(m as i64)
            } else {
                None
            },
            None => None,
        }
    }
}

/// Signed renderings parse back, and contain no newline.
pub proof fn lemma_int_round_trip(n: i64)
    ensures
        spec_parse_i64(spec_enc_int(n)) == Some(n),
        forall|i: int|
            0 <= i < spec_enc_int(n).len() ==> #[trigger] spec_enc_int(n)[i] != '\n',
{
    if n < 0 {
        let mag = -(n as int);
        crate::text::lemma_dec_of_val(mag);
        let v = spec_enc_int(n);
        assert(v[0] == '-');
        assert(v.skip(1) =~= dec_of(mag));
        assert(spec_parse_u64(dec_of(mag)) == Some(mag as u64));
        lemma_dec_no_newline(mag);
        assert(forall|i: int| 0 <= i < v.len() ==> #[trigger] v[i] != '\n') by {
            assert(v[0] != '\n');
            assert(forall|i: int| 1 <= i < v.len() ==> #[trigger] v[i] == dec_of(mag)[i - 1]);
        }
    } else {
        crate::text::lemma_dec_of_val(n as int);
        lemma_dec_no_newline(n as int);
        let v = spec_enc_int(n);
        assert(crate::text::is_digit(v[0]));
        assert(v[0] != '-');
        assert(spec_parse_u64(v) == Some(n as u64));
    }
}

/// Renders a signed number.
pub fn enc_int(n: i64) -> (r: String)
    ensures
        r@ == spec_enc_int(n),
{
    if n < 0 {
        let mag: u64 = ((-(n as i128)) as u64);
        proof {
            assert(1 <= -(n as int) <= i64::MAX as int + 1);
            assert(mag as int == -(n as int));
        }
        let mut out = String::from_str("-");
        let d = u64_to_dec(mag);
        out.append(d.as_str());
        proof {
            reveal_strlit("-");
            assert("-"@ =~= seq!['-']);
            assert(out@ =~= seq!['-'] + dec_of(-(n as int)));
        }
        out
    } else {
        u64_to_dec(n as u64)
    }
}

/// Parses a signed decimal.
pub fn parse_i64(v: &str) -> (r: Option<i64>)
    ensures
        r == spec_parse_i64(v@),
{
    let len = v.unicode_len();
    if len > 0 && v.get_char(0) == '-' {
        let rest = v.substring_char(1, len);
        proof {
            assert(rest@ =~= v@.skip(1));
        }
        match parse_u64(rest) {
            Some(m) => {
                if m <= 0x8000_0000_0000_0000u64 {
                    Some((-(m as i128)) as i64)
                } else {
                    None
                }
            },
            None => None,
        }
    } else {
        match parse_u64(v) {
            Some(m) => {
                if m <= i64::MAX as u64 {
                    Some(m as i64)
                } else {
                    None
                }
            },
            None => None,
        }
    }
}

/// What parsing a boolean payload yields.
pub open spec fn spec_parse_bool(v: Seq<char>) -> Option<bool> {
    if v == "true"@ {
        Some(true)
    } else if v == "false"@ {
        Some(false)
    } else {
        None
    }
}

/// Boolean renderings parse back, and contain no newline.
pub proof fn lemma_bool_round_trip(b: bool)
    ensures
        spec_parse_bool(spec_bool_name(b)) == Some(b),
        forall|i: int|
            0 <= i < spec_bool_name(b).len() ==> #[trigger] spec_bool_name(b)[i] != '\n',
{
    reveal_strlit("true");
    reveal_strlit("false");
    assert("true"@.len() == 4);
    assert("false"@.len() == 5);
    if b {
        assert(forall|i: int| 0 <= i < "true"@.len() ==> #[trigger] "true"@[i] != '\n') by {
            assert("true"@[0] != '\n');
            assert("true"@[1] != '\n');
            assert("true"@[2] != '\n');
            assert("true"@[3] != '\n');
        }
    } else {
        assert("false"@ != "true"@);
        assert(forall|i: int| 0 <= i < "false"@.len() ==> #[trigger] "false"@[i] != '\n') by {
            assert("false"@[0] != '\n');
            assert("false"@[1] != '\n');
            assert("false"@[2] != '\n');
            assert("false"@[3] != '\n');
            assert("false"@[4] != '\n');
        }
    }
}

/// The rendering of a boolean.
pub open spec fn spec_bool_name(b: bool) -> Seq<char> {
    if b {
        "true"@
    } else {
        "false"@
    }
}

/// Parses a boolean payload.
pub fn parse_bool(v: &str) -> (r: Option<bool>)
    ensures
        r == spec_parse_bool(v@),
{
    if crate::text::str_eq(v, "true") {
        Some(true)
    } else if crate::text::str_eq(v, "false") {
        Some(false)
    } else {
        None
    }
}

/// The rendering of an optional payload: `none`, or `some ` then the
/// payload.
pub open spec fn spec_opt_name(p: Option<Seq<char>>) -> Seq<char> {
    match p {
        None => "none"@,
        Some(v) => "some "@ + v,
    }
}

/// What parsing an optional payload yields: the payload under its tag.
pub open spec fn spec_parse_opt(v: Seq<char>) -> Option<Option<Seq<char>>> {
    if v == "none"@ {
        Some(None)
    } else if v.len() >= "some "@.len() && v.take("some "@.len() as int) == "some "@ {
        Some(Some(v.skip("some "@.len() as int)))
    } else {
        None
    }
}

/// Optional renderings parse back; the rendering has a newline exactly
/// where the payload has one.
pub proof fn lemma_opt_round_trip(p: Option<Seq<char>>)
    requires
        p matches Some(v) ==> forall|i: int| 0 <= i < v.len() ==> #[trigger] v[i] != '\n',
    ensures
        spec_parse_opt(spec_opt_name(p)) == Some(p),
        forall|i: int|
            0 <= i < spec_opt_name(p).len() ==> #[trigger] spec_opt_name(p)[i] != '\n',
{
    reveal_strlit("none");
    reveal_strlit("some ");
    assert("none"@.len() == 4);
    assert("some "@.len() == 5);
    match p {
        None => {
            assert(!("none"@.len() >= 5));
            assert(forall|i: int| 0 <= i < "none"@.len() ==> #[trigger] "none"@[i] != '\n') by {
                assert("none"@[0] != '\n');
                assert("none"@[1] != '\n');
                assert("none"@[2] != '\n');
                assert("none"@[3] != '\n');
            }
        },
        Some(v) => {
            let w = "some "@ + v;
            assert(w.len() >= 5);
            assert(w != "none"@);
            assert(w.take(5) =~= "some "@);
            assert(w.skip(5) =~= v);
            assert(forall|i: int| 0 <= i < w.len() ==> #[trigger] w[i] != '\n') by {
                assert("some "@[0] != '\n');
                assert("some "@[1] != '\n');
                assert("some "@[2] != '\n');
                assert("some "@[3] != '\n');
                assert("some "@[4] != '\n');
                assert(forall|i: int| 0 <= i < 5 ==> #[trigger] w[i] == "some "@[i]);
                assert(forall|i: int| 5 <= i < w.len() ==> #[trigger] w[i] == v[i - 5]);
            }
        },
    }
}

/// Parses an optional payload.
pub fn parse_opt(v: &str) -> (r: Option<Option<String>>)
    ensures
        r is Some <==> spec_parse_opt(v@) is Some,
        r is Some ==> (r.unwrap() is Some <==> spec_parse_opt(v@).unwrap() is Some),
        r matches Some(Some(p)) ==> spec_parse_opt(v@) == Some(Some(p@)),
{
    if crate::text::str_eq(v, "none") {
        proof {
            reveal_strlit("none");
        }
        return Some(None);
    }
    match strip_key(v, "some") {
        Some(payload) => {
            proof {
                let pref = "some"@ + seq![' '];
                reveal_strlit("some");
                reveal_strlit("some ");
                assert(pref =~= "some "@);
                assert(v@.take("some "@.len() as int) == "some "@);
                assert(v@.skip("some "@.len() as int) == payload@);
            }
            Some(Some(payload))
        },
        None => {
            proof {
                let pref = "some"@ + seq![' '];
                reveal_strlit("some");
                reveal_strlit("some ");
                assert(pref =~= "some "@);
                if v@.len() >= "some "@.len() && v@.take("some "@.len() as int) == "some "@ {
                    assert(spec_strip_key(v@, "some"@) is Some);
                }
            }
            None
        },
    }
}

} // verus!
