//! Byte-level scanning primitives shared by the request-line and query
//! parsers: first-occurrence searches with exact characterizations.

use vstd::prelude::*;

verus! {

/// ASCII whitespace as it separates the tokens of an HTTP request line.
pub open spec fn is_ws(b: u8) -> bool {
    b == 32 || b == 9 || b == 13 || b == 10
}

/// Index of the first byte at or after `i` whose whitespace-ness equals
/// `want`, or `bs.len()` if there is none.
pub open spec fn find_ws_from(bs: Seq<u8>, i: int, want: bool) -> int
    decreases bs.len() - i,
{
    if i < 0 || i >= bs.len() {
        bs.len() as int
    } else if is_ws(bs[i]) == want {
        i
    } else {
        find_ws_from(bs, i + 1, want)
    }
}

pub proof fn lemma_find_ws_from(bs: Seq<u8>, i: int, want: bool)
    requires
        0 <= i <= bs.len(),
    ensures
        i <= find_ws_from(bs, i, want) <= bs.len(),
        forall|j: int| i <= j < find_ws_from(bs, i, want) ==> is_ws(bs[j]) != want,
        find_ws_from(bs, i, want) < bs.len() ==> is_ws(bs[find_ws_from(bs, i, want)]) == want,
    decreases bs.len() - i,
{
    if i < bs.len() && is_ws(bs[i]) != want {
        lemma_find_ws_from(bs, i + 1, want);
    }
}

/// Index of the first occurrence of `b` at or after `i`, or `bs.len()`.
pub open spec fn find_byte_from(bs: Seq<u8>, i: int, b: u8) -> int
    decreases bs.len() - i,
{
    if i < 0 || i >= bs.len() {
        bs.len() as int
    } else if bs[i] == b {
        i
    } else {
        find_byte_from(bs, i + 1, b)
    }
}

pub proof fn lemma_find_byte_from(bs: Seq<u8>, i: int, b: u8)
    requires
        0 <= i <= bs.len(),
    ensures
        i <= find_byte_from(bs, i, b) <= bs.len(),
        forall|j: int| i <= j < find_byte_from(bs, i, b) ==> bs[j] != b,
        find_byte_from(bs, i, b) < bs.len() ==> bs[find_byte_from(bs, i, b)] == b,
    decreases bs.len() - i,
{
    if i < bs.len() && bs[i] != b {
        lemma_find_byte_from(bs, i + 1, b);
    }
}

fn is_ws_exec(b: u8) -> (r: bool)
    ensures
        r == is_ws(b),
{
    b == 32 || b == 9 || b == 13 || b == 10
}

/// First index at or after `from` whose whitespace-ness equals `want`.
pub fn find_ws(bs: &[u8], from: usize, want: bool) -> (r: usize)
    requires
        from <= bs@.len(),
    ensures
        r == find_ws_from(bs@, from as int, want),
{
    proof {
        lemma_find_ws_from(bs@, from as int, want);
    }
    let mut i = from;
    while i < bs.len()
        invariant
            from <= i <= bs@.len(),
            forall|j: int| from <= j < i ==> is_ws(bs@[j]) != want,
            i <= find_ws_from(bs@, from as int, want),
        decreases bs@.len() - i,
    {
        proof {
            lemma_find_ws_from(bs@, from as int, want);
        }
        if is_ws_exec(bs[i]) == want {
            return i;
        }
        i += 1;
    }
    proof {
        lemma_find_ws_from(bs@, from as int, want);
    }
    i
}

/// First index at or after `from` holding the byte `b`.
pub fn find_byte(bs: &[u8], from: usize, b: u8) -> (r: usize)
    requires
        from <= bs@.len(),
    ensures
        r == find_byte_from(bs@, from as int, b),
{
    proof {
        lemma_find_byte_from(bs@, from as int, b);
    }
    let mut i = from;
    while i < bs.len()
        invariant
            from <= i <= bs@.len(),
            forall|j: int| from <= j < i ==> bs@[j] != b,
            i <= find_byte_from(bs@, from as int, b),
        decreases bs@.len() - i,
    {
        proof {
            lemma_find_byte_from(bs@, from as int, b);
        }
        if bs[i] == b {
            return i;
        }
        i += 1;
    }
    proof {
        lemma_find_byte_from(bs@, from as int, b);
    }
    i
}

/// The second whitespace-separated token of `line`, if it has one: for an
/// HTTP request line `GET /path HTTP/1.1` this is the request target.
pub open spec fn spec_second_token(line: Seq<u8>) -> Option<Seq<u8>> {
    let t0 = find_ws_from(line, 0, false);
    if t0 == line.len() {
        None
    } else {
        let e0 = find_ws_from(line, t0, true);
        let t1 = find_ws_from(line, e0, false);
        if t1 == line.len() {
            None
        } else {
            let e1 = find_ws_from(line, t1, true);
            Some(line.subrange(t1, e1))
        }
    }
}

/// Extracts the second whitespace-separated token of `line`.
pub fn second_token(line: &[u8]) -> (r: Option<Vec<u8>>)
    ensures
        match r {
            Some(v) => spec_second_token(line@) == Some(v@),
            None => spec_second_token(line@) is None,
        },
{
    let t0 = find_ws(line, 0, false);
    if t0 == line.len() {
        return None;
    }
    proof {
        lemma_find_ws_from(line@, 0, false);
    }
    let e0 = find_ws(line, t0, true);
    proof {
        lemma_find_ws_from(line@, t0 as int, true);
    }
    let t1 = find_ws(line, e0, false);
    if t1 == line.len() {
        return None;
    }
    proof {
        lemma_find_ws_from(line@, e0 as int, false);
    }
    let e1 = find_ws(line, t1, true);
    proof {
        lemma_find_ws_from(line@, t1 as int, true);
    }
    let tok = vstd::slice::slice_to_vec(&line[t1..e1]);
    Some(tok)
}

/// Whether two byte slices hold the same bytes.
pub fn bytes_eq(a: &[u8], b: &[u8]) -> (r: bool)
    ensures
        r == (a@ == b@),
{
    if a.len() != b.len() {
        return false;
    }
    let mut i: usize = 0;
    while i < a.len()
        invariant
            a@.len() == b@.len(),
            i <= a@.len(),
            forall|j: int| 0 <= j < i ==> a@[j] == b@[j],
        decreases a@.len() - i,
    {
        if a[i] != b[i] {
            return false;
        }
        i += 1;
    }
    proof {
        assert(a@ =~= b@);
    }
    true
}

/// The raw value of the first pair named `name` in a `&`-separated query
/// string; a pair without `=` has the empty value.
pub open spec fn spec_param_value(q: Seq<u8>, name: Seq<u8>) -> Option<Seq<u8>>
    decreases q.len(),
    via spec_param_value_decreases
{
    let e = find_byte_from(q, 0, 38);
    let seg = q.subrange(0, e);
    let p = find_byte_from(seg, 0, 61);
    let k = seg.subrange(0, p);
    let v = if p == seg.len() {
        Seq::<u8>::empty()
    } else {
        seg.subrange(p + 1, seg.len() as int)
    };
    if k == name {
        Some(v)
    } else if e == q.len() {
        None
    } else {
        spec_param_value(q.subrange(e + 1, q.len() as int), name)
    }
}

#[via_fn]
proof fn spec_param_value_decreases(q: Seq<u8>, name: Seq<u8>) {
    lemma_find_byte_from(q, 0, 38);
}

/// Looks up the raw value of the first pair named `name` in a query string.
pub fn param_value(q: &[u8], name: &[u8]) -> (r: Option<Vec<u8>>)
    ensures
        match r {
            Some(v) => spec_param_value(q@, name@) == Some(v@),
            None => spec_param_value(q@, name@) is None,
        },
    decreases q@.len(),
{
    proof {
        lemma_find_byte_from(q@, 0, 38);
    }
    let e = find_byte(q, 0, 38);
    let seg = vstd::slice::slice_subrange(q, 0, e);
    proof {
        lemma_find_byte_from(seg@, 0, 61);
    }
    let p = find_byte(seg, 0, 61);
    let key = vstd::slice::slice_subrange(seg, 0, p);
    if bytes_eq(key, name) {
        if p == seg.len() {
            Some(Vec::new())
        } else {
            Some(vstd::slice::slice_to_vec(vstd::slice::slice_subrange(seg, p + 1, seg.len())))
        }
    } else if e == q.len() {
        None
    } else {
        let rest = vstd::slice::slice_subrange(q, e + 1, q.len());
        param_value(rest, name)
    }
}

} // verus!
