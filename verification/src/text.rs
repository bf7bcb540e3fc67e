//! Byte-level vocabulary shared by the header rules: tokens, ASCII whitespace,
//! splitting on a separator, trimming, joining and ASCII case folding.
//!
//! Each notion is a spec function over `Seq<u8>`, and the executable helpers
//! here are proved to compute exactly those functions.

use vstd::prelude::*;

verus! {

/// `tchar` of RFC 9110 Sec. 5.6.2: a digit, a letter, or one of
/// `! # $ % & ' * + - . ^ _ ` | ~`.
pub open spec fn is_tchar(b: u8) -> bool {
    ||| (48 <= b <= 57)
    ||| (65 <= b <= 90)
    ||| (97 <= b <= 122)
    ||| b == 33 || b == 35 || b == 36 || b == 37 || b == 38 || b == 39
    ||| b == 42 || b == 43 || b == 45 || b == 46
    ||| b == 94 || b == 95 || b == 96 || b == 124 || b == 126
}

/// Every byte of `s` satisfies `p`.
pub open spec fn all_bytes(s: Seq<u8>, p: spec_fn(u8) -> bool) -> bool {
    forall|k: int| 0 <= k < s.len() ==> #[trigger] p(s[k])
}

/// An HTTP token: one or more `tchar`s.
pub open spec fn is_token(s: Seq<u8>) -> bool {
    s.len() > 0 && all_bytes(s, |b: u8| is_tchar(b))
}

/// A byte that may appear in a header value: `\t`, or any byte from 32 to 255 but 127.
pub open spec fn is_value_byte(b: u8) -> bool {
    (b >= 32 && b != 127) || b == 9
}

/// Bytes that form a valid header value.
pub open spec fn is_value_bytes(s: Seq<u8>) -> bool {
    all_bytes(s, |b: u8| is_value_byte(b))
}

/// ASCII whitespace as `u8::is_ascii_whitespace` defines it: space, `\t`, `\n`, form feed, `\r`.
pub open spec fn is_ascii_ws(b: u8) -> bool {
    b == 32 || b == 9 || b == 10 || b == 12 || b == 13
}

/// `s` without its leading ASCII whitespace.
pub open spec fn trim_start(s: Seq<u8>) -> Seq<u8>
    decreases s.len(),
{
    if s.len() > 0 && is_ascii_ws(s[0]) {
        trim_start(s.drop_first())
    } else {
        s
    }
}

/// `s` without its trailing ASCII whitespace.
pub open spec fn trim_end(s: Seq<u8>) -> Seq<u8>
    decreases s.len(),
{
    if s.len() > 0 && is_ascii_ws(s.last()) {
        trim_end(s.drop_last())
    } else {
        s
    }
}

/// `s` without leading and trailing ASCII whitespace (`<[u8]>::trim_ascii`).
pub open spec fn trim(s: Seq<u8>) -> Seq<u8> {
    trim_end(trim_start(s))
}

/// The pieces of `s` between occurrences of `sep`, as `<[u8]>::split` yields them:
/// always at least one piece, and an empty piece wherever two separators touch
/// or a separator starts or ends `s`.
pub open spec fn split(s: Seq<u8>, sep: u8) -> Seq<Seq<u8>>
    decreases s.len(),
{
    if s.len() == 0 {
        seq![Seq::<u8>::empty()]
    } else {
        let prev = split(s.drop_last(), sep);
        if s.last() == sep {
            prev.push(Seq::<u8>::empty())
        } else {
            prev.drop_last().push(prev.last().push(s.last()))
        }
    }
}

/// The pieces laid end to end with `sep` between each two.
pub open spec fn join(parts: Seq<Seq<u8>>, sep: Seq<u8>) -> Seq<u8>
    decreases parts.len(),
{
    if parts.len() == 0 {
        Seq::<u8>::empty()
    } else if parts.len() == 1 {
        parts[0]
    } else {
        join(parts.drop_last(), sep) + sep + parts.last()
    }
}

/// ASCII lower case of one byte.
pub open spec fn to_lower(b: u8) -> u8 {
    if 65 <= b <= 90 {
        (b + 32) as u8
    } else {
        b
    }
}

/// ASCII lower case of a byte string.
pub open spec fn lower(s: Seq<u8>) -> Seq<u8> {
    Seq::new(s.len(), |i: int| to_lower(s[i]))
}

/// Equality up to ASCII case (`<[u8]>::eq_ignore_ascii_case`).
pub open spec fn eq_ignore_case(a: Seq<u8>, b: Seq<u8>) -> bool {
    lower(a) == lower(b)
}

/// The contents of a sequence of byte vectors.
pub open spec fn views(vs: Seq<Vec<u8>>) -> Seq<Seq<u8>> {
    Seq::new(vs.len(), |i: int| vs[i]@)
}

pub proof fn lemma_split_nonempty(s: Seq<u8>, sep: u8)
    ensures
        split(s, sep).len() >= 1,
    decreases s.len(),
{
    if s.len() > 0 {
        lemma_split_nonempty(s.drop_last(), sep);
    }
}

/// Joining onto the end: `join(parts + [p]) == join(parts) + sep + p` for non-empty `parts`.
pub proof fn lemma_join_push(parts: Seq<Seq<u8>>, p: Seq<u8>, sep: Seq<u8>)
    ensures
        join(parts.push(p), sep) == if parts.len() == 0 {
            p
        } else {
            join(parts, sep) + sep + p
        },
{
    assert(parts.push(p).drop_last() =~= parts);
}

/// Splitting on `sep` and joining the pieces back with `sep` gives `s` again.
pub proof fn lemma_join_split(s: Seq<u8>, sep: u8)
    ensures
        join(split(s, sep), seq![sep]) == s,
    decreases s.len(),
{
    if s.len() == 0 {
        assert(join(split(s, sep), seq![sep]) =~= s);
    } else {
        let t = s.drop_last();
        let x = s.last();
        let p = split(t, sep);
        lemma_split_nonempty(t, sep);
        lemma_join_split(t, sep);
        assert(s =~= t.push(x));
        if x == sep {
            lemma_join_push(p, Seq::<u8>::empty(), seq![sep]);
            assert(join(p, seq![sep]) + seq![sep] + Seq::<u8>::empty() =~= s);
        } else {
            let q = p.drop_last();
            let l = p.last();
            assert(p =~= q.push(l));
            lemma_join_push(q, l.push(x), seq![sep]);
            lemma_join_push(q, l, seq![sep]);
            if q.len() == 0 {
                assert(join(p, seq![sep]) == l);
            } else {
                assert(join(q, seq![sep]) + seq![sep] + l.push(x) =~= (join(q, seq![sep])
                    + seq![sep] + l).push(x));
            }
        }
    }
}

/// Every piece of `split(s, sep)` keeps a property that all bytes of `s` have.
pub proof fn lemma_split_all_bytes(s: Seq<u8>, sep: u8, p: spec_fn(u8) -> bool)
    requires
        all_bytes(s, p),
    ensures
        forall|j: int|
            0 <= j < split(s, sep).len() ==> all_bytes(#[trigger] split(s, sep)[j], p),
    decreases s.len(),
{
    if s.len() > 0 {
        let t = s.drop_last();
        assert(all_bytes(t, p)) by {
            assert forall|k: int| 0 <= k < t.len() implies #[trigger] p(t[k]) by {
                assert(t[k] == s[k]);
            }
        }
        lemma_split_all_bytes(t, sep, p);
        lemma_split_nonempty(t, sep);
        let prev = split(t, sep);
        if s.last() != sep {
            let l = prev.last();
            assert(all_bytes(l, p)) by {
                assert(l == prev[prev.len() - 1]);
            }
            assert(p(s[s.len() - 1]));
            assert(all_bytes(l.push(s.last()), p)) by {
                assert forall|k: int| 0 <= k < l.push(s.last()).len() implies #[trigger] p(
                    l.push(s.last())[k],
                ) by {
                    if k < l.len() {
                        assert(l.push(s.last())[k] == l[k]);
                    }
                }
            }
            let r = prev.drop_last().push(l.push(s.last()));
            assert forall|j: int| 0 <= j < r.len() implies all_bytes(#[trigger] r[j], p) by {
                if j < r.len() - 1 {
                    assert(r[j] == prev[j]);
                }
            }
        } else {
            let r = prev.push(Seq::<u8>::empty());
            assert forall|j: int| 0 <= j < r.len() implies all_bytes(#[trigger] r[j], p) by {
                if j < r.len() - 1 {
                    assert(r[j] == prev[j]);
                }
            }
        }
    }
}

/// Trimming keeps a property that all bytes of `s` have.
pub proof fn lemma_trim_all_bytes(s: Seq<u8>, p: spec_fn(u8) -> bool)
    requires
        all_bytes(s, p),
    ensures
        all_bytes(trim_start(s), p),
        all_bytes(trim_end(s), p),
        all_bytes(trim(s), p),
    decreases s.len(),
{
    if s.len() > 0 {
        let a = s.drop_first();
        let b = s.drop_last();
        assert(all_bytes(a, p)) by {
            assert forall|k: int| 0 <= k < a.len() implies #[trigger] p(a[k]) by {
                assert(a[k] == s[k + 1]);
            }
        }
        assert(all_bytes(b, p)) by {
            assert forall|k: int| 0 <= k < b.len() implies #[trigger] p(b[k]) by {
                assert(b[k] == s[k]);
            }
        }
        lemma_trim_all_bytes(a, p);
        lemma_trim_all_bytes(b, p);
    }
    lemma_trim_end_all_bytes(trim_start(s), p);
}

proof fn lemma_trim_end_all_bytes(s: Seq<u8>, p: spec_fn(u8) -> bool)
    requires
        all_bytes(s, p),
    ensures
        all_bytes(trim_end(s), p),
    decreases s.len(),
{
    if s.len() > 0 {
        let b = s.drop_last();
        assert(all_bytes(b, p)) by {
            assert forall|k: int| 0 <= k < b.len() implies #[trigger] p(b[k]) by {
                assert(b[k] == s[k]);
            }
        }
        lemma_trim_end_all_bytes(b, p);
    }
}

/// A byte string without whitespace at either end is its own trim; in particular a token.
pub proof fn lemma_trim_token(s: Seq<u8>)
    requires
        is_token(s),
    ensures
        trim(s) == s,
{
    let p = |b: u8| is_tchar(b);
    assert(p(s[0]));
    assert(p(s[s.len() - 1]));
    assert(trim_start(s) == s);
    assert(trim_end(s) == s);
}

/// Joining keeps a property that all pieces and the separator have.
pub proof fn lemma_join_all_bytes(parts: Seq<Seq<u8>>, sep: Seq<u8>, p: spec_fn(u8) -> bool)
    requires
        forall|j: int| 0 <= j < parts.len() ==> all_bytes(#[trigger] parts[j], p),
        all_bytes(sep, p),
    ensures
        all_bytes(join(parts, sep), p),
    decreases parts.len(),
{
    if parts.len() == 1 {
        assert(all_bytes(parts[0], p));
    } else if parts.len() > 1 {
        let q = parts.drop_last();
        assert forall|j: int| 0 <= j < q.len() implies all_bytes(#[trigger] q[j], p) by {
            assert(q[j] == parts[j]);
        }
        lemma_join_all_bytes(q, sep, p);
        let l = parts.last();
        assert(all_bytes(l, p)) by {
            assert(l == parts[parts.len() - 1]);
        }
        let a = join(q, sep);
        let r = a + sep + l;
        assert forall|k: int| 0 <= k < r.len() implies #[trigger] p(r[k]) by {
            if k < a.len() {
                assert(r[k] == a[k]);
            } else if k < a.len() + sep.len() {
                assert(r[k] == sep[k - a.len()]);
            } else {
                assert(r[k] == l[k - a.len() - sep.len()]);
            }
        }
    }
}

/// A property of all bytes of `a` and of `b` holds of all bytes of `a + b`.
pub proof fn lemma_all_bytes_concat(a: Seq<u8>, b: Seq<u8>, p: spec_fn(u8) -> bool)
    requires
        all_bytes(a, p),
        all_bytes(b, p),
    ensures
        all_bytes(a + b, p),
{
    assert forall|k: int| 0 <= k < (a + b).len() implies #[trigger] p((a + b)[k]) by {
        if k < a.len() {
            assert((a + b)[k] == a[k]);
        } else {
            assert((a + b)[k] == b[k - a.len()]);
        }
    }
}

/// `s` holds no `sep`.
pub open spec fn free_of(s: Seq<u8>, sep: u8) -> bool {
    forall|k: int| 0 <= k < s.len() ==> s[k] != sep
}

/// Extending `s` by bytes that hold no separator extends its last piece.
pub proof fn lemma_split_extend(s: Seq<u8>, t: Seq<u8>, sep: u8)
    requires
        free_of(t, sep),
    ensures
        split(s + t, sep) == split(s, sep).drop_last().push(split(s, sep).last() + t),
    decreases t.len(),
{
    lemma_split_nonempty(s, sep);
    let p = split(s, sep);
    if t.len() == 0 {
        assert(s + t =~= s);
        assert(p.last() + t =~= p.last());
        assert(p.drop_last().push(p.last()) =~= p);
    } else {
        let u = t.drop_last();
        let x = t.last();
        assert(free_of(u, sep));
        lemma_split_extend(s, u, sep);
        assert((s + t).drop_last() =~= s + u);
        assert((s + t).last() == x);
        assert(x == t[t.len() - 1]);
        let q = split(s + u, sep);
        assert(q.drop_last() =~= p.drop_last());
        assert(q.last() == p.last() + u);
        assert((p.last() + u).push(x) =~= p.last() + t);
    }
}

/// Pieces that hold no separator come back from splitting their join.
pub proof fn lemma_split_join(parts: Seq<Seq<u8>>, sep: u8)
    requires
        parts.len() > 0,
        forall|j: int| 0 <= j < parts.len() ==> free_of(#[trigger] parts[j], sep),
    ensures
        split(join(parts, seq![sep]), sep) == parts,
    decreases parts.len(),
{
    let e = Seq::<u8>::empty();
    if parts.len() == 1 {
        assert(free_of(parts[0], sep));
        lemma_split_extend(e, parts[0], sep);
        assert(e + parts[0] =~= parts[0]);
        assert(split(e, sep) =~= seq![e]);
        assert(seq![e].drop_last().push(e + parts[0]) =~= parts);
    } else {
        let q = parts.drop_last();
        let l = parts.last();
        assert forall|j: int| 0 <= j < q.len() implies free_of(#[trigger] q[j], sep) by {
            assert(q[j] == parts[j]);
        }
        assert(l == parts[parts.len() - 1]);
        lemma_split_join(q, sep);
        let jq = join(q, seq![sep]);
        let s = jq + seq![sep];
        assert(s.drop_last() =~= jq);
        assert(s.last() == sep);
        assert(split(s, sep) == q.push(e));
        lemma_split_extend(s, l, sep);
        assert(q.push(e).drop_last() =~= q);
        assert(e + l =~= l);
        assert(q.push(l) =~= parts);
    }
}

/// A token holds no `,`, space or other delimiter.
pub proof fn lemma_token_free_of(t: Seq<u8>, sep: u8)
    requires
        is_token(t),
        !is_tchar(sep),
    ensures
        free_of(t, sep),
{
    let p = |b: u8| is_tchar(b);
    assert forall|k: int| 0 <= k < t.len() implies t[k] != sep by {
        assert(p(t[k]));
    }
}

/// Every piece of `split(s, sep)` holds no `sep`.
pub proof fn lemma_split_free_of(s: Seq<u8>, sep: u8)
    ensures
        forall|j: int| 0 <= j < split(s, sep).len() ==> free_of(#[trigger] split(s, sep)[j], sep),
    decreases s.len(),
{
    if s.len() > 0 {
        let t = s.drop_last();
        lemma_split_free_of(t, sep);
        lemma_split_nonempty(t, sep);
        let prev = split(t, sep);
        if s.last() != sep {
            let l = prev.last();
            assert(free_of(l, sep)) by {
                assert(l == prev[prev.len() - 1]);
            }
            let r = prev.drop_last().push(l.push(s.last()));
            assert forall|j: int| 0 <= j < r.len() implies free_of(#[trigger] r[j], sep) by {
                if j < r.len() - 1 {
                    assert(r[j] == prev[j]);
                } else {
                    assert(r[j] == l.push(s.last()));
                    assert forall|k: int| 0 <= k < r[j].len() implies r[j][k] != sep by {
                        if k < l.len() {
                            assert(r[j][k] == l[k]);
                        }
                    }
                }
            }
        } else {
            let r = prev.push(Seq::<u8>::empty());
            assert forall|j: int| 0 <= j < r.len() implies free_of(#[trigger] r[j], sep) by {
                if j < r.len() - 1 {
                    assert(r[j] == prev[j]);
                }
            }
        }
    }
}

/// Trimming keeps a byte string free of `sep`.
pub proof fn lemma_trim_free_of(s: Seq<u8>, sep: u8)
    requires
        free_of(s, sep),
    ensures
        free_of(trim(s), sep),
{
    let p = |b: u8| b != sep;
    assert(all_bytes(s, p)) by {
        assert forall|k: int| 0 <= k < s.len() implies #[trigger] p(s[k]) by {}
    }
    lemma_trim_all_bytes(s, p);
    let t = trim(s);
    assert forall|k: int| 0 <= k < t.len() implies t[k] != sep by {
        assert(p(t[k]));
    }
}

/// After `trim_start`, nothing or a byte that is not whitespace comes first.
proof fn lemma_trim_start_head(s: Seq<u8>)
    ensures
        trim_start(s).len() > 0 ==> !is_ascii_ws(trim_start(s)[0]),
    decreases s.len(),
{
    if s.len() > 0 && is_ascii_ws(s[0]) {
        lemma_trim_start_head(s.drop_first());
    }
}

/// `trim_end(s)` is a prefix of `s` that ends, if at all, with a byte that is not
/// whitespace.
proof fn lemma_trim_end_prefix(s: Seq<u8>)
    ensures
        trim_end(s).len() <= s.len(),
        trim_end(s) == s.subrange(0, trim_end(s).len() as int),
        trim_end(s).len() > 0 ==> !is_ascii_ws(trim_end(s).last()),
    decreases s.len(),
{
    if s.len() > 0 && is_ascii_ws(s.last()) {
        let t = s.drop_last();
        lemma_trim_end_prefix(t);
        assert(t.subrange(0, trim_end(t).len() as int) =~= s.subrange(
            0,
            trim_end(t).len() as int,
        ));
    } else {
        assert(s.subrange(0, s.len() as int) =~= s);
    }
}

/// A non-empty trim starts and ends with a byte that is not whitespace.
pub proof fn lemma_trim_ends(s: Seq<u8>)
    ensures
        trim(s).len() > 0 ==> !is_ascii_ws(trim(s)[0]) && !is_ascii_ws(trim(s).last()),
{
    let y = trim_start(s);
    lemma_trim_start_head(s);
    lemma_trim_end_prefix(y);
    if trim(s).len() > 0 {
        assert(trim(s)[0] == y.subrange(0, trim(s).len() as int)[0]);
    }
}

/// A byte string that neither starts nor ends with whitespace is its own trim, also
/// behind one leading space.
pub proof fn lemma_trim_space_led(t: Seq<u8>)
    requires
        t.len() > 0,
        !is_ascii_ws(t[0]),
        !is_ascii_ws(t.last()),
    ensures
        trim(t) == t,
        trim(seq![32u8] + t) == t,
{
    let u = seq![32u8] + t;
    assert(u.drop_first() =~= t);
    assert(trim_start(t) == t);
    assert(trim_start(u) == trim_start(t));
    assert(trim_end(t) == t);
}

/// The pieces after the first, each led by a space.
pub open spec fn space_led(parts: Seq<Seq<u8>>) -> Seq<Seq<u8>> {
    Seq::new(
        parts.len(),
        |i: int|
            if i == 0 {
                parts[0]
            } else {
                seq![32u8] + parts[i]
            },
    )
}

/// Joining by `, ` is joining by `,` the pieces with a space before all but the first.
pub proof fn lemma_join_comma_space(parts: Seq<Seq<u8>>)
    ensures
        join(parts, seq![44u8, 32u8]) == join(space_led(parts), seq![44u8]),
    decreases parts.len(),
{
    if parts.len() > 1 {
        let q = parts.drop_last();
        lemma_join_comma_space(q);
        assert(space_led(parts).drop_last() =~= space_led(q));
        assert(space_led(parts).last() == seq![32u8] + parts.last());
        assert(join(q, seq![44u8, 32u8]) + seq![44u8, 32u8] + parts.last() =~= join(
            space_led(q),
            seq![44u8],
        ) + seq![44u8] + (seq![32u8] + parts.last()));
    } else if parts.len() == 1 {
        assert(space_led(parts)[0] == parts[0]);
    }
}

/// `is_tchar(b)`, computed.
pub fn is_tchar_byte(b: u8) -> (r: bool)
    ensures
        r == is_tchar(b),
{
    (48 <= b && b <= 57) || (65 <= b && b <= 90) || (97 <= b && b <= 122) || b == 33 || b == 35
        || b == 36 || b == 37 || b == 38 || b == 39 || b == 42 || b == 43 || b == 45 || b == 46
        || b == 94 || b == 95 || b == 96 || b == 124 || b == 126
}

/// `is_ascii_ws(b)`, computed.
pub fn is_ascii_ws_byte(b: u8) -> (r: bool)
    ensures
        r == is_ascii_ws(b),
{
    b == 32 || b == 9 || b == 10 || b == 12 || b == 13
}

/// A fresh vector holding `src`.
pub fn copy_bytes(src: &[u8]) -> (r: Vec<u8>)
    ensures
        r@ == src@,
{
    let mut r: Vec<u8> = Vec::new();
    let mut i: usize = 0;
    while i < src.len()
        invariant
            i <= src.len(),
            r@ == src@.subrange(0, i as int),
        decreases src.len() - i,
    {
        r.push(src[i]);
        i += 1;
        assert(r@ =~= src@.subrange(0, i as int));
    }
    assert(r@ =~= src@);
    r
}

/// Appends `src` to `out`.
pub fn push_bytes(out: &mut Vec<u8>, src: &[u8])
    ensures
        final(out)@ == old(out)@ + src@,
{
    let ghost start = out@;
    let mut i: usize = 0;
    while i < src.len()
        invariant
            i <= src.len(),
            out@ == start + src@.subrange(0, i as int),
        decreases src.len() - i,
    {
        out.push(src[i]);
        i += 1;
        assert(out@ =~= start + src@.subrange(0, i as int));
    }
    assert(src@.subrange(0, src.len() as int) =~= src@);
}

/// Byte-for-byte equality.
pub fn bytes_eq(a: &[u8], b: &[u8]) -> (r: bool)
    ensures
        r == (a@ == b@),
{
    if a.len() != b.len() {
        return false;
    }
    let mut i: usize = 0;
    while i < a.len()
        invariant
            a.len() == b.len(),
            i <= a.len(),
            forall|k: int| 0 <= k < i ==> a@[k] == b@[k],
        decreases a.len() - i,
    {
        if a[i] != b[i] {
            return false;
        }
        i += 1;
    }
    assert(a@ =~= b@);
    true
}

/// ASCII lower case of one byte, computed.
pub fn to_lower_byte(b: u8) -> (r: u8)
    ensures
        r == to_lower(b),
{
    if 65 <= b && b <= 90 {
        b + 32
    } else {
        b
    }
}

/// Equality up to ASCII case.
pub fn eq_ignore_ascii_case(a: &[u8], b: &[u8]) -> (r: bool)
    ensures
        r == eq_ignore_case(a@, b@),
{
    if a.len() != b.len() {
        assert(lower(a@).len() != lower(b@).len());
        return false;
    }
    let mut i: usize = 0;
    while i < a.len()
        invariant
            a.len() == b.len(),
            i <= a.len(),
            forall|k: int| 0 <= k < i ==> to_lower(a@[k]) == to_lower(b@[k]),
        decreases a.len() - i,
    {
        if to_lower_byte(a[i]) != to_lower_byte(b[i]) {
            assert(lower(a@)[i as int] != lower(b@)[i as int]);
            return false;
        }
        i += 1;
    }
    assert(lower(a@) =~= lower(b@));
    true
}

/// The bytes of `src` without leading and trailing ASCII whitespace.
pub fn trim_ascii(src: &[u8]) -> (r: Vec<u8>)
    ensures
        r@ == trim(src@),
{
    let n = src.len();
    let mut start: usize = 0;
    assert(src@.subrange(0, n as int) =~= src@);
    while start < n && is_ascii_ws_byte(src[start])
        invariant
            start <= n,
            n == src@.len(),
            trim_start(src@.subrange(start as int, n as int)) == trim_start(src@),
        decreases n - start,
    {
        assert(src@.subrange(start as int, n as int).drop_first() =~= src@.subrange(
            start as int + 1,
            n as int,
        ));
        start += 1;
    }
    assert(trim_start(src@.subrange(start as int, n as int)) == src@.subrange(
        start as int,
        n as int,
    ));
    let mut end: usize = n;
    while end > start && is_ascii_ws_byte(src[end - 1])
        invariant
            start <= end <= n,
            n == src@.len(),
            trim_end(src@.subrange(start as int, end as int)) == trim(src@),
        decreases end - start,
    {
        assert(src@.subrange(start as int, end as int).drop_last() =~= src@.subrange(
            start as int,
            end as int - 1,
        ));
        end -= 1;
    }
    assert(trim_end(src@.subrange(start as int, end as int)) == src@.subrange(
        start as int,
        end as int,
    ));
    let mut r: Vec<u8> = Vec::new();
    let mut i: usize = start;
    while i < end
        invariant
            start <= i <= end <= n,
            n == src@.len(),
            r@ == src@.subrange(start as int, i as int),
        decreases end - i,
    {
        r.push(src[i]);
        i += 1;
        assert(r@ =~= src@.subrange(start as int, i as int));
    }
    r
}

/// The pieces of `src` between occurrences of `sep` (`<[u8]>::split`).
pub fn split_on(src: &[u8], sep: u8) -> (pieces: Vec<Vec<u8>>)
    ensures
        views(pieces@) == split(src@, sep),
{
    let mut pieces: Vec<Vec<u8>> = Vec::new();
    let mut cur: Vec<u8> = Vec::new();
    let mut i: usize = 0;
    assert(views(pieces@).push(cur@) =~= split(src@.subrange(0, 0), sep));
    while i < src.len()
        invariant
            i <= src.len(),
            views(pieces@).push(cur@) == split(src@.subrange(0, i as int), sep),
        decreases src.len() - i,
    {
        let ghost before = views(pieces@).push(cur@);
        let b = src[i];
        assert(src@.subrange(0, i as int + 1).drop_last() =~= src@.subrange(0, i as int));
        assert(src@.subrange(0, i as int + 1).last() == b);
        if b == sep {
            let done = cur;
            pieces.push(done);
            cur = Vec::new();
            assert(views(pieces@).push(cur@) =~= before.push(Seq::<u8>::empty()));
        } else {
            cur.push(b);
            assert(views(pieces@).push(cur@) =~= before.drop_last().push(before.last().push(b)));
        }
        i += 1;
    }
    assert(src@.subrange(0, src.len() as int) =~= src@);
    let last = cur;
    let ghost before = views(pieces@).push(last@);
    pieces.push(last);
    assert(views(pieces@) =~= before);
    pieces
}

} // verus!
