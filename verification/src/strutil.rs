//! Character-sequence utilities shared by the text codec: conversions
//! between `String` and `Vec<char>`, splitting on a separator, and joining
//! pieces back together, each verified against a spec-level model.

use vstd::prelude::*;
use vstd::string::StrSliceExecFns;

verus! {

/// Collects the characters of a string slice into a vector.
pub fn str_to_chars(s: &str) -> (v: Vec<char>)
    ensures
        v@ == s@,
{
    let n: usize = s.unicode_len();
    let mut v: Vec<char> = Vec::new();
    for i in 0..n
        invariant
            n == s@.len(),
            v@ == s@.subrange(0, i as int),
    {
        v.push(s.get_char(i));
        proof {
            assert(v@ =~= s@.subrange(0, i + 1 as int));
        }
    }
    proof {
        assert(v@ =~= s@);
    }
    v
}

/// Compares two string slices by content.
pub fn str_eq(a: &str, b: &str) -> (r: bool)
    ensures
        r == (a@ == b@),
{
    let sa = a.to_owned();
    let sb = b.to_owned();
    sa == sb
}

/// Holds when `sep` occurs in `s` starting at position `i`.
pub open spec fn match_at(s: Seq<char>, sep: Seq<char>, i: int) -> bool {
    0 <= i && i + sep.len() <= s.len() && s.subrange(i, i + sep.len() as int) == sep
}

/// Holds when `sep` occurs somewhere in `s`.
pub open spec fn contains_sub(s: Seq<char>, sep: Seq<char>) -> bool {
    exists|i: int| match_at(s, sep, i)
}

/// Splitting on a non-empty separator, leftmost match first, exactly as
/// `str::split` does: the pieces between occurrences, in order, with an
/// empty piece wherever two occurrences touch or one stands at an end.
pub open spec fn split_sub(s: Seq<char>, sep: Seq<char>) -> Seq<Seq<char>>
    recommends
        sep.len() > 0,
    decreases s.len(),
{
    if sep.len() == 0 || s.len() < sep.len() {
        seq![s]
    } else if s.subrange(0, sep.len() as int) == sep {
        seq![Seq::<char>::empty()] + split_sub(s.subrange(sep.len() as int, s.len() as int), sep)
    } else {
        let rest = split_sub(s.subrange(1, s.len() as int), sep);
        seq![seq![s[0]] + rest[0]] + rest.subrange(1, rest.len() as int)
    }
}

/// Joining pieces with a separator, the inverse of splitting.
pub open spec fn join_with(pieces: Seq<Seq<char>>, sep: Seq<char>) -> Seq<char>
    decreases pieces.len(),
{
    if pieces.len() == 0 {
        Seq::empty()
    } else if pieces.len() == 1 {
        pieces[0]
    } else {
        pieces[0] + sep + join_with(pieces.subrange(1, pieces.len() as int), sep)
    }
}

/// Splitting always yields at least one piece.
pub proof fn lemma_split_len_pos(s: Seq<char>, sep: Seq<char>)
    ensures
        split_sub(s, sep).len() >= 1,
    decreases s.len(),
{
    if sep.len() == 0 || s.len() < sep.len() {
    } else if s.subrange(0, sep.len() as int) == sep {
        lemma_split_len_pos(s.subrange(sep.len() as int, s.len() as int), sep);
    } else {
        lemma_split_len_pos(s.subrange(1, s.len() as int), sep);
    }
}

/// Relies on String::push: appends exactly one character at the end.
#[verifier::external_body]
fn push_char(s: &mut String, c: char)
    ensures
        final(s)@ == old(s)@.push(c),
{
    s.push(c);
}

/// Builds a `String` holding exactly the given characters.
pub fn chars_to_string(v: &Vec<char>) -> (s: String)
    ensures
        s@ == v@,
{
    let mut s = String::new();
    let n: usize = v.len();
    for i in 0..n
        invariant
            n == v@.len(),
            s@ == v@.subrange(0, i as int),
    {
        push_char(&mut s, v[i]);
        proof {
            assert(s@ =~= v@.subrange(0, i + 1 as int));
        }
    }
    proof {
        assert(s@ =~= v@);
    }
    s
}

/// A subrange of a sequence free of `x` is itself free of `x`.
pub proof fn lemma_subrange_free(s: Seq<char>, x: char, a: int, b: int)
    requires
        !s.contains(x),
        0 <= a <= b <= s.len(),
    ensures
        !s.subrange(a, b).contains(x),
{
    let t = s.subrange(a, b);
    if t.contains(x) {
        let i = choose|i: int| 0 <= i < t.len() && t[i] == x;
        assert(s[a + i] == x);
        assert(s.contains(x));
    }
}

/// A tail of a sequence without an occurrence of `sep` has none either.
pub proof fn lemma_no_match_in_tail(s: Seq<char>, sep: Seq<char>, k: int)
    requires
        0 <= k <= s.len(),
        !contains_sub(s, sep),
    ensures
        !contains_sub(s.subrange(k, s.len() as int), sep),
{
    let t = s.subrange(k, s.len() as int);
    assert forall|i: int| !match_at(t, sep, i) by {
        if match_at(t, sep, i) {
            assert(s.subrange(k + i, k + i + sep.len() as int) =~= t.subrange(
                i,
                i + sep.len() as int,
            ));
            assert(match_at(s, sep, k + i));
        }
    }
}

/// A sequence without an occurrence of the separator splits into one piece.
pub proof fn lemma_split_no_match(s: Seq<char>, sep: Seq<char>)
    requires
        sep.len() > 0,
        !contains_sub(s, sep),
    ensures
        split_sub(s, sep) == seq![s],
    decreases s.len(),
{
    if s.len() < sep.len() {
    } else if s.subrange(0, sep.len() as int) == sep {
        assert(match_at(s, sep, 0));
        assert(false);
    } else {
        let s1 = s.subrange(1, s.len() as int);
        lemma_no_match_in_tail(s, sep, 1);
        lemma_split_no_match(s1, sep);
        assert(seq![s[0]] + s1 =~= s);
        assert(split_sub(s, sep) =~= seq![s]);
    }
}

/// Containing a one-character separator is containing that character.
pub proof fn lemma_single_char_contains(s: Seq<char>, c: char)
    ensures
        contains_sub(s, seq![c]) <==> s.contains(c),
{
    if contains_sub(s, seq![c]) {
        let i = choose|i: int| match_at(s, seq![c], i);
        assert(s.subrange(i, i + 1)[0] == c);
        assert(s[i] == c);
        assert(s.contains(c));
    }
    if s.contains(c) {
        let i = choose|i: int| 0 <= i < s.len() && s[i] == c;
        assert(s.subrange(i, i + 1) =~= seq![c]);
        assert(match_at(s, seq![c], i));
    }
}

/// A sequence whose head differs from `c` does not start with `seq![c]`.
proof fn lemma_head_differs(s: Seq<char>, c: char)
    requires
        s.len() >= 1,
        s[0] != c,
    ensures
        s.subrange(0, 1) != seq![c],
{
    if s.subrange(0, 1) == seq![c] {
        assert(s.subrange(0, 1)[0] == seq![c][0]);
    }
}

/// Splitting on one character distributes over a separator between a piece
/// free of that character and an arbitrary remainder.
pub proof fn lemma_split_char_concat(s1: Seq<char>, c: char, s2: Seq<char>)
    requires
        !s1.contains(c),
    ensures
        split_sub(s1 + seq![c] + s2, seq![c]) == seq![s1] + split_sub(s2, seq![c]),
    decreases s1.len(),
{
    let sep = seq![c];
    let s = s1 + seq![c] + s2;
    assert(s.len() == s1.len() + 1 + s2.len());
    if s1.len() == 0 {
        assert(s =~= seq![c] + s2);
        assert(s.subrange(0, 1) =~= sep);
        assert(s.subrange(1, s.len() as int) =~= s2);
        assert(split_sub(s, sep) == seq![Seq::<char>::empty()] + split_sub(s2, sep));
        assert(s1 =~= Seq::<char>::empty());
        assert(split_sub(s, sep) =~= seq![s1] + split_sub(s2, sep));
    } else {
        if s[0] == c {
            assert(s1[0] == c);
            assert(s1.contains(c));
            assert(false);
        }
        lemma_head_differs(s, c);
        let s1t = s1.subrange(1, s1.len() as int);
        lemma_subrange_free(s1, c, 1, s1.len() as int);
        lemma_split_char_concat(s1t, c, s2);
        assert(s.subrange(1, s.len() as int) =~= s1t + seq![c] + s2);
        let rest = split_sub(s.subrange(1, s.len() as int), sep);
        assert(rest == seq![s1t] + split_sub(s2, sep));
        lemma_split_len_pos(s2, sep);
        assert(seq![s[0]] + rest[0] =~= s1);
        assert(rest.subrange(1, rest.len() as int) =~= split_sub(s2, sep));
        assert(split_sub(s, sep) =~= seq![s1] + split_sub(s2, sep));
    }
}

/// Appending a separator character adds one empty piece at the end.
pub proof fn lemma_split_char_trailing(s: Seq<char>, c: char)
    ensures
        split_sub(s + seq![c], seq![c]) == split_sub(s, seq![c]) + seq![Seq::<char>::empty()],
    decreases s.len(),
{
    let sep = seq![c];
    let t = s + seq![c];
    assert(t.len() == s.len() + 1);
    if s.len() == 0 {
        assert(t =~= seq![c]);
        assert(t.subrange(0, 1) =~= sep);
        assert(t.subrange(1, 1) =~= Seq::<char>::empty());
        assert(split_sub(t, sep) == seq![Seq::<char>::empty()] + split_sub(
            Seq::<char>::empty(),
            sep,
        ));
        assert(split_sub(Seq::<char>::empty(), sep) == seq![Seq::<char>::empty()]);
        assert(s =~= Seq::<char>::empty());
        assert(split_sub(s, sep) == seq![s]);
        assert(split_sub(t, sep) =~= split_sub(s, sep) + seq![Seq::<char>::empty()]);
    } else if s[0] == c {
        assert(t[0] == s[0]);
        assert(t.subrange(0, 1) =~= sep);
        assert(s.subrange(0, 1) =~= sep);
        let st = s.subrange(1, s.len() as int);
        assert(t.subrange(1, t.len() as int) =~= st + seq![c]);
        lemma_split_char_trailing(st, c);
        assert(split_sub(t, sep) == seq![Seq::<char>::empty()] + split_sub(st + seq![c], sep));
        assert(split_sub(s, sep) == seq![Seq::<char>::empty()] + split_sub(st, sep));
        assert(split_sub(t, sep) =~= split_sub(s, sep) + seq![Seq::<char>::empty()]);
    } else {
        assert(t[0] == s[0]);
        lemma_head_differs(t, c);
        lemma_head_differs(s, c);
        let st = s.subrange(1, s.len() as int);
        assert(t.subrange(1, t.len() as int) =~= st + seq![c]);
        lemma_split_char_trailing(st, c);
        let x = split_sub(st, sep);
        lemma_split_len_pos(st, sep);
        let rest = split_sub(t.subrange(1, t.len() as int), sep);
        assert(rest == x + seq![Seq::<char>::empty()]);
        assert(rest[0] == x[0]);
        assert(split_sub(t, sep) == seq![seq![t[0]] + rest[0]] + rest.subrange(
            1,
            rest.len() as int,
        ));
        assert(split_sub(s, sep) == seq![seq![s[0]] + x[0]] + x.subrange(1, x.len() as int));
        assert(seq![t[0]] + rest[0] == seq![s[0]] + x[0]);
        assert(rest.subrange(1, rest.len() as int) =~= x.subrange(1, x.len() as int) + seq![
            Seq::<char>::empty(),
        ]);
        assert(split_sub(t, sep) =~= split_sub(s, sep) + seq![Seq::<char>::empty()]);
    }
}

/// Joining the pieces of a single-character split restores the sequence.
pub proof fn lemma_join_split_char(s: Seq<char>, c: char)
    ensures
        join_with(split_sub(s, seq![c]), seq![c]) == s,
    decreases s.len(),
{
    let sep = seq![c];
    if s.len() == 0 {
        assert(join_with(split_sub(s, sep), sep) =~= s);
    } else if s.subrange(0, 1) == sep {
        assert(s.subrange(0, 1)[0] == sep[0]);
        assert(s[0] == c);
        let st = s.subrange(1, s.len() as int);
        lemma_split_len_pos(st, sep);
        lemma_join_split_char(st, c);
        let p = split_sub(s, sep);
        assert(p == seq![Seq::<char>::empty()] + split_sub(st, sep));
        assert(p.subrange(1, p.len() as int) =~= split_sub(st, sep));
        assert(p.len() >= 2);
        assert(join_with(p, sep) == p[0] + sep + join_with(
            p.subrange(1, p.len() as int),
            sep,
        ));
        assert(p[0] =~= Seq::<char>::empty());
        assert(join_with(p, sep) =~= s);
    } else {
        assert(s[0] != c) by {
            if s[0] == c {
                assert(s.subrange(0, 1) =~= sep);
            }
        }
        let st = s.subrange(1, s.len() as int);
        lemma_split_len_pos(st, sep);
        lemma_join_split_char(st, c);
        let r = split_sub(st, sep);
        let p = split_sub(s, sep);
        assert(p == seq![seq![s[0]] + r[0]] + r.subrange(1, r.len() as int));
        if r.len() == 1 {
            assert(p.len() == 1);
            assert(join_with(r, sep) == r[0]);
            assert(r[0] == st);
            assert(join_with(p, sep) == p[0]);
            assert(p[0] == seq![s[0]] + r[0]);
            assert(seq![s[0]] + st =~= s);
            assert(join_with(p, sep) == s);
        } else {
            assert(p.len() == r.len());
            assert(p.subrange(1, p.len() as int) =~= r.subrange(1, r.len() as int));
            assert(join_with(r, sep) == r[0] + sep + join_with(
                r.subrange(1, r.len() as int),
                sep,
            ));
            assert(join_with(r, sep) == st);
            assert(join_with(p, sep) == p[0] + sep + join_with(
                p.subrange(1, p.len() as int),
                sep,
            ));
            assert(p[0] == seq![s[0]] + r[0]);
            assert((seq![s[0]] + r[0]) + sep + join_with(r.subrange(1, r.len() as int), sep)
                =~= seq![s[0]] + (r[0] + sep + join_with(r.subrange(1, r.len() as int), sep)));
            assert(join_with(p, sep) == seq![s[0]] + st);
            assert(seq![s[0]] + st =~= s);
        }
    }
}

/// Every piece of a split of a sequence free of `x` is free of `x`.
pub proof fn lemma_split_pieces_free(s: Seq<char>, sep: Seq<char>, x: char)
    requires
        !s.contains(x),
    ensures
        forall|j: int|
            0 <= j < split_sub(s, sep).len() ==> !(#[trigger] split_sub(s, sep)[j]).contains(x),
    decreases s.len(),
{
    let p = split_sub(s, sep);
    if sep.len() == 0 || s.len() < sep.len() {
    } else if s.subrange(0, sep.len() as int) == sep {
        let st = s.subrange(sep.len() as int, s.len() as int);
        lemma_subrange_free(s, x, sep.len() as int, s.len() as int);
        lemma_split_pieces_free(st, sep, x);
        let r = split_sub(st, sep);
        assert forall|j: int| 0 <= j < p.len() implies !(#[trigger] p[j]).contains(x) by {
            if j == 0 {
                assert(!p[0].contains(x));
            } else {
                assert(p[j] == r[j - 1]);
            }
        }
    } else {
        let st = s.subrange(1, s.len() as int);
        lemma_subrange_free(s, x, 1, s.len() as int);
        lemma_split_pieces_free(st, sep, x);
        let r = split_sub(st, sep);
        lemma_split_len_pos(st, sep);
        assert forall|j: int| 0 <= j < p.len() implies !(#[trigger] p[j]).contains(x) by {
            if j == 0 {
                let h = seq![s[0]] + r[0];
                assert(p[0] == h);
                if h.contains(x) {
                    let i = choose|i: int| 0 <= i < h.len() && h[i] == x;
                    if i == 0 {
                        assert(s[0] == x);
                        assert(s.contains(x));
                    } else {
                        assert(r[0][i - 1] == x);
                        assert(r[0].contains(x));
                    }
                }
            } else {
                assert(p[j] == r[j]);
            }
        }
    }
}

/// Joining after one more piece is joining, a separator and the piece.
pub proof fn lemma_join_push(pieces: Seq<Seq<char>>, sep: Seq<char>, x: Seq<char>)
    requires
        pieces.len() >= 1,
    ensures
        join_with(pieces.push(x), sep) == join_with(pieces, sep) + sep + x,
    decreases pieces.len(),
{
    let q = pieces.push(x);
    if pieces.len() == 1 {
        assert(q.subrange(1, 2) =~= seq![x]);
        assert(join_with(q.subrange(1, 2), sep) == x);
        assert(join_with(q, sep) =~= join_with(pieces, sep) + sep + x);
    } else {
        let pt = pieces.subrange(1, pieces.len() as int);
        lemma_join_push(pt, sep, x);
        assert(q.subrange(1, q.len() as int) =~= pt.push(x));
        assert(join_with(q, sep) =~= join_with(pieces, sep) + sep + x);
    }
}

/// What the pieces gathered so far, the piece under construction and the
/// unscanned tail amount to: the splitting of the whole input.
pub open spec fn split_state(
    done: Seq<Seq<char>>,
    cur: Seq<char>,
    rest: Seq<char>,
    sep: Seq<char>,
) -> Seq<Seq<char>> {
    let r = split_sub(rest, sep);
    done + seq![cur + r[0]] + r.subrange(1, r.len() as int)
}

/// Decides whether `sep` occurs in `s` at position `i`.
fn is_match_at(s: &Vec<char>, sep: &Vec<char>, i: usize) -> (m: bool)
    requires
        i + sep@.len() <= s@.len(),
    ensures
        m <==> s@.subrange(i as int, i + sep@.len()) == sep@,
{
    let slen: usize = s.len();
    let n: usize = sep.len();
    for j in 0..n
        invariant
            i + n <= s@.len(),
            s@.len() == slen,
            n == sep@.len(),
            forall|k: int| 0 <= k < j ==> s@[i + k] == sep@[k],
    {
        if s[i + j] != sep[j] {
            proof {
                assert(s@.subrange(i as int, i + sep@.len())[j as int] != sep@[j as int]);
            }
            return false;
        }
    }
    proof {
        assert(s@.subrange(i as int, i + sep@.len()) =~= sep@);
    }
    true
}

/// Splits `s` on the non-empty separator `sep`, matching `split_sub`.
pub fn split_vec(s: &Vec<char>, sep: &Vec<char>) -> (r: Vec<Vec<char>>)
    requires
        sep@.len() >= 1,
    ensures
        r.deep_view() == split_sub(s@, sep@),
{
    let mut done: Vec<Vec<char>> = Vec::new();
    let mut cur: Vec<char> = Vec::new();
    let mut i: usize = 0;
    proof {
        lemma_split_len_pos(s@, sep@);
        assert(s@.subrange(0, s@.len() as int) =~= s@);
        assert(done.deep_view() =~= Seq::<Seq<char>>::empty());
        let r = split_sub(s@, sep@);
        assert(cur@ + r[0] =~= r[0]);
        assert(split_state(done.deep_view(), cur@, s@, sep@) =~= r);
    }
    if sep.len() <= s.len() {
        let stop: usize = s.len() - sep.len();
        while i <= stop
            invariant
                sep@.len() >= 1,
                stop == s@.len() - sep@.len(),
                s@.len() <= usize::MAX,
                i <= s@.len(),
                split_state(done.deep_view(), cur@, s@.subrange(i as int, s@.len() as int), sep@)
                    == split_sub(s@, sep@),
            decreases s@.len() - i,
        {
            let ghost rest = s@.subrange(i as int, s@.len() as int);
            proof {
                assert(rest.subrange(0, sep@.len() as int) =~= s@.subrange(
                    i as int,
                    i + sep@.len(),
                ));
            }
            if is_match_at(s, sep, i) {
                let ghost rest2 = rest.subrange(sep@.len() as int, rest.len() as int);
                let ghost dv = done.deep_view();
                let ghost cv = cur@;
                proof {
                    lemma_split_len_pos(rest2, sep@);
                    let r = split_sub(rest, sep@);
                    let r2 = split_sub(rest2, sep@);
                    assert(r == seq![Seq::<char>::empty()] + r2);
                    assert(cv + r[0] =~= cv);
                    assert(r.subrange(1, r.len() as int) =~= r2);
                    assert(rest2 =~= s@.subrange(i + sep@.len(), s@.len() as int));
                    assert(split_state(dv.push(cv), Seq::<char>::empty(), rest2, sep@)
                        =~= split_state(dv, cv, rest, sep@));
                }
                done.push(cur);
                cur = Vec::new();
                i = i + sep.len();
                proof {
                    assert(done.deep_view() =~~= dv.push(cv));
                }
            } else {
                let ghost rest1 = rest.subrange(1, rest.len() as int);
                proof {
                    lemma_split_len_pos(rest1, sep@);
                    let r = split_sub(rest, sep@);
                    let r1 = split_sub(rest1, sep@);
                    assert(r == seq![seq![rest[0]] + r1[0]] + r1.subrange(1, r1.len() as int));
                    assert(cur@ + r[0] =~= cur@.push(s@[i as int]) + r1[0]);
                    assert(r.subrange(1, r.len() as int) =~= r1.subrange(1, r1.len() as int));
                    assert(rest1 =~= s@.subrange(i + 1, s@.len() as int));
                    assert(split_state(done.deep_view(), cur@.push(s@[i as int]), rest1, sep@)
                        =~= split_state(done.deep_view(), cur@, rest, sep@));
                }
                cur.push(s[i]);
                i = i + 1;
            }
        }
    }
    while i < s.len()
        invariant
            sep@.len() >= 1,
            i <= s@.len(),
            s@.len() <= usize::MAX,
            s@.len() - i < sep@.len(),
            split_state(done.deep_view(), cur@, s@.subrange(i as int, s@.len() as int), sep@)
                == split_sub(s@, sep@),
        decreases s@.len() - i,
    {
        let ghost rest = s@.subrange(i as int, s@.len() as int);
        proof {
            let r = split_sub(rest, sep@);
            assert(r == seq![rest]);
            let rest1 = rest.subrange(1, rest.len() as int);
            let r1 = split_sub(rest1, sep@);
            assert(r1 == seq![rest1]);
            assert(cur@.push(s@[i as int]) + r1[0] =~= cur@ + r[0]);
            assert(rest1 =~= s@.subrange(i + 1, s@.len() as int));
            assert(split_state(done.deep_view(), cur@.push(s@[i as int]), rest1, sep@)
                =~= split_state(done.deep_view(), cur@, rest, sep@));
        }
        cur.push(s[i]);
        i = i + 1;
    }
    let ghost dv = done.deep_view();
    let ghost cv = cur@;
    proof {
        let rest = s@.subrange(i as int, s@.len() as int);
        assert(rest =~= Seq::<char>::empty());
        let r = split_sub(rest, sep@);
        assert(r == seq![rest]);
        assert(cv + r[0] =~= cv);
        assert(split_state(dv, cv, rest, sep@) =~= dv.push(cv));
    }
    done.push(cur);
    proof {
        assert(done.deep_view() =~~= dv.push(cv));
    }
    done
}

/// Appends all characters of `src` to `dst`.
pub fn push_all(dst: &mut Vec<char>, src: &Vec<char>)
    ensures
        final(dst)@ == old(dst)@ + src@,
{
    let n: usize = src.len();
    for i in 0..n
        invariant
            n == src@.len(),
            dst@ == old(dst)@ + src@.subrange(0, i as int),
    {
        dst.push(src[i]);
        proof {
            assert(old(dst)@ + src@.subrange(0, i + 1 as int) =~= (old(dst)@ + src@.subrange(
                0,
                i as int,
            )).push(src@[i as int]));
        }
    }
    proof {
        assert(old(dst)@ + src@.subrange(0, n as int) =~= old(dst)@ + src@);
    }
}

/// Joins the pieces with indices in `from..to` with the separator.
pub fn join_range(pieces: &Vec<Vec<char>>, sep: &Vec<char>, from: usize, to: usize) -> (r: Vec<
    char,
>)
    requires
        from <= to <= pieces@.len(),
    ensures
        r@ == join_with(pieces.deep_view().subrange(from as int, to as int), sep@),
{
    let ghost dv = pieces.deep_view();
    let mut out: Vec<char> = Vec::new();
    if from == to {
        proof {
            assert(dv.subrange(from as int, to as int) =~= Seq::<Seq<char>>::empty());
        }
        return out;
    }
    push_all(&mut out, &pieces[from]);
    proof {
        assert(dv[from as int] =~= pieces@[from as int]@);
        assert(dv.subrange(from as int, from + 1 as int) =~= seq![dv[from as int]]);
        assert(out@ =~= join_with(dv.subrange(from as int, from + 1 as int), sep@));
    }
    let mut i: usize = from + 1;
    while i < to
        invariant
            from < i <= to <= dv.len(),
            dv == pieces.deep_view(),
            out@ == join_with(dv.subrange(from as int, i as int), sep@),
        decreases to - i,
    {
        push_all(&mut out, sep);
        push_all(&mut out, &pieces[i]);
        proof {
            lemma_join_push(dv.subrange(from as int, i as int), sep@, dv[i as int]);
            assert(dv.subrange(from as int, i + 1 as int) =~= dv.subrange(
                from as int,
                i as int,
            ).push(dv[i as int]));
            assert(dv[i as int] =~= pieces@[i as int]@);
        }
        i = i + 1;
    }
    out
}

/// One trailing carriage return is dropped from a line, as `str::lines` does.
pub open spec fn strip_cr(l: Seq<char>) -> Seq<char> {
    if l.len() > 0 && l[l.len() - 1] == '\r' {
        l.drop_last()
    } else {
        l
    }
}

/// The lines of a text, as `str::lines` yields them: the pieces between
/// newline characters, without a final empty piece when the text ends in a
/// newline, and with one trailing carriage return removed from each piece
/// that a newline terminated — a final piece the text left unterminated
/// keeps its carriage return.
pub open spec fn spec_lines(s: Seq<char>) -> Seq<Seq<char>> {
    let p = split_sub(s, seq!['\n']);
    let q = if p.len() > 0 && p[p.len() - 1].len() == 0 {
        p.drop_last()
    } else {
        p
    };
    Seq::new(
        q.len(),
        |i: int|
            if i < p.len() - 1 {
                strip_cr(q[i])
            } else {
                q[i]
            },
    )
}

/// Copies a line, leaving out one trailing carriage return when asked to.
fn copy_line(l: &Vec<char>, strip: bool) -> (r: Vec<char>)
    ensures
        r@ == if strip {
            strip_cr(l@)
        } else {
            l@
        },
{
    let ghost target = if strip {
        strip_cr(l@)
    } else {
        l@
    };
    let mut n: usize = l.len();
    if strip && n > 0 && l[n - 1] == '\r' {
        n = n - 1;
    }
    proof {
        assert(target =~= l@.subrange(0, n as int));
    }
    let mut r: Vec<char> = Vec::new();
    for i in 0..n
        invariant
            n <= l@.len(),
            r@ == l@.subrange(0, i as int),
            target == l@.subrange(0, n as int),
    {
        r.push(l[i]);
        proof {
            assert(r@ =~= l@.subrange(0, i + 1 as int));
        }
    }
    r
}

/// Splits a text into its lines, matching `spec_lines`.
pub fn lines_vec(s: &Vec<char>) -> (r: Vec<Vec<char>>)
    ensures
        r.deep_view() == spec_lines(s@),
{
    let mut sep: Vec<char> = Vec::new();
    sep.push('\n');
    proof {
        assert(sep@ =~= seq!['\n']);
    }
    let p = split_vec(s, &sep);
    proof {
        lemma_split_len_pos(s@, seq!['\n']);
    }
    let plen: usize = p.len();
    let mut n: usize = plen;
    if p[plen - 1].len() == 0 {
        n = plen - 1;
    }
    let ghost pv = p.deep_view();
    let ghost q = if pv[plen - 1].len() == 0 {
        pv.drop_last()
    } else {
        pv
    };
    let ghost ls = spec_lines(s@);
    proof {
        assert(pv[plen - 1] =~= p@[plen - 1]@);
        assert(q.len() == n);
        assert(ls.len() == n);
        assert(forall|j: int|
            0 <= j < n ==> ls[j] == (if j < plen - 1 {
                strip_cr(q[j])
            } else {
                q[j]
            }));
    }
    let mut out: Vec<Vec<char>> = Vec::new();
    for i in 0..n
        invariant
            n == q.len(),
            n <= plen == pv.len(),
            pv == p.deep_view(),
            ls == spec_lines(s@),
            ls.len() == n,
            forall|j: int|
                0 <= j < n ==> ls[j] == (if j < plen - 1 {
                    strip_cr(q[j])
                } else {
                    q[j]
                }),
            q == (if pv[pv.len() - 1].len() == 0 {
                pv.drop_last()
            } else {
                pv
            }),
            out.deep_view() == ls.subrange(0, i as int),
    {
        let ghost odv = out.deep_view();
        let line = copy_line(&p[i], i + 1 < plen);
        proof {
            assert(pv[i as int] =~= p@[i as int]@);
            assert(q[i as int] == pv[i as int]);
            assert(line@ == ls[i as int]);
        }
        out.push(line);
        proof {
            assert(out.deep_view() =~~= odv.push(line@));
            assert(ls.subrange(0, i + 1 as int) =~= odv.push(line@));
        }
    }
    proof {
        assert(ls.subrange(0, n as int) =~= ls);
    }
    out
}

} // verus!
