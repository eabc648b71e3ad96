//! The decision logic of the command-line layer: parsing the answer to the
//! deletion confirmation prompt. Only a trimmed, case-insensitive `y` or
//! `yes` confirms; everything else, the empty answer included, declines.

use vstd::prelude::*;

use crate::strutil::str_to_chars;

verus! {

/// The characters `str::trim` removes: those with the Unicode White_Space
/// property.
pub open spec fn is_space(c: char) -> bool {
    ||| c == '\u{0009}'
    ||| c == '\u{000A}'
    ||| c == '\u{000B}'
    ||| c == '\u{000C}'
    ||| c == '\u{000D}'
    ||| c == '\u{0020}'
    ||| c == '\u{0085}'
    ||| c == '\u{00A0}'
    ||| c == '\u{1680}'
    ||| c == '\u{2000}'
    ||| c == '\u{2001}'
    ||| c == '\u{2002}'
    ||| c == '\u{2003}'
    ||| c == '\u{2004}'
    ||| c == '\u{2005}'
    ||| c == '\u{2006}'
    ||| c == '\u{2007}'
    ||| c == '\u{2008}'
    ||| c == '\u{2009}'
    ||| c == '\u{200A}'
    ||| c == '\u{2028}'
    ||| c == '\u{2029}'
    ||| c == '\u{202F}'
    ||| c == '\u{205F}'
    ||| c == '\u{3000}'
}

/// A sequence with its leading whitespace removed.
pub open spec fn trim_start_spec(s: Seq<char>) -> Seq<char>
    decreases s.len(),
{
    if s.len() > 0 && is_space(s[0]) {
        trim_start_spec(s.drop_first())
    } else {
        s
    }
}

/// A sequence with its trailing whitespace removed.
pub open spec fn trim_end_spec(s: Seq<char>) -> Seq<char>
    decreases s.len(),
{
    if s.len() > 0 && is_space(s[s.len() - 1]) {
        trim_end_spec(s.drop_last())
    } else {
        s
    }
}

/// A sequence with whitespace removed from both ends, as `str::trim`.
pub open spec fn spec_trim(s: Seq<char>) -> Seq<char> {
    trim_end_spec(trim_start_spec(s))
}

/// Whether `a` is `b` or its upper-case form, for a lower-case ASCII `b`.
pub open spec fn matches_letter(a: char, b: char) -> bool {
    a == b || a as u32 + 32 == b as u32
}

/// Whether an answer confirms: its trimmed form is `y` or `yes`, in any
/// mixture of ASCII case.
pub open spec fn is_affirmative(s: Seq<char>) -> bool {
    let t = spec_trim(s);
    ||| (t.len() == 1 && matches_letter(t[0], 'y'))
    ||| (t.len() == 3 && matches_letter(t[0], 'y') && matches_letter(t[1], 'e') && matches_letter(
        t[2],
        's',
    ))
}

/// Decides whether `a` is `b` or its upper-case form.
fn eq_letter(a: char, b: char) -> (r: bool)
    ensures
        r == matches_letter(a, b),
{
    a == b || (a as u32) + 32 == (b as u32)
}

/// Decides whether a character has the Unicode White_Space property.
fn is_space_char(c: char) -> (r: bool)
    ensures
        r == is_space(c),
{
    match c {
        '\u{0009}' | '\u{000A}' | '\u{000B}' | '\u{000C}' | '\u{000D}' | '\u{0020}' | '\u{0085}'
            | '\u{00A0}' | '\u{1680}' | '\u{2000}' | '\u{2001}' | '\u{2002}' | '\u{2003}'
            | '\u{2004}' | '\u{2005}' | '\u{2006}' | '\u{2007}' | '\u{2008}' | '\u{2009}'
            | '\u{200A}' | '\u{2028}' | '\u{2029}' | '\u{202F}' | '\u{205F}' | '\u{3000}' => true,
        _ => false,
    }
}

/// Decides whether an answer to the `(y/N)` prompt confirms: only trimmed,
/// case-insensitive `y` or `yes` does; everything else declines.
pub fn confirm(answer: &str) -> (r: bool)
    ensures
        r == is_affirmative(answer@),
{
    let chars = str_to_chars(answer);
    let len: usize = chars.len();
    let mut a: usize = 0;
    proof {
        assert(chars@.subrange(0, len as int) =~= chars@);
    }
    while a < len && is_space_char(chars[a])
        invariant
            a <= len,
            len == chars@.len(),
            trim_start_spec(chars@) == trim_start_spec(chars@.subrange(a as int, len as int)),
        decreases len - a,
    {
        proof {
            let t = chars@.subrange(a as int, len as int);
            assert(t.drop_first() =~= chars@.subrange(a + 1, len as int));
        }
        a = a + 1;
    }
    proof {
        let t = chars@.subrange(a as int, len as int);
        assert(trim_start_spec(t) == t);
        assert(trim_start_spec(chars@) == chars@.subrange(a as int, len as int));
    }
    let mut b: usize = len;
    while b > a && is_space_char(chars[b - 1])
        invariant
            a <= b <= len,
            len == chars@.len(),
            trim_start_spec(chars@) == chars@.subrange(a as int, len as int),
            trim_end_spec(chars@.subrange(a as int, len as int)) == trim_end_spec(
                chars@.subrange(a as int, b as int),
            ),
        decreases b,
    {
        proof {
            let t = chars@.subrange(a as int, b as int);
            assert(t.drop_last() =~= chars@.subrange(a as int, b - 1));
        }
        b = b - 1;
    }
    proof {
        let t = chars@.subrange(a as int, b as int);
        assert(trim_end_spec(t) == t);
        assert(spec_trim(chars@) == chars@.subrange(a as int, b as int));
    }
    let n: usize = b - a;
    let ghost t = spec_trim(chars@);
    proof {
        assert(t.len() == n);
    }
    if n == 1 {
        let r = eq_letter(chars[a], 'y');
        proof {
            assert(t[0] == chars@[a as int]);
        }
        r
    } else if n == 3 {
        let r = eq_letter(chars[a], 'y') && eq_letter(chars[a + 1], 'e') && eq_letter(
            chars[a + 2],
            's',
        );
        proof {
            assert(t[0] == chars@[a as int]);
            assert(t[1] == chars@[a + 1]);
            assert(t[2] == chars@[a + 2]);
        }
        r
    } else {
        false
    }
}

} // verus!
