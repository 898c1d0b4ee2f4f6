//! Reading a number from a line of local input.
use vstd::prelude::*;

verus! {

/// The characters that count as white space around the number.
pub open spec fn is_space(c: char) -> bool {
    ||| '\u{9}' <= c <= '\u{D}'
    ||| c == ' '
    ||| c == '\u{85}'
    ||| c == '\u{A0}'
    ||| c == '\u{1680}'
    ||| '\u{2000}' <= c <= '\u{200A}'
    ||| c == '\u{2028}'
    ||| c == '\u{2029}'
    ||| c == '\u{202F}'
    ||| c == '\u{205F}'
    ||| c == '\u{3000}'
}

pub open spec fn is_digit(c: char) -> bool {
    '0' <= c <= '9'
}

pub open spec fn digit_value(c: char) -> nat {
    (c as int - '0' as int) as nat
}

/// The value of a run of decimal digits, the last digit counting least.
pub open spec fn decimal(s: Seq<char>) -> nat
    decreases s.len(),
{
    if s.len() == 0 {
        0
    } else {
        decimal(s.drop_last()) * 10 + digit_value(s.last())
    }
}

pub open spec fn all_digits(s: Seq<char>) -> bool {
    forall|i: int| 0 <= i < s.len() ==> is_digit(#[trigger] s[i])
}

/// The text without the white space at its start.
pub open spec fn trim_start(s: Seq<char>) -> Seq<char>
    decreases s.len(),
{
    if s.len() > 0 && is_space(s[0]) {
        trim_start(s.drop_first())
    } else {
        s
    }
}

/// The text without the white space at its end.
pub open spec fn trim_end(s: Seq<char>) -> Seq<char>
    decreases s.len(),
{
    if s.len() > 0 && is_space(s.last()) {
        trim_end(s.drop_last())
    } else {
        s
    }
}

/// The number that a line of text holds: white space around it is ignored,
/// a plus sign may stand before it, and at least one digit and nothing but
/// digits must follow.
pub open spec fn number_in(s: Seq<char>) -> Option<nat> {
    let t = trim_end(trim_start(s));
    let d = if t.len() > 0 && t[0] == '+' {
        t.drop_first()
    } else {
        t
    };
    if d.len() > 0 && all_digits(d) {
        Some(decimal(d))
    } else {
        None
    }
}

proof fn lemma_trim_start(s: Seq<char>, a: int)
    requires
        0 <= a <= s.len(),
        forall|i: int| 0 <= i < a ==> is_space(#[trigger] s[i]),
        a < s.len() ==> !is_space(s[a]),
    ensures
        trim_start(s) == s.subrange(a, s.len() as int),
    decreases a,
{
    if a == 0 {
        assert(s.subrange(0, s.len() as int) =~= s);
    } else {
        let t = s.drop_first();
        assert forall|i: int| 0 <= i < a - 1 implies is_space(#[trigger] t[i]) by {
            assert(t[i] == s[i + 1]);
        }
        lemma_trim_start(t, a - 1);
        assert(t.subrange(a - 1, t.len() as int) =~= s.subrange(a, s.len() as int));
    }
}

proof fn lemma_trim_end(s: Seq<char>, b: int)
    requires
        0 <= b <= s.len(),
        forall|i: int| b <= i < s.len() ==> is_space(#[trigger] s[i]),
        0 < b ==> !is_space(s[b - 1]),
    ensures
        trim_end(s) == s.subrange(0, b),
    decreases s.len() - b,
{
    if b == s.len() {
        assert(s.subrange(0, b) =~= s);
    } else {
        let t = s.drop_last();
        lemma_trim_end(t, b);
        assert(t.subrange(0, b) =~= s.subrange(0, b));
    }
}

/// A run of digits is worth at least as much as any run it starts with.
proof fn lemma_decimal_grows(s: Seq<char>, k: int)
    requires
        0 <= k <= s.len(),
    ensures
        decimal(s.subrange(0, k)) <= decimal(s),
    decreases s.len() - k,
{
    if k == s.len() {
        assert(s.subrange(0, k) =~= s);
    } else {
        lemma_decimal_grows(s, k + 1);
        let t = s.subrange(0, k + 1);
        assert(t.drop_last() =~= s.subrange(0, k));
    }
}

/// Reads the number that `text` holds. `None` where the text holds none, or
/// one that is too large for a `usize`.
pub fn parse_number(text: &str) -> (number: Option<usize>)
    ensures
        number == match number_in(text@) {
            Some(n) => if n <= usize::MAX {
                Some(n as usize)
            } else {
                None
            },
            None => None,
        },
{
    let ghost s = text@;
    let len: usize = text.unicode_len();
    let mut a: usize = 0;
    while a < len && is_white_space(text.get_char(a))
        invariant
            a <= len,
            len == s.len(),
            s == text@,
            forall|i: int| 0 <= i < a ==> is_space(#[trigger] s[i]),
        decreases len - a,
    {
        a += 1;
    }
    let mut b: usize = len;
    while b > a && is_white_space(text.get_char(b - 1))
        invariant
            a <= b <= len,
            len == s.len(),
            s == text@,
            forall|i: int| b <= i < len ==> is_space(#[trigger] s[i]),
        decreases b,
    {
        b -= 1;
    }
    let ghost t = s.subrange(a as int, b as int);
    proof {
        let u = s.subrange(a as int, len as int);
        lemma_trim_start(s, a as int);
        assert forall|i: int| b - a <= i < u.len() implies is_space(#[trigger] u[i]) by {
            assert(u[i] == s[a + i]);
        }
        if b > a {
            assert(u[b - a - 1] == s[b - 1]);
        }
        lemma_trim_end(u, b - a);
        assert(u.subrange(0, b - a) =~= t);
        assert(trim_end(trim_start(s)) == t);
    }
    let mut i: usize = a;
    if i < b && text.get_char(i) == '+' {
        i += 1;
    }
    let ghost d = s.subrange(i as int, b as int);
    proof {
        if i > a {
            assert(t[0] == s[a as int]);
            assert(t.drop_first() =~= d);
        } else {
            if t.len() > 0 {
                assert(t[0] == s[a as int]);
            }
            assert(t =~= d);
        }
    }
    if i >= b {
        return None;
    }
    let start: usize = i;
    let mut value: usize = 0;
    while i < b
        invariant
            start <= i <= b <= len,
            len == s.len(),
            s == text@,
            d == s.subrange(start as int, b as int),
            d.len() > 0,
            number_in(s) == if all_digits(d) {
                Some(decimal(d))
            } else {
                None
            },
            all_digits(s.subrange(start as int, i as int)),
            value == decimal(s.subrange(start as int, i as int)),
        decreases b - i,
    {
        let c = text.get_char(i);
        let ghost before = s.subrange(start as int, i as int);
        let ghost next = s.subrange(start as int, i + 1);
        proof {
            assert(next.drop_last() =~= before);
            assert(next.last() == c);
            assert(d[i - start] == c);
        }
        if !(c >= '0' && c <= '9') {
            assert(!all_digits(d));
            return None;
        }
        let digit: usize = (c as u32 - '0' as u32) as usize;
        assert(digit == digit_value(c));
        if value > (usize::MAX - digit) / 10 {
            proof {
                assert(decimal(next) == value * 10 + digit);
                assert(decimal(next) > usize::MAX);
                if all_digits(d) {
                    assert(d.subrange(0, i + 1 - start) =~= next);
                    lemma_decimal_grows(d, i + 1 - start);
                }
            }
            return None;
        }
        value = value * 10 + digit;
        proof {
            assert forall|k: int| 0 <= k < next.len() implies is_digit(#[trigger] next[k]) by {
                if k < before.len() {
                    assert(next[k] == before[k]);
                }
            }
        }
        i += 1;
    }
    proof {
        assert(s.subrange(start as int, b as int) =~= d);
    }
    Some(value)
}

/// Whether a character counts as white space around the number.
pub fn is_white_space(c: char) -> (b: bool)
    ensures
        b == is_space(c),
{
    (c >= '\u{9}' && c <= '\u{D}') || c == ' ' || c == '\u{85}' || c == '\u{A0}' || c
        == '\u{1680}' || (c >= '\u{2000}' && c <= '\u{200A}') || c == '\u{2028}' || c
        == '\u{2029}' || c == '\u{202F}' || c == '\u{205F}' || c == '\u{3000}'
}

} // verus!
