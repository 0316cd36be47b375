//! The textual number forms accepted by `i64` and `f64`
//! parsing in Rust's standard library.

use vstd::prelude::*;

verus! {

/// An ASCII decimal digit.
pub open spec fn is_digit(c: char) -> bool {
    '0' <= c && c <= '9'
}

pub open spec fn all_digits(s: Seq<char>) -> bool {
    forall|i: int| 0 <= i < s.len() ==> is_digit(#[trigger] s[i])
}

pub open spec fn digit_value(c: char) -> int {
    (c as int) - ('0' as int)
}

/// The number that a string of decimal digits denotes.
pub open spec fn digits_value(s: Seq<char>) -> int
    decreases s.len(),
{
    if s.len() == 0 {
        0
    } else {
        digits_value(s.drop_last()) * 10 + digit_value(s.last())
    }
}

pub open spec fn is_sign(c: char) -> bool {
    c == '+' || c == '-'
}

/// The text after an optional leading sign.
pub open spec fn unsigned_part(s: Seq<char>) -> Seq<char> {
    if s.len() > 0 && is_sign(s[0]) { s.drop_first() } else { s }
}

pub open spec fn is_negative(s: Seq<char>) -> bool {
    s.len() > 0 && s[0] == '-'
}

/// `i64::from_str` accepts exactly: an optional sign, then one or more
/// decimal digits whose value lies in the `i64` range.
pub open spec fn parses_as_i64(s: Seq<char>) -> bool {
    let body = unsigned_part(s);
    &&& body.len() > 0
    &&& all_digits(body)
    &&& if is_negative(s) {
        digits_value(body) <= 0x8000_0000_0000_0000
    } else {
        digits_value(body) <= 0x7fff_ffff_ffff_ffff
    }
}

/// A lowercase ASCII letter `lower` matched without regard to case.
pub open spec fn ci_char(c: char, lower: char) -> bool {
    c == lower || (c as u32) + 32 == (lower as u32)
}

pub open spec fn ci_equal(s: Seq<char>, lower: Seq<char>) -> bool {
    &&& s.len() == lower.len()
    &&& forall|i: int| 0 <= i < s.len() ==> ci_char(#[trigger] s[i], lower[i])
}

/// `Digit+ | Digit+ '.' Digit* | Digit* '.' Digit+`
pub open spec fn is_mantissa(m: Seq<char>) -> bool {
    ||| m.len() > 0 && all_digits(m)
    ||| exists|d: int|
        0 <= d < m.len() && #[trigger] m[d] == '.' && all_digits(m.take(d)) && all_digits(
            m.skip(d + 1),
        ) && (d > 0 || m.len() > d + 1)
}

/// `Sign? Digit+`
pub open spec fn is_exponent_digits(e: Seq<char>) -> bool {
    let body = unsigned_part(e);
    body.len() > 0 && all_digits(body)
}

pub open spec fn is_exp_marker(c: char) -> bool {
    c == 'e' || c == 'E'
}

/// `Number ::= Mantissa Exp?` with `Exp ::= ('e' | 'E') Sign? Digit+`
pub open spec fn is_number(b: Seq<char>) -> bool {
    ||| is_mantissa(b)
    ||| exists|p: int|
        0 <= p < b.len() && is_exp_marker(#[trigger] b[p]) && is_mantissa(b.take(p))
            && is_exponent_digits(b.skip(p + 1))
}

/// `f64::from_str` accepts, ignoring case, `Sign? ('inf' | 'infinity' | 'nan' | Number)`
/// (the grammar in the standard library's documentation of `f64::from_str`).
pub open spec fn parses_as_f64(s: Seq<char>) -> bool {
    let body = unsigned_part(s);
    ||| ci_equal(body, seq!['i', 'n', 'f'])
    ||| ci_equal(body, seq!['i', 'n', 'f', 'i', 'n', 'i', 't', 'y'])
    ||| ci_equal(body, seq!['n', 'a', 'n'])
    ||| is_number(body)
}

fn is_digit_char(c: char) -> (r: bool)
    ensures
        r == is_digit(c),
{
    '0' <= c && c <= '9'
}

/// Index of the first character of `s[from..to]` that is not a digit, or `to`.
fn first_non_digit(s: &Vec<char>, from: usize, to: usize) -> (r: usize)
    requires
        from <= to <= s@.len(),
    ensures
        from <= r <= to,
        forall|i: int| from <= i < r ==> is_digit(#[trigger] s@[i]),
        r < to ==> !is_digit(s@[r as int]),
{
    let mut i = from;
    while i < to
        invariant
            from <= i <= to <= s@.len(),
            forall|k: int| from <= k < i ==> is_digit(#[trigger] s@[k]),
        decreases to - i,
    {
        if !is_digit_char(s[i]) {
            return i;
        }
        i = i + 1;
    }
    i
}

/// `str::parse::<i64>`: by the standard library's documentation it accepts
/// an optional `+` or `-` sign followed by decimal digits, and nothing else,
/// when the value fits in an `i64`. The claim is that it succeeds exactly on
/// the text `parses_as_i64` describes.
#[verifier::external_body]
pub(crate) fn text_parses_as_i64(s: &str) -> (r: bool)
    ensures
        r == parses_as_i64(s@),
{
    s.parse::<i64>().is_ok()
}

proof fn lemma_mantissa_chars(m: Seq<char>)
    requires
        is_mantissa(m),
    ensures
        forall|i: int| 0 <= i < m.len() ==> is_digit(#[trigger] m[i]) || m[i] == '.',
{
    if !(m.len() > 0 && all_digits(m)) {
        let d = choose|d: int|
            0 <= d < m.len() && #[trigger] m[d] == '.' && all_digits(m.take(d)) && all_digits(
                m.skip(d + 1),
            ) && (d > 0 || m.len() > d + 1);
        assert forall|i: int| 0 <= i < m.len() implies is_digit(#[trigger] m[i]) || m[i]
            == '.' by {
            if i < d {
                assert(m.take(d)[i] == m[i]);
            } else if i > d {
                assert(m.skip(d + 1)[i - d - 1] == m[i]);
            }
        }
    }
}

/// Whether `cs[from..to]` is a mantissa: `Digit+ | Digit+ '.' Digit* | Digit* '.' Digit+`.
fn check_mantissa(cs: &Vec<char>, from: usize, to: usize) -> (r: bool)
    requires
        from <= to <= cs@.len(),
    ensures
        r == is_mantissa(cs@.subrange(from as int, to as int)),
{
    let ghost m = cs@.subrange(from as int, to as int);
    let d = first_non_digit(cs, from, to);
    if d == to {
        assert(all_digits(m));
        if from == to {
            assert(!is_mantissa(m));
        } else {
            proof {
                if !(m.len() > 0 && all_digits(m)) {
                    let dd = choose|dd: int| 0 <= dd < m.len() && #[trigger] m[dd] == '.';
                    assert(is_digit(m[dd]));
                }
            }
        }
        return to > from;
    }
    assert(m[d - from] == cs@[d as int]);
    if cs[d] != '.' {
        proof {
            assert(!all_digits(m));
            if is_mantissa(m) {
                lemma_mantissa_chars(m);
                assert(is_digit(m[d - from]) || m[d - from] == '.');
            }
        }
        return false;
    }
    let rest = first_non_digit(cs, d + 1, to);
    let ok = rest == to && (d > from || to > d + 1);
    proof {
        let w = d - from;
        assert(all_digits(m.take(w))) by {
            assert forall|i: int| 0 <= i < m.take(w).len() implies is_digit(#[trigger] m.take(w)[i]) by {
                assert(m.take(w)[i] == cs@[from + i]);
            }
        }
        if ok {
            assert(all_digits(m.skip(w + 1))) by {
                assert forall|i: int| 0 <= i < m.skip(w + 1).len() implies is_digit(
                    #[trigger] m.skip(w + 1)[i],
                ) by {
                    assert(m.skip(w + 1)[i] == cs@[d + 1 + i]);
                }
            }
            assert(m[w] == '.');
        } else {
            assert(!all_digits(m)) by {
                assert(!is_digit(m[w]));
            }
            if is_mantissa(m) {
                let dd = choose|dd: int|
                    0 <= dd < m.len() && #[trigger] m[dd] == '.' && all_digits(m.take(dd))
                        && all_digits(m.skip(dd + 1)) && (dd > 0 || m.len() > dd + 1);
                if dd < w {
                    assert(m[dd] == cs@[from + dd]);
                    assert(is_digit(cs@[from + dd]));
                } else if dd > w {
                    assert(m.take(dd)[w] == m[w]);
                } else {
                    if rest < to {
                        assert(m.skip(w + 1)[rest - d - 1] == cs@[rest as int]);
                    }
                }
            }
        }
    }
    ok
}

/// Whether `cs[from..to]` is `Sign? Digit+`.
fn check_exponent(cs: &Vec<char>, from: usize, to: usize) -> (r: bool)
    requires
        from <= to <= cs@.len(),
    ensures
        r == is_exponent_digits(cs@.subrange(from as int, to as int)),
{
    let ghost e = cs@.subrange(from as int, to as int);
    let mut start = from;
    if from < to && (cs[from] == '+' || cs[from] == '-') {
        start = from + 1;
    }
    let ghost body = unsigned_part(e);
    assert(body =~= cs@.subrange(start as int, to as int));
    let k = first_non_digit(cs, start, to);
    proof {
        if k < to {
            assert(body[k - start] == cs@[k as int]);
        } else {
            assert forall|i: int| 0 <= i < body.len() implies is_digit(#[trigger] body[i]) by {
                assert(body[i] == cs@[start + i]);
            }
        }
    }
    k == to && to > start
}

/// Whether `cs[from..to]` equals the lowercase ASCII word `word`, ignoring case.
fn check_word(cs: &Vec<char>, from: usize, to: usize, word: &Vec<char>) -> (r: bool)
    requires
        from <= to <= cs@.len(),
        forall|i: int| 0 <= i < word@.len() ==> 'a' <= #[trigger] word@[i] <= 'z',
    ensures
        r == ci_equal(cs@.subrange(from as int, to as int), word@),
{
    let ghost sub = cs@.subrange(from as int, to as int);
    if to - from != word.len() {
        return false;
    }
    let mut i: usize = 0;
    while i < word.len()
        invariant
            from <= to <= cs@.len(),
            to - from == word@.len(),
            sub == cs@.subrange(from as int, to as int),
            forall|k: int| 0 <= k < word@.len() ==> 'a' <= #[trigger] word@[k] <= 'z',
            forall|k: int| 0 <= k < i ==> ci_char(#[trigger] sub[k], word@[k]),
        decreases word.len() - i,
    {
        let c = cs[from + i];
        let l = word[i];
        assert(sub[i as int] == c);
        if !(c == l || ((c as u32) < 0x1000 && (c as u32) + 32 == (l as u32))) {
            return false;
        }
        i = i + 1;
    }
    true
}

/// Whether `cs[from..to]` is `Number ::= Mantissa Exp?`.
fn check_number(cs: &Vec<char>, from: usize, to: usize) -> (r: bool)
    requires
        from <= to <= cs@.len(),
    ensures
        r == is_number(cs@.subrange(from as int, to as int)),
{
    let ghost body = cs@.subrange(from as int, to as int);
    // Position of the first exponent marker, if any.
    let mut p = from;
    while p < to
        invariant
            from <= p <= to <= cs@.len(),
            forall|k: int| from <= k < p ==> !is_exp_marker(#[trigger] cs@[k]),
        ensures
            from <= p <= to,
            forall|k: int| from <= k < p ==> !is_exp_marker(#[trigger] cs@[k]),
            p < to ==> is_exp_marker(cs@[p as int]),
        decreases to - p,
    {
        if cs[p] == 'e' || cs[p] == 'E' {
            break;
        }
        p = p + 1;
    }
    if p == to {
        let r = check_mantissa(cs, from, to);
        proof {
            if is_number(body) && !is_mantissa(body) {
                let q = choose|q: int|
                    0 <= q < body.len() && is_exp_marker(#[trigger] body[q]) && is_mantissa(
                        body.take(q),
                    ) && is_exponent_digits(body.skip(q + 1));
                assert(body[q] == cs@[from + q]);
            }
        }
        return r;
    }
    let m_ok = check_mantissa(cs, from, p);
    let e_ok = check_exponent(cs, p + 1, to);
    let r = m_ok && e_ok;
    proof {
        let w = p - from;
        assert(body[w] == cs@[p as int]);
        assert(body.take(w) =~= cs@.subrange(from as int, p as int));
        assert(body.skip(w + 1) =~= cs@.subrange(p + 1, to as int));
        if r {
            assert(is_exp_marker(body[w]));
        } else if is_number(body) {
            if is_mantissa(body) {
                lemma_mantissa_chars(body);
                assert(is_digit(body[w]) || body[w] == '.');
            } else {
                let q = choose|q: int|
                    0 <= q < body.len() && is_exp_marker(#[trigger] body[q]) && is_mantissa(
                        body.take(q),
                    ) && is_exponent_digits(body.skip(q + 1));
                if q < w {
                    assert(body[q] == cs@[from + q]);
                } else if q > w {
                    lemma_mantissa_chars(body.take(q));
                    assert(body.take(q)[w] == body[w]);
                }
            }
        }
    }
    r
}

/// Whether `cs[from..to]` is one of the words `inf`, `infinity`, `nan`, ignoring case.
fn check_special_word(cs: &Vec<char>, from: usize, to: usize) -> (r: bool)
    requires
        from <= to <= cs@.len(),
    ensures
        r == ({
            let b = cs@.subrange(from as int, to as int);
            ||| ci_equal(b, seq!['i', 'n', 'f'])
            ||| ci_equal(b, seq!['i', 'n', 'f', 'i', 'n', 'i', 't', 'y'])
            ||| ci_equal(b, seq!['n', 'a', 'n'])
        }),
{
    let inf = vec!['i', 'n', 'f'];
    let infinity = vec!['i', 'n', 'f', 'i', 'n', 'i', 't', 'y'];
    let nan = vec!['n', 'a', 'n'];
    assert(inf@ =~= seq!['i', 'n', 'f']);
    assert(infinity@ =~= seq!['i', 'n', 'f', 'i', 'n', 'i', 't', 'y']);
    assert(nan@ =~= seq!['n', 'a', 'n']);
    check_word(cs, from, to, &inf) || check_word(cs, from, to, &infinity) || check_word(
        cs,
        from,
        to,
        &nan,
    )
}

/// Whether `s` is text that `f64::from_str` accepts.
pub fn text_parses_as_f64(s: &str) -> (r: bool)
    ensures
        r == parses_as_f64(s@),
{
    let cs = text_chars(s);
    let n = cs.len();
    let mut start: usize = 0;
    if n > 0 && (cs[0] == '+' || cs[0] == '-') {
        start = 1;
    }
    assert(unsigned_part(cs@) =~= cs@.subrange(start as int, n as int));
    check_special_word(&cs, start, n) || check_number(&cs, start, n)
}

/// The characters of `s` as a vector (a thin alias kept local to this module).
fn text_chars(s: &str) -> (v: Vec<char>)
    ensures
        v@ == s@,
{
    crate::text::chars_of(s)
}

}
