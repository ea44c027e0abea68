//! Decimal literals: the numbers of a profile, kept as they are written.
//!
//! A number is held as its text, so that nothing is lost between reading a
//! profile and writing it back. The accepted texts are those that the Rust
//! standard library reads as a floating-point number.

use crate::text::{is_ascii_text, is_token};
use vstd::prelude::*;
use vstd::string::StringSliceAdditionalSpecFns;

verus! {

/// The upper-case form of a byte: a small ASCII letter becomes its capital, any
/// other byte stays.
pub open spec fn upper(b: u8) -> u8 {
    if 0x61 <= b && b <= 0x7a {
        (b - 0x20) as u8
    } else {
        b
    }
}

/// `s` with every byte in upper case.
pub open spec fn upper_seq(s: Seq<u8>) -> Seq<u8> {
    Seq::new(s.len(), |i: int| upper(s[i]))
}

/// The bytes of a text that holds ASCII characters only.
pub open spec fn ascii_bytes(w: Seq<char>) -> Seq<u8> {
    Seq::new(w.len(), |i: int| w[i] as u8)
}

/// The text that holds the ASCII characters `b`.
pub open spec fn text_of(b: Seq<u8>) -> Seq<char> {
    Seq::new(b.len(), |i: int| b[i] as char)
}

/// Whether `s`, ASCII letter case aside, is the word `word` (given in
/// capitals).
pub open spec fn is_ascii_word(s: Seq<u8>, word: Seq<char>) -> bool {
    upper_seq(s) == ascii_bytes(word)
}

/// A decimal digit.
pub open spec fn is_digit(b: u8) -> bool {
    0x30 <= b && b <= 0x39
}

/// A plus or a minus sign.
pub open spec fn is_sign(b: u8) -> bool {
    b == 0x2b || b == 0x2d
}

/// The index at which the run of digits that starts at `i` ends.
pub open spec fn digits_end(s: Seq<u8>, i: int) -> int
    decreases s.len() - i,
{
    if i < 0 || i >= s.len() || !is_digit(s[i]) {
        i
    } else {
        digits_end(s, i + 1)
    }
}

/// The index after the sign at `i`, or `i` where no sign stands there.
pub open spec fn sign_end(s: Seq<u8>, i: int) -> int {
    if 0 <= i < s.len() && is_sign(s[i]) {
        i + 1
    } else {
        i
    }
}

/// Whether a decimal point stands at `i`.
pub open spec fn point_at(s: Seq<u8>, i: int) -> bool {
    0 <= i < s.len() && s[i] == 0x2e
}

/// The index at which the digits and the point of a number that starts at `i` end.
pub open spec fn mantissa_end(s: Seq<u8>, i: int) -> int {
    let a = digits_end(s, i);
    if point_at(s, a) {
        digits_end(s, a + 1)
    } else {
        a
    }
}

/// The number of digits in the digits and the point of a number that starts at `i`.
pub open spec fn mantissa_digits(s: Seq<u8>, i: int) -> int {
    let a = digits_end(s, i);
    if point_at(s, a) {
        mantissa_end(s, i) - i - 1
    } else {
        a - i
    }
}

/// Whether `s` from `i` on is an exponent: the letter `e`, small or capital, an
/// optional sign, and one digit or more up to the end of `s`.
pub open spec fn is_exponent(s: Seq<u8>, i: int) -> bool {
    let c = sign_end(s, i + 1);
    &&& 0 <= i < s.len()
    &&& upper(s[i]) == 0x45
    &&& c < digits_end(s, c)
    &&& digits_end(s, c) == s.len()
}

/// Whether `s` from `i` on is a decimal number: digits with at most one point
/// among them, before them or after them, at least one digit, and then the end
/// of `s` or an exponent.
pub open spec fn is_decimal(s: Seq<u8>, i: int) -> bool {
    let b = mantissa_end(s, i);
    &&& mantissa_digits(s, i) > 0
    &&& (b == s.len() || is_exponent(s, b))
}

/// Whether `s` is a number as a profile writes it: an optional sign, and then a
/// decimal number or, letter case aside, one of the words `inf`, `infinity` and
/// `nan`.
pub open spec fn is_float_literal(s: Seq<u8>) -> bool {
    let i = sign_end(s, 0);
    ||| is_decimal(s, i)
    ||| is_ascii_word(s.skip(i), "INF"@)
    ||| is_ascii_word(s.skip(i), "INFINITY"@)
    ||| is_ascii_word(s.skip(i), "NAN"@)
}

/// A run of digits ends at or after its start and within the text, holds digits
/// only, and is followed by no digit.
pub proof fn lemma_digits_end_bounds(s: Seq<u8>, i: int)
    requires
        0 <= i <= s.len(),
    ensures
        i <= digits_end(s, i) <= s.len(),
        digits_end(s, i) < s.len() ==> !is_digit(s[digits_end(s, i)]),
        forall|k: int| i <= k < digits_end(s, i) ==> is_digit(#[trigger] s[k]),
    decreases s.len() - i,
{
    if i < s.len() && is_digit(s[i]) {
        lemma_digits_end_bounds(s, i + 1);
    }
}

/// If every byte of `s` from `i` up to `j` is a digit, the run of digits that
/// starts at `i` ends where the run that starts at `j` ends.
pub proof fn lemma_digits_end_skip(s: Seq<u8>, i: int, j: int)
    requires
        0 <= i <= j <= s.len(),
        forall|k: int| i <= k < j ==> is_digit(#[trigger] s[k]),
    ensures
        digits_end(s, i) == digits_end(s, j),
    decreases j - i,
{
    if i < j {
        lemma_digits_end_skip(s, i + 1, j);
    }
}

/// A number as a profile writes it is not empty, and each of its bytes is a
/// sign, a point, a digit or an ASCII letter.
pub proof fn lemma_literal_bytes(s: Seq<u8>)
    requires
        is_float_literal(s),
    ensures
        s.len() > 0,
        forall|k: int| 0 <= k < s.len() ==> 0x2b <= #[trigger] s[k] <= 0x7a,
{
    reveal_strlit("INF");
    reveal_strlit("INFINITY");
    reveal_strlit("NAN");
    let i = sign_end(s, 0);
    let r = s.skip(i);
    if is_decimal(s, i) {
        let a = digits_end(s, i);
        lemma_digits_end_bounds(s, i);
        if point_at(s, a) {
            lemma_digits_end_bounds(s, a + 1);
        }
        let b = mantissa_end(s, i);
        if b < s.len() {
            let c = sign_end(s, b + 1);
            lemma_digits_end_bounds(s, c);
        }
        assert forall|k: int| 0 <= k < s.len() implies 0x2b <= #[trigger] s[k] <= 0x7a by {
            if k < i {
            } else if k < a {
            } else if k < b {
            } else if k == b {
            } else {
            }
        }
    } else {
        let w = if is_ascii_word(r, "INF"@) {
            "INF"@
        } else if is_ascii_word(r, "INFINITY"@) {
            "INFINITY"@
        } else {
            "NAN"@
        };
        assert(upper_seq(r) == ascii_bytes(w));
        assert(r.len() == w.len());
        assert forall|k: int| 0 <= k < s.len() implies 0x2b <= #[trigger] s[k] <= 0x7a by {
            if k >= i {
                assert(upper_seq(r)[k - i] == ascii_bytes(w)[k - i]);
                assert(r[k - i] == s[k]);
            }
        }
    }
}

/// Whether the text `t` is a number as a profile writes it: whether it holds
/// ASCII characters only and they form such a number.
pub open spec fn is_float_text(t: Seq<char>) -> bool {
    is_ascii_text(t) && is_float_literal(ascii_bytes(t))
}

/// The text of a number can stand as a token, and is read as the number
/// that it is the text of.
pub proof fn lemma_literal_text(b: Seq<u8>)
    requires
        is_float_literal(b),
    ensures
        is_token(text_of(b)),
        is_ascii_text(text_of(b)),
        ascii_bytes(text_of(b)) == b,
        is_float_text(text_of(b)),
{
    lemma_literal_bytes(b);
    let t = text_of(b);
    assert forall|k: int| 0 <= k < t.len() implies (#[trigger] t[k]) as u32 == b[k] by {}
    assert(ascii_bytes(t) =~= b);
}

/// Whether `token`, ASCII letter case aside, is the word `word`.
fn eq_word(token: &[u8], word: &str) -> (r: bool)
    requires
        word.is_ascii(),
    ensures
        r == is_ascii_word(token@, word@),
{
    let w = word.as_bytes();
    proof {
        vstd::string::is_ascii_spec_bytes(word);
    }
    if token.len() != w.len() {
        return false;
    }
    let mut i: usize = 0;
    while i < token.len()
        invariant
            i <= token.len(),
            token.len() == w.len(),
            w@ == ascii_bytes(word@),
            forall|k: int| 0 <= k < i ==> upper(token@[k]) == w@[k],
        decreases token.len() - i,
    {
        if upper_byte(token[i]) != w[i] {
            assert(upper_seq(token@)[i as int] != ascii_bytes(word@)[i as int]);
            return false;
        }
        i += 1;
    }
    assert(upper_seq(token@) =~= ascii_bytes(word@));
    true
}

/// The byte of an ASCII character; `None` for any other character.
fn ascii_byte(c: char) -> (r: Option<u8>)
    ensures
        r is Some == (c as u32 <= 0x7f),
        r matches Some(b) ==> b == c as u8,
{
    let n = c as u32;
    if n <= 0x7f {
        Some(n as u8)
    } else {
        None
    }
}

/// The upper-case form of a byte.
fn upper_byte(b: u8) -> (r: u8)
    ensures
        r == upper(b),
{
    if 0x61 <= b && b <= 0x7a {
        b - 0x20
    } else {
        b
    }
}

/// The index at which the run of digits of `s` that starts at `i` ends.
fn scan_digits(s: &[u8], i: usize) -> (j: usize)
    requires
        i <= s.len(),
    ensures
        j == digits_end(s@, i as int),
        i <= j <= s.len(),
{
    let mut j: usize = i;
    while j < s.len() && 0x30 <= s[j] && s[j] <= 0x39
        invariant
            i <= j <= s.len(),
            forall|k: int| i <= k < j ==> is_digit(#[trigger] s@[k]),
        decreases s.len() - j,
    {
        j += 1;
    }
    proof {
        lemma_digits_end_skip(s@, i as int, j as int);
    }
    j
}

/// The index after the sign of `s` at `i`, or `i` where no sign stands there.
fn scan_sign(s: &[u8], i: usize) -> (j: usize)
    requires
        i <= s.len(),
    ensures
        j == sign_end(s@, i as int),
        i <= j <= s.len(),
{
    if i < s.len() && (s[i] == 0x2b || s[i] == 0x2d) {
        i + 1
    } else {
        i
    }
}

/// Whether `s` from `i` on is a decimal number.
fn scan_decimal(s: &[u8], i: usize) -> (r: bool)
    requires
        i <= s.len(),
    ensures
        r == is_decimal(s@, i as int),
{
    let a = scan_digits(s, i);
    let point = a < s.len() && s[a] == 0x2e;
    let b = if point {
        scan_digits(s, a + 1)
    } else {
        a
    };
    let digits = if point {
        b - i - 1
    } else {
        a - i
    };
    if digits == 0 {
        return false;
    }
    if b == s.len() {
        return true;
    }
    if upper_byte(s[b]) != 0x45 {
        return false;
    }
    let c = scan_sign(s, b + 1);
    let d = scan_digits(s, c);
    c < d && d == s.len()
}

/// Whether `s` is a number as a profile writes it.
pub fn is_float(s: &[u8]) -> (r: bool)
    ensures
        r == is_float_literal(s@),
{
    let i = scan_sign(s, 0);
    if scan_decimal(s, i) {
        return true;
    }
    let rest = vstd::slice::slice_subrange(s, i, s.len());
    proof {
        reveal_strlit("INF");
        reveal_strlit("INFINITY");
        reveal_strlit("NAN");
    }
    eq_word(rest, "INF") || eq_word(rest, "INFINITY") || eq_word(rest, "NAN")
}

/// A number of a profile, kept as the decimal literal that wrote it.
#[derive(Debug, PartialEq, Eq)]
pub struct Number {
    text: Vec<u8>,
}

impl View for Number {
    type V = Seq<u8>;

    /// The bytes of the literal.
    closed spec fn view(&self) -> Seq<u8> {
        self.text@
    }
}

impl Number {
    /// What holds of every number: its text is a number as a profile writes it.
    #[verifier::type_invariant]
    pub open spec fn well_formed(&self) -> bool {
        is_float_literal(self@)
    }

    /// Reads `text` as a number: `Some` where `text` is a number as a profile
    /// writes it, `None` where it is not.
    pub fn from_bytes(text: &[u8]) -> (r: Option<Number>)
        ensures
            r.is_some() == is_float_literal(text@),
            r matches Some(n) ==> n@ == text@,
    {
        if is_float(text) {
            Some(Number { text: vstd::slice::slice_to_vec(text) })
        } else {
            None
        }
    }

    /// Reads the characters `text` as a number: `Some` where they are ASCII
    /// characters that form a number as a profile writes it, `None` where they
    /// are not.
    pub fn from_chars(text: &[char]) -> (r: Option<Number>)
        ensures
            r.is_some() == is_float_text(text@),
            r matches Some(n) ==> n@ == ascii_bytes(text@),
    {
        let mut bytes: Vec<u8> = Vec::new();
        let mut i: usize = 0;
        while i < text.len()
            invariant
                i <= text.len(),
                bytes@.len() == i,
                forall|k: int| 0 <= k < i ==> (#[trigger] text@[k]) as u32 <= 0x7f,
                forall|k: int| 0 <= k < i ==> bytes@[k] == text@[k] as u8,
            decreases text.len() - i,
        {
            match ascii_byte(text[i]) {
                Some(b) => {
                    bytes.push(b);
                },
                None => {
                    return None;
                },
            }
            i += 1;
        }
        assert(bytes@ =~= ascii_bytes(text@));
        Number::from_bytes(bytes.as_slice())
    }

    /// The characters of the literal.
    pub fn chars(&self) -> (r: Vec<char>)
        ensures
            r@ == text_of(self@),
    {
        let mut out: Vec<char> = Vec::new();
        let mut i: usize = 0;
        while i < self.text.len()
            invariant
                i <= self.text.len(),
                out@.len() == i,
                forall|k: int| 0 <= k < i ==> out@[k] == self.text@[k] as char,
            decreases self.text.len() - i,
        {
            out.push(self.text[i] as char);
            i += 1;
        }
        assert(out@ =~= text_of(self@));
        out
    }

    /// Reads `text` as a number, as [`Number::from_bytes`] does with its bytes.
    pub fn parse(text: &str) -> (r: Option<Number>)
        ensures
            r.is_some() == is_float_literal(text.spec_bytes()),
            r matches Some(n) ==> n@ == text.spec_bytes(),
    {
        Number::from_bytes(text.as_bytes())
    }

    /// The literal of a text that is known to be a number.
    pub(crate) fn constant(text: &str) -> (r: Number)
        requires
            text.is_ascii(),
            is_float_literal(ascii_bytes(text@)),
        ensures
            r@ == ascii_bytes(text@),
    {
        proof {
            vstd::string::is_ascii_spec_bytes(text);
        }
        Number { text: vstd::slice::slice_to_vec(text.as_bytes()) }
    }

    /// The bytes of the literal. They always form a number as a profile writes it.
    pub fn as_bytes(&self) -> (r: &[u8])
        ensures
            r@ == self@,
            is_float_literal(self@),
    {
        proof {
            use_type_invariant(self);
        }
        self.text.as_slice()
    }
}

impl Clone for Number {
    fn clone(&self) -> (r: Self)
        ensures
            r@ == self@,
    {
        proof {
            use_type_invariant(self);
        }
        Number { text: self.text.clone() }
    }
}

} // verus!
