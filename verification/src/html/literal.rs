//! The literal evaluator: from a literal token to the text it contributes.
//!
//! `syn` reads the literal (its kind, the value of a string, the digits of a number);
//! what is done with that reading is decided here.

use crate::escape::{escape_char, escape_string, escaped};
use crate::html::syntax::{MarkupLit, MarkupLitView};
use vstd::prelude::*;
use vstd::string::*;

verus! {

/// What a literal token denotes.
#[derive(Debug, PartialEq, Eq)]
pub enum LitValue {
    /// A string literal and the text it stands for.
    Str(String),
    /// A byte string literal and its bytes.
    ByteStr(Vec<u8>),
    /// A byte literal.
    Byte(u8),
    /// A character literal.
    Char(char),
    /// An integer literal and its value in decimal digits.
    Int(String),
    /// A floating-point literal and its digits, without underscores and suffix.
    Float(String),
    /// `true` or `false`.
    Bool(bool),
    /// Anything else.
    Other,
}

pub enum LitValueView {
    Str(Seq<char>),
    ByteStr(Seq<u8>),
    Byte(u8),
    Char(char),
    Int(Seq<char>),
    Float(Seq<char>),
    Bool(bool),
    Other,
}

impl View for LitValue {
    type V = LitValueView;

    open spec fn view(&self) -> LitValueView {
        match self {
            LitValue::Str(s) => LitValueView::Str(s@),
            LitValue::ByteStr(b) => LitValueView::ByteStr(b@),
            LitValue::Byte(b) => LitValueView::Byte(*b),
            LitValue::Char(c) => LitValueView::Char(*c),
            LitValue::Int(d) => LitValueView::Int(d@),
            LitValue::Float(d) => LitValueView::Float(d@),
            LitValue::Bool(b) => LitValueView::Bool(*b),
            LitValue::Other => LitValueView::Other,
        }
    }
}

/// How `syn` reads the literal written as `repr`.
pub uninterp spec fn literal_value(repr: Seq<char>) -> LitValueView;

/// The text that `String::from_utf8_lossy` decodes from `bytes`.
pub uninterp spec fn utf8_lossy(bytes: Seq<u8>) -> Seq<char>;

/// Parses `repr` with `proc_macro2::Literal::from_str` and reads it with `syn::Lit::new`:
/// the kind of literal, and with it `value()` of a string, byte string, byte or character
/// literal, `base10_digits()` of a number, `value` of a boolean. A text that is no
/// literal, and a kind not listed, give `Other`. The contract names the reading.
#[verifier::external_body]
pub(crate) fn read_literal(repr: &str) -> (out: LitValue)
    ensures
        out@ == literal_value(repr@),
{
    let Ok(token) = repr.parse::<proc_macro2::Literal>() else {
        return LitValue::Other;
    };
    match syn::Lit::new(token) {
        syn::Lit::Str(s) => LitValue::Str(s.value()),
        syn::Lit::ByteStr(s) => LitValue::ByteStr(s.value()),
        syn::Lit::Byte(b) => LitValue::Byte(b.value()),
        syn::Lit::Char(c) => LitValue::Char(c.value()),
        syn::Lit::Int(i) => LitValue::Int(i.base10_digits().to_string()),
        syn::Lit::Float(f) => LitValue::Float(f.base10_digits().to_string()),
        syn::Lit::Bool(b) => LitValue::Bool(b.value),
        _ => LitValue::Other,
    }
}

/// Calls `String::from_utf8_lossy`, which decodes UTF-8 and puts U+FFFD in place of
/// what is not valid. The contract names the decoded text.
#[verifier::external_body]
pub(crate) fn decode_lossy(bytes: &Vec<u8>) -> (out: String)
    ensures
        out@ == utf8_lossy(bytes@),
{
    String::from_utf8_lossy(bytes).into_owned()
}

/// Is `c` a decimal digit?
pub open spec fn is_digit(c: char) -> bool {
    '0' <= c && c <= '9'
}

/// Are all characters of `s` decimal digits?
pub open spec fn all_digits(s: Seq<char>) -> bool {
    forall|i: int| 0 <= i < s.len() ==> is_digit(#[trigger] s[i])
}

/// The index of the first `.` at or behind `from`; the length of `s` if there is none.
pub open spec fn dot_index(s: Seq<char>, from: int) -> int
    decreases s.len() - from,
{
    if 0 <= from < s.len() {
        if s[from] == '.' {
            from
        } else {
            dot_index(s, from + 1)
        }
    } else {
        s.len() as int
    }
}

/// The index, at or behind `from`, of the first character of `s` that is no `0` or is
/// the last one.
pub open spec fn first_significant(s: Seq<char>, from: int) -> int
    decreases s.len() - from,
{
    if 0 <= from && from + 1 < s.len() && s[from] == '0' {
        first_significant(s, from + 1)
    } else {
        from
    }
}

/// The length of `s` up to `to` without the zeros at its end.
pub open spec fn last_significant(s: Seq<char>, to: int) -> int
    decreases to,
{
    if 0 < to <= s.len() && s[to - 1] == '0' {
        last_significant(s, to - 1)
    } else {
        to
    }
}

/// The part of the digits in front of the `.`.
pub open spec fn whole_part(digits: Seq<char>) -> Seq<char> {
    digits.subrange(0, dot_index(digits, 0))
}

/// The part of the digits behind the `.`; empty where there is no `.`.
pub open spec fn fraction_part(digits: Seq<char>) -> Seq<char> {
    if dot_index(digits, 0) < digits.len() {
        digits.subrange(dot_index(digits, 0) + 1, digits.len() as int)
    } else {
        Seq::empty()
    }
}

/// The decimal text of a floating-point literal's digits: the digits in front of the `.`
/// without needless zeros in front of them, and, where any are left, a `.` and the digits
/// behind it without the zeros at their end. The digits are kept as written, and nothing
/// is rounded. `None` where the digits have an exponent or a sign.
pub open spec fn decimal_text(digits: Seq<char>) -> Option<Seq<char>> {
    let whole = whole_part(digits);
    let fraction = fraction_part(digits);
    if whole.len() > 0 && all_digits(whole) && all_digits(fraction) {
        let front = whole.subrange(first_significant(whole, 0), whole.len() as int);
        let back = fraction.subrange(0, last_significant(fraction, fraction.len() as int));
        if back.len() > 0 {
            Some(front + seq!['.'] + back)
        } else {
            Some(front)
        }
    } else {
        None
    }
}

/// The characters of a text.
pub fn to_chars(text: &str) -> (out: Vec<char>)
    ensures
        out@ == text@,
{
    let mut out: Vec<char> = Vec::new();
    for c in it: text.chars()
        invariant
            it.seq() == text@,
            out@ == text@.take(it.index()),
    {
        out.push(c);
        assert(out@ =~= text@.take(it.index() + 1));
    }
    assert(text@.take(text@.len() as int) =~= text@);
    out
}

/// Puts the characters of `chars` from `from` up to `to` behind what `out` holds.
fn push_range(out: &mut String, chars: &Vec<char>, from: usize, to: usize)
    requires
        from <= to <= chars.len(),
    ensures
        final(out)@ == old(out)@ + chars@.subrange(from as int, to as int),
{
    let mut i: usize = from;
    assert(out@ =~= old(out)@ + chars@.subrange(from as int, from as int));
    while i < to
        invariant
            from <= i <= to <= chars.len(),
            out@ == old(out)@ + chars@.subrange(from as int, i as int),
        decreases to - i,
    {
        out.push(chars[i]);
        assert(out@ =~= old(out)@ + chars@.subrange(from as int, i + 1));
        i += 1;
    }
}

/// The decimal text of a floating-point literal's digits.
#[verifier::loop_isolation(false)]
pub fn float_text(digits: &String) -> (out: Option<String>)
    ensures
        match out {
            Some(text) => decimal_text(digits@) == Some(text@),
            None => decimal_text(digits@) is None,
        },
{
    let chars = to_chars(digits.as_str());
    let ghost s = chars@;
    let n = chars.len();
    let mut dot: usize = 0;
    while dot < n && chars[dot] != '.'
        invariant
            dot <= n,
            n == chars.len(),
            s == chars@,
            dot_index(s, 0) == dot_index(s, dot as int),
        decreases n - dot,
    {
        dot += 1;
    }
    assert(dot_index(s, 0) == dot);
    let ghost whole = whole_part(s);
    let ghost fraction = fraction_part(s);
    if dot == 0 {
        return None;
    }
    let mut i: usize = 0;
    while i < n
        invariant
            i <= n,
            dot <= n,
            n == chars.len(),
            s == chars@,
            forall|k: int| 0 <= k < i && k != dot ==> is_digit(#[trigger] s[k]),
        decreases n - i,
    {
        if i != dot && !(chars[i] >= '0' && chars[i] <= '9') {
            proof {
                if i < dot {
                    assert(whole[i as int] == s[i as int]);
                } else {
                    assert(fraction[i - dot - 1] == s[i as int]);
                }
            }
            return None;
        }
        i += 1;
    }
    proof {
        assert forall|k: int| 0 <= k < whole.len() implies is_digit(#[trigger] whole[k]) by {
            assert(whole[k] == s[k]);
        }
        assert forall|k: int| 0 <= k < fraction.len() implies is_digit(
            #[trigger] fraction[k],
        ) by {
            assert(fraction[k] == s[k + dot + 1]);
        }
    }
    let mut first: usize = 0;
    while first + 1 < dot && chars[first] == '0'
        invariant
            first < dot <= n,
            n == chars.len(),
            s == chars@,
            whole == s.subrange(0, dot as int),
            first_significant(whole, 0) == first_significant(whole, first as int),
        decreases dot - first,
    {
        first += 1;
    }
    assert(first_significant(whole, 0) == first);
    let start: usize = if dot < n {
        dot + 1
    } else {
        n
    };
    let mut last: usize = n;
    assert(fraction =~= s.subrange(start as int, n as int));
    while last > start && chars[last - 1] == '0'
        invariant
            start <= last <= n,
            n == chars.len(),
            s == chars@,
            fraction == s.subrange(start as int, n as int),
            last_significant(fraction, fraction.len() as int) == last_significant(
                fraction,
                last - start,
            ),
        decreases last,
    {
        last -= 1;
    }
    assert(last_significant(fraction, fraction.len() as int) == last - start);
    let mut out = String::new();
    push_range(&mut out, &chars, first, dot);
    assert(out@ =~= whole.subrange(first as int, whole.len() as int));
    if last > start {
        out.push('.');
        push_range(&mut out, &chars, start, last);
        assert(out@ =~= whole.subrange(first as int, whole.len() as int) + seq!['.']
            + fraction.subrange(0, last - start));
    }
    Some(out)
}

/// The text that a literal with the reading `value` contributes to the output: a string,
/// byte string, byte or character escaped; a number by its digits; a boolean by its word.
/// `None` for a literal that has no text.
pub open spec fn value_text(value: LitValueView) -> Option<Seq<char>> {
    match value {
        LitValueView::Str(s) => Some(escaped(s)),
        LitValueView::ByteStr(b) => Some(escaped(utf8_lossy(b))),
        LitValueView::Byte(b) => Some(escape_char(b as char)),
        LitValueView::Char(c) => Some(escape_char(c)),
        LitValueView::Int(d) => Some(d),
        LitValueView::Float(d) => decimal_text(d),
        LitValueView::Bool(b) => Some(
            if b {
                seq!['t', 'r', 'u', 'e']
            } else {
                seq!['f', 'a', 'l', 's', 'e']
            },
        ),
        LitValueView::Other => None,
    }
}

/// The digits that a literal with the reading `value` contributes behind a minus sign:
/// those of an integer or floating-point literal, and no other literal may stand there.
pub open spec fn value_digits(value: LitValueView) -> Option<Seq<char>> {
    match value {
        LitValueView::Int(d) => Some(d),
        LitValueView::Float(d) => Some(d),
        _ => None,
    }
}

/// The escaped text of the one character `c`.
pub fn escape_one(c: char) -> (out: String)
    ensures
        out@ == escape_char(c),
{
    let mut s = String::new();
    s.push(c);
    let out = escape_string(s.as_str());
    proof {
        reveal_with_fuel(escaped, 2);
        assert(s@.drop_last() =~= Seq::<char>::empty());
        assert(escaped(s@) =~= escape_char(c));
    }
    out
}

impl LitValue {
    /// The text fragment for this reading of a literal, if it has one.
    pub fn text(&self) -> (out: Option<String>)
        ensures
            match out {
                Some(text) => value_text(self@) == Some(text@),
                None => value_text(self@) is None,
            },
    {
        match self {
            LitValue::Str(s) => Some(escape_string(s.as_str())),
            LitValue::ByteStr(b) => {
                let decoded = decode_lossy(b);
                Some(escape_string(decoded.as_str()))
            },
            LitValue::Byte(b) => Some(escape_one(*b as char)),
            LitValue::Char(c) => Some(escape_one(*c)),
            LitValue::Int(d) => Some(d.clone()),
            LitValue::Float(d) => float_text(d),
            LitValue::Bool(b) => {
                if *b {
                    proof {
                        reveal_strlit("true");
                    }
                    assert("true"@ =~= seq!['t', 'r', 'u', 'e']);
                    Some(String::from_str("true"))
                } else {
                    proof {
                        reveal_strlit("false");
                    }
                    assert("false"@ =~= seq!['f', 'a', 'l', 's', 'e']);
                    Some(String::from_str("false"))
                }
            },
            LitValue::Other => None,
        }
    }

    /// The digits for this reading of a literal behind a minus sign, if it is a number.
    pub fn digits(&self) -> (out: Option<String>)
        ensures
            match out {
                Some(text) => value_digits(self@) == Some(text@),
                None => value_digits(self@) is None,
            },
    {
        match self {
            LitValue::Int(d) => Some(d.clone()),
            LitValue::Float(d) => Some(d.clone()),
            _ => None,
        }
    }
}

/// The fragment for the literal written as `repr`, where it has a text.
pub open spec fn literal_fragment(repr: Seq<char>) -> Option<MarkupLitView> {
    match value_text(literal_value(repr)) {
        Some(text) => Some(MarkupLitView::Basic(text)),
        None => None,
    }
}

/// The fragment for the number written as `repr` behind a minus sign.
pub open spec fn negative_fragment(repr: Seq<char>) -> Option<MarkupLitView> {
    match value_digits(literal_value(repr)) {
        Some(digits) => Some(MarkupLitView::NegativeNumber(digits)),
        None => None,
    }
}

impl MarkupLit {
    /// Evaluates the literal written as `repr`; `None` where it has no text.
    pub fn from_literal(repr: &str) -> (out: Option<MarkupLit>)
        ensures
            match out {
                Some(lit) => literal_fragment(repr@) == Some(lit@),
                None => literal_fragment(repr@) is None,
            },
    {
        match read_literal(repr).text() {
            Some(text) => Some(MarkupLit::Basic(text)),
            None => None,
        }
    }

    /// Evaluates the number written as `repr` behind a minus sign; `None` where `repr` is
    /// no integer or floating-point literal.
    pub fn negative(repr: &str) -> (out: Option<MarkupLit>)
        ensures
            match out {
                Some(lit) => negative_fragment(repr@) == Some(lit@),
                None => negative_fragment(repr@) is None,
            },
    {
        match read_literal(repr).digits() {
            Some(digits) => Some(MarkupLit::NegativeNumber(digits)),
            None => None,
        }
    }
}

} // verus!
