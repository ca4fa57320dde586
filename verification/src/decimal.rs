//! Decimals, and the questions about them that the host answers.
//!
//! A decimal is carried as the 64 bits of an IEEE 754 double. Nothing here
//! computes with one: what an operation on decimals gives is looked up in
//! a `Ledger` of answers that the host has recorded. Where the answer is
//! missing, the work stops with the question (`Error::NeedsDecimal`); the
//! host computes the answer, records it, and has the work done again.
//! Everything is a function of the ledger, so the second run takes the
//! first one's way as far as that went (`replay` proves it).

use crate::integer::is_digit;
use crate::integer::Integer;
use vstd::prelude::*;

verus! {

/// A decimal number, as the bits of a double.
#[derive(Clone, Copy, Debug, PartialEq, Eq, Structural)]
pub struct Decimal {
    pub bits: u64,
}

/// The operators of arithmetic and comparison.
#[derive(Clone, Copy, Debug, PartialEq, Eq, Structural)]
pub enum NumericOp {
    Add,
    Sub,
    Mul,
    Div,
    Mod,
    Pow,
    Gt,
    Lt,
    Eq,
    Gte,
    Lte,
}

impl NumericOp {
    /// Whether the operator compares, and so gives a truth value.
    pub open spec fn compares(self) -> bool {
        self is Gt || self is Lt || self is Eq || self is Gte || self is Lte
    }

    /// Whether the operator compares, and so gives a truth value.
    #[verifier::when_used_as_spec(compares)]
    pub fn is_comparison(self) -> (r: bool)
        ensures
            r == self.compares(),
    {
        match self {
            NumericOp::Gt | NumericOp::Lt | NumericOp::Eq | NumericOp::Gte | NumericOp::Lte => true,
            _ => false,
        }
    }
}

/// A question to the host.
#[derive(Debug, PartialEq, Eq)]
pub enum DecimalQuery {
    /// Which decimal this text is written for.
    Literal(String),
    /// Which decimal is nearest to this integer.
    FromInteger(Integer),
    /// What the operator gives of the two decimals: a decimal for
    /// arithmetic, a truth value for a comparison.
    Combine(NumericOp, Decimal, Decimal),
    /// How the decimal is written.
    Display(Decimal),
}

/// A question to the host, as a mathematical value.
pub enum DecimalQueryView {
    Literal(Seq<char>),
    FromInteger(int),
    Combine(NumericOp, Decimal, Decimal),
    Display(Decimal),
}

impl View for DecimalQuery {
    type V = DecimalQueryView;

    open spec fn view(&self) -> DecimalQueryView {
        match self {
            DecimalQuery::Literal(text) => DecimalQueryView::Literal(text@),
            DecimalQuery::FromInteger(n) => DecimalQueryView::FromInteger(n@),
            DecimalQuery::Combine(op, a, b) => DecimalQueryView::Combine(*op, *a, *b),
            DecimalQuery::Display(d) => DecimalQueryView::Display(*d),
        }
    }
}

impl Clone for DecimalQuery {
    fn clone(&self) -> (r: Self)
        ensures
            r@ == self@,
    {
        match self {
            DecimalQuery::Literal(text) => DecimalQuery::Literal(text.clone()),
            DecimalQuery::FromInteger(n) => DecimalQuery::FromInteger(n.clone()),
            DecimalQuery::Combine(op, a, b) => DecimalQuery::Combine(*op, *a, *b),
            DecimalQuery::Display(d) => DecimalQuery::Display(*d),
        }
    }
}

impl DecimalQuery {
    /// Whether the two ask the same.
    pub fn same(&self, other: &DecimalQuery) -> (r: bool)
        ensures
            r == (self@ == other@),
    {
        match (self, other) {
            (DecimalQuery::Literal(a), DecimalQuery::Literal(b)) => *a == *b,
            (DecimalQuery::FromInteger(a), DecimalQuery::FromInteger(b)) => a.same(b),
            (DecimalQuery::Combine(op, a, b), DecimalQuery::Combine(op2, a2, b2)) => {
                *op == *op2 && a.bits == a2.bits && b.bits == b2.bits
            },
            (DecimalQuery::Display(a), DecimalQuery::Display(b)) => a.bits == b.bits,
            _ => false,
        }
    }
}

/// An answer of the host.
#[derive(Debug, PartialEq, Eq)]
pub enum DecimalAnswer {
    /// The decimal asked for.
    Number(Decimal),
    /// The result of a comparison.
    Truth(bool),
    /// The way a decimal is written.
    Text(String),
    /// There is no such decimal.
    Impossible,
}

/// An answer of the host, as a mathematical value.
pub enum DecimalAnswerView {
    Number(Decimal),
    Truth(bool),
    Text(Seq<char>),
    Impossible,
}

impl View for DecimalAnswer {
    type V = DecimalAnswerView;

    open spec fn view(&self) -> DecimalAnswerView {
        match self {
            DecimalAnswer::Number(d) => DecimalAnswerView::Number(*d),
            DecimalAnswer::Truth(b) => DecimalAnswerView::Truth(*b),
            DecimalAnswer::Text(text) => DecimalAnswerView::Text(text@),
            DecimalAnswer::Impossible => DecimalAnswerView::Impossible,
        }
    }
}

/// The answers that a list of records gives: of two records of one
/// question the later counts.
pub open spec fn answers_of(entries: Seq<(DecimalQuery, DecimalAnswer)>) -> Map<
    DecimalQueryView,
    DecimalAnswerView,
>
    decreases entries.len(),
{
    if entries.len() == 0 {
        Map::empty()
    } else {
        answers_of(entries.drop_last()).insert(entries.last().0@, entries.last().1@)
    }
}

/// A question that no record from `from` on asks is answered by the
/// records before `from` alone.
proof fn lemma_answers_before(
    entries: Seq<(DecimalQuery, DecimalAnswer)>,
    query: DecimalQueryView,
    from: int,
)
    requires
        0 <= from <= entries.len(),
        forall|j: int| from <= j < entries.len() ==> (#[trigger] entries[j]).0@ != query,
    ensures
        answers_of(entries).contains_key(query) == answers_of(entries.take(from)).contains_key(
            query,
        ),
        answers_of(entries).contains_key(query) ==> answers_of(entries)[query] == answers_of(
            entries.take(from),
        )[query],
    decreases entries.len(),
{
    if from == entries.len() {
        assert(entries.take(from) == entries);
    } else {
        let init = entries.drop_last();
        assert(entries.last() == entries[entries.len() - 1]);
        assert forall|j: int| from <= j < init.len() implies (#[trigger] init[j]).0@ != query by {
            assert(init[j] == entries[j]);
        }
        lemma_answers_before(init, query, from);
        assert(init.take(from) == entries.take(from));
    }
}

/// The answers that the host has recorded.
pub struct Ledger {
    entries: Vec<(DecimalQuery, DecimalAnswer)>,
}

impl View for Ledger {
    type V = Map<DecimalQueryView, DecimalAnswerView>;

    closed spec fn view(&self) -> Map<DecimalQueryView, DecimalAnswerView> {
        answers_of(self.entries@)
    }
}

impl Ledger {
    /// A ledger without answers.
    pub fn new() -> (r: Ledger)
        ensures
            r@ == Map::<DecimalQueryView, DecimalAnswerView>::empty(),
    {
        Ledger { entries: Vec::new() }
    }

    /// Records `answer` as the answer to `query`, in place of an earlier one.
    pub fn record(&mut self, query: DecimalQuery, answer: DecimalAnswer)
        ensures
            final(self)@ == old(self)@.insert(query@, answer@),
    {
        self.entries.push((query, answer));
        assert(self.entries@.drop_last() == old(self).entries@);
    }

    /// The answer recorded to `query`, if there is one.
    pub fn answer(&self, query: &DecimalQuery) -> (r: Option<&DecimalAnswer>)
        ensures
            r is Some <==> self@.contains_key(query@),
            r matches Some(a) ==> a@ == self@[query@],
    {
        let mut i: usize = self.entries.len();
        while i > 0
            invariant
                i <= self.entries.len(),
                forall|j: int| i <= j < self.entries.len() ==> (#[trigger] self.entries@[j]).0@ != query@,
            decreases i,
        {
            if self.entries[i - 1].0.same(query) {
                proof {
                    lemma_answers_before(self.entries@, query@, i as int);
                    assert(self.entries@.take(i as int).drop_last() == self.entries@.take(i - 1));
                }
                return Some(&self.entries[i - 1].1);
            }
            i -= 1;
        }
        proof {
            lemma_answers_before(self.entries@, query@, 0);
        }
        None
    }
}

/// The first place at or after `from` where `text` holds no digit.
pub open spec fn digits_end(text: Seq<char>, from: int) -> int
    decreases text.len() - from,
{
    if 0 <= from < text.len() && is_digit(text[from]) {
        digits_end(text, from + 1)
    } else {
        from
    }
}

/// Whether `text` is `inf`, `infinity` or `nan`, in capital or small
/// letters.
pub open spec fn is_special_text(text: Seq<char>) -> bool {
    let i = |k: int| text[k] == 'i' || text[k] == 'I';
    let n = |k: int| text[k] == 'n' || text[k] == 'N';
    let f = |k: int| text[k] == 'f' || text[k] == 'F';
    let a = |k: int| text[k] == 'a' || text[k] == 'A';
    let t = |k: int| text[k] == 't' || text[k] == 'T';
    let y = |k: int| text[k] == 'y' || text[k] == 'Y';
    ||| text.len() == 3 && i(0) && n(1) && f(2)
    ||| text.len() == 3 && n(0) && a(1) && n(2)
    ||| text.len() == 8 && i(0) && n(1) && f(2) && i(3) && n(4) && i(5) && t(6) && y(7)
}

/// Whether `text` from `from` on is nothing, or an exponent: `e` or `E`,
/// an optional sign and digits to the end.
pub open spec fn is_exponent_text(text: Seq<char>, from: int) -> bool {
    if from == text.len() {
        true
    } else if 0 <= from < text.len() && (text[from] == 'e' || text[from] == 'E') {
        let start = if from + 1 < text.len() && (text[from + 1] == '+' || text[from + 1] == '-') {
            from + 2
        } else {
            from + 1
        };
        start < text.len() && digits_end(text, start) == text.len()
    } else {
        false
    }
}

/// Whether `text` is a number: digits with at most one `.` among them, at
/// least one digit in all, and an optional exponent.
pub open spec fn is_number_text(text: Seq<char>) -> bool {
    let whole = digits_end(text, 0);
    if whole < text.len() && text[whole] == '.' {
        let part = digits_end(text, whole + 1);
        (whole > 0 || part > whole + 1) && is_exponent_text(text, part)
    } else {
        whole > 0 && is_exponent_text(text, whole)
    }
}

/// Whether `text` is written as a decimal: an optional sign, then a number
/// or one of the words for infinity and for no number.
pub open spec fn is_decimal_text(text: Seq<char>) -> bool {
    let body = if text.len() > 0 && (text[0] == '+' || text[0] == '-') {
        text.skip(1)
    } else {
        text
    };
    is_special_text(body) || is_number_text(body)
}

/// The first place at or after `from` where `chars` holds no digit.
fn scan_digits(chars: &Vec<char>, from: usize) -> (r: usize)
    requires
        from <= chars.len(),
    ensures
        r == digits_end(chars@, from as int),
        from <= r <= chars.len(),
{
    let mut i: usize = from;
    while i < chars.len() && chars[i] >= '0' && chars[i] <= '9'
        invariant
            from <= i <= chars.len(),
            digits_end(chars@, from as int) == digits_end(chars@, i as int),
        decreases chars.len() - i,
    {
        i += 1;
    }
    i
}

/// Whether `c` is the letter that is written `small` or `capital`.
fn is_letter(c: char, small: char, capital: char) -> (r: bool)
    ensures
        r == (c == small || c == capital),
{
    c == small || c == capital
}

/// Whether `chars` is one of the words for infinity and for no number.
fn is_special(chars: &Vec<char>) -> (r: bool)
    ensures
        r == is_special_text(chars@),
{
    if chars.len() == 3 {
        (is_letter(chars[0], 'i', 'I') && is_letter(chars[1], 'n', 'N') && is_letter(
            chars[2],
            'f',
            'F',
        )) || (is_letter(chars[0], 'n', 'N') && is_letter(chars[1], 'a', 'A') && is_letter(
            chars[2],
            'n',
            'N',
        ))
    } else if chars.len() == 8 {
        is_letter(chars[0], 'i', 'I') && is_letter(chars[1], 'n', 'N') && is_letter(
            chars[2],
            'f',
            'F',
        ) && is_letter(chars[3], 'i', 'I') && is_letter(chars[4], 'n', 'N') && is_letter(
            chars[5],
            'i',
            'I',
        ) && is_letter(chars[6], 't', 'T') && is_letter(chars[7], 'y', 'Y')
    } else {
        false
    }
}

/// Whether `chars` from `from` on is nothing or an exponent.
fn is_exponent(chars: &Vec<char>, from: usize) -> (r: bool)
    requires
        from <= chars.len(),
    ensures
        r == is_exponent_text(chars@, from as int),
{
    if from == chars.len() {
        true
    } else if chars[from] == 'e' || chars[from] == 'E' {
        let start: usize = if from + 1 < chars.len() && (chars[from + 1] == '+' || chars[from + 1]
            == '-') {
            from + 2
        } else {
            from + 1
        };
        start < chars.len() && scan_digits(chars, start) == chars.len()
    } else {
        false
    }
}

/// Whether `chars` is a number.
fn is_number(chars: &Vec<char>) -> (r: bool)
    ensures
        r == is_number_text(chars@),
{
    let whole = scan_digits(chars, 0);
    if whole < chars.len() && chars[whole] == '.' {
        let part = scan_digits(chars, whole + 1);
        (whole > 0 || part > whole + 1) && is_exponent(chars, part)
    } else {
        whole > 0 && is_exponent(chars, whole)
    }
}

/// Whether `text` is written as a decimal.
pub fn is_decimal_literal(text: &str) -> (r: bool)
    ensures
        r == is_decimal_text(text@),
{
    let mut chars = crate::text::chars_of(text);
    if chars.len() > 0 && (chars[0] == '+' || chars[0] == '-') {
        let ghost whole = chars@;
        chars.remove(0);
        assert(chars@ == whole.skip(1));
    }
    is_special(&chars) || is_number(&chars)
}

} // verus!
