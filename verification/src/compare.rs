//! Comparison expressions: `key operator operand`, read once and held
//! against every record.

use core::cmp::Ordering;
use vstd::prelude::*;
use vstd::std_specs::cmp::{PartialEqSpec, PartialOrdSpec};
use crate::digits::{parse_small_uint, small_uint};
use crate::error::Error;
use crate::json::Json;
use crate::lookup::{holds_key, lemma_key_two_levels_deep_is_found};
use crate::number::Number;
use crate::record::{is_field_name, FieldValue, LogRecord, LogRecordTypes, RecordView};
use crate::text::{
    chars_of,
    int_order,
    lemma_text_order_equal,
    order_texts,
    slice_of,
    text_of,
    text_order,
    trim_range,
    trimmed,
    Order,
};

verus! {

/// The six comparison operators.
#[derive(Copy, Clone, Debug, PartialEq, Eq, Structural)]
pub enum Comparitors {
    Equal,
    NotEqual,
    GreaterThan,
    LessThan,
    GreaterOrEqualThan,
    LessOrEqualThan,
}

/// The order that a comparison of the standard library reports, if any.
pub open spec fn order_of(found: Option<Ordering>) -> Option<Order> {
    match found {
        Some(Ordering::Less) => Some(Order::Less),
        Some(Ordering::Equal) => Some(Order::Equal),
        Some(Ordering::Greater) => Some(Order::Greater),
        None => None,
    }
}

impl Comparitors {
    /// The operator that `token` spells.
    pub open spec fn of_token(token: Seq<char>) -> Option<Comparitors> {
        if token == seq!['=', '='] {
            Some(Comparitors::Equal)
        } else if token == seq!['!', '='] {
            Some(Comparitors::NotEqual)
        } else if token == seq!['>'] {
            Some(Comparitors::GreaterThan)
        } else if token == seq!['<'] {
            Some(Comparitors::LessThan)
        } else if token == seq!['>', '='] {
            Some(Comparitors::GreaterOrEqualThan)
        } else if token == seq!['<', '='] {
            Some(Comparitors::LessOrEqualThan)
        } else {
            None
        }
    }

    /// The characters that spell this operator.
    pub open spec fn token(self) -> Seq<char> {
        match self {
            Comparitors::Equal => seq!['=', '='],
            Comparitors::NotEqual => seq!['!', '='],
            Comparitors::GreaterThan => seq!['>'],
            Comparitors::LessThan => seq!['<'],
            Comparitors::GreaterOrEqualThan => seq!['>', '='],
            Comparitors::LessOrEqualThan => seq!['<', '='],
        }
    }

    /// Whether this operator holds between two values that stand in `order`.
    /// Values that stand in no order are unequal and nothing else.
    pub open spec fn accepts(self, order: Option<Order>) -> bool {
        match self {
            Comparitors::Equal => order == Some(Order::Equal),
            Comparitors::NotEqual => order != Some(Order::Equal),
            Comparitors::GreaterThan => order == Some(Order::Greater),
            Comparitors::LessThan => order == Some(Order::Less),
            Comparitors::GreaterOrEqualThan => order == Some(Order::Greater) || order == Some(
                Order::Equal,
            ),
            Comparitors::LessOrEqualThan => order == Some(Order::Less) || order == Some(
                Order::Equal,
            ),
        }
    }

    /// What this operator says of two values of which the standard library
    /// finds equality `equal` and order `found`.
    pub open spec fn verdict(self, equal: bool, found: Option<Ordering>) -> bool {
        match self {
            Comparitors::Equal => equal,
            Comparitors::NotEqual => !equal,
            _ => self.accepts(order_of(found)),
        }
    }

    /// The operator that `token` spells once the blanks around it are gone.
    fn of_chars(token: &Vec<char>) -> (r: Option<Comparitors>)
        ensures
            r == Comparitors::of_token(token@),
    {
        let n = token.len();
        if n == 1 {
            assert(token@ =~= seq![token@[0]]);
            if token[0] == '>' {
                Some(Comparitors::GreaterThan)
            } else if token[0] == '<' {
                Some(Comparitors::LessThan)
            } else {
                None
            }
        } else if n == 2 {
            assert(token@ =~= seq![token@[0], token@[1]]);
            if token[1] != '=' {
                None
            } else if token[0] == '=' {
                Some(Comparitors::Equal)
            } else if token[0] == '!' {
                Some(Comparitors::NotEqual)
            } else if token[0] == '>' {
                Some(Comparitors::GreaterOrEqualThan)
            } else if token[0] == '<' {
                Some(Comparitors::LessOrEqualThan)
            } else {
                None
            }
        } else {
            None
        }
    }

    /// Reads an operator; blanks around it are ignored.
    pub fn from_str(s: &str) -> (r: Result<Comparitors, Error>)
        ensures
            match Comparitors::of_token(trimmed(s@)) {
                Some(op) => r == Ok::<Comparitors, Error>(op),
                None => r matches Err(Error::InvalidComparitor(given)) && given@ == s@,
            },
    {
        let v = chars_of(s);
        assert(v@.subrange(0, v@.len() as int) =~= v@);
        let token = trim_range(&v, 0, v.len());
        match Comparitors::of_chars(&token) {
            Some(op) => Ok(op),
            None => Err(Error::InvalidComparitor(s.to_owned())),
        }
    }

    /// Whether this operator holds between two values that stand in `order`.
    pub fn admits(&self, order: Option<Order>) -> (r: bool)
        ensures
            r == self.accepts(order),
    {
        match (*self, order) {
            (Comparitors::Equal, Some(Order::Equal)) => true,
            (Comparitors::Equal, _) => false,
            (Comparitors::NotEqual, Some(Order::Equal)) => false,
            (Comparitors::NotEqual, _) => true,
            (Comparitors::GreaterThan, Some(Order::Greater)) => true,
            (Comparitors::GreaterThan, _) => false,
            (Comparitors::LessThan, Some(Order::Less)) => true,
            (Comparitors::LessThan, _) => false,
            (Comparitors::GreaterOrEqualThan, Some(Order::Greater)) => true,
            (Comparitors::GreaterOrEqualThan, Some(Order::Equal)) => true,
            (Comparitors::GreaterOrEqualThan, _) => false,
            (Comparitors::LessOrEqualThan, Some(Order::Less)) => true,
            (Comparitors::LessOrEqualThan, Some(Order::Equal)) => true,
            (Comparitors::LessOrEqualThan, _) => false,
        }
    }

    /// Whether this operator holds between `operand1` and `operand2`, by the
    /// equality and the order of their type.
    pub fn compare<T: PartialEq + PartialOrd>(&self, operand1: T, operand2: T) -> (r: bool)
        ensures
            T::obeys_eq_spec() && T::obeys_partial_cmp_spec() ==> r == self.verdict(
                operand1.eq_spec(&operand2),
                operand1.partial_cmp_spec(&operand2),
            ),
    {
        match *self {
            Comparitors::Equal => operand1 == operand2,
            Comparitors::NotEqual => operand1 != operand2,
            Comparitors::GreaterThan => operand1 > operand2,
            Comparitors::LessThan => operand1 < operand2,
            Comparitors::GreaterOrEqualThan => operand1 >= operand2,
            Comparitors::LessOrEqualThan => operand1 <= operand2,
        }
    }
}

/// A comparison, read: the name of a field, an operator, and the operand to
/// hold the field against.
#[derive(Debug)]
pub struct CompiledComparison {
    pub key: String,
    pub operator: Comparitors,
    pub value: String,
    /// The operand as a floating-point number, where it reads as one. It is
    /// what a field that holds a number is compared with.
    pub number: Option<Number>,
}

/// What a comparison holds.
pub struct ComparisonView {
    pub key: Seq<char>,
    pub operator: Comparitors,
    pub value: Seq<char>,
    pub number: Option<Number>,
}

impl View for CompiledComparison {
    type V = ComparisonView;

    open spec fn view(&self) -> ComparisonView {
        ComparisonView {
            key: self.key@,
            operator: self.operator,
            value: self.value@,
            number: self.number,
        }
    }
}

/// The operator that starts at index `at` of `s`. Where two operators start
/// there, it is the one of two characters.
pub open spec fn operator_at(s: Seq<char>, at: int) -> Option<Comparitors> {
    if 0 <= at && at + 2 <= s.len() && Comparitors::of_token(s.subrange(at, at + 2)) is Some {
        Comparitors::of_token(s.subrange(at, at + 2))
    } else if 0 <= at && at + 1 <= s.len() {
        Comparitors::of_token(s.subrange(at, at + 1))
    } else {
        None
    }
}

/// The first index from `from` on at which an operator starts in `s`; the
/// length of `s` where none does.
pub open spec fn first_operator(s: Seq<char>, from: int) -> int
    decreases s.len() - from,
{
    if from < 0 || from >= s.len() {
        s.len() as int
    } else if operator_at(s, from) is Some {
        from
    } else {
        first_operator(s, from + 1)
    }
}

/// The comparison that `s` spells: what stands before its first operator is
/// the key, what stands behind it the operand, each without the blanks at
/// its ends. Without an operator `s` spells none.
pub open spec fn compiled(s: Seq<char>) -> Option<ComparisonView> {
    let at = first_operator(s, 0);
    match operator_at(s, at) {
        Some(operator) => Some(
            ComparisonView {
                key: trimmed(s.subrange(0, at)),
                operator,
                value: trimmed(s.subrange(at + operator.token().len(), s.len() as int)),
                number: None,
            },
        ),
        None => None,
    }
}

/// The operator that starts at index `at` of `v`.
fn find_operator_at(v: &Vec<char>, at: usize) -> (r: Option<Comparitors>)
    requires
        at < v.len(),
    ensures
        r == operator_at(v@, at as int),
        r matches Some(op) ==> at + op.token().len() <= v.len(),
{
    if at + 1 < v.len() {
        let two = slice_of(v, at, at + 2);
        let found = Comparitors::of_chars(&two);
        if found.is_some() {
            return found;
        }
    }
    let one = slice_of(v, at, at + 1);
    Comparitors::of_chars(&one)
}

impl CompiledComparison {
    /// Reads a comparison (see [`compiled`]).
    pub fn new(compare: &str) -> (r: Result<CompiledComparison, Error>)
        ensures
            match compiled(compare@) {
                Some(comparison) => r matches Ok(read) && read@ == comparison,
                None => r matches Err(Error::InvalidComparison(given)) && given@ == compare@,
            },
    {
        let v = chars_of(compare);
        let n = v.len();
        let mut at: usize = 0;
        while at < n
            invariant
                at <= n == v.len(),
                v@ == compare@,
                first_operator(v@, 0) == first_operator(v@, at as int),
            decreases n - at,
        {
            match find_operator_at(&v, at) {
                Some(operator) => {
                    let key = trim_range(&v, 0, at);
                    let width: usize = match operator {
                        Comparitors::GreaterThan => 1,
                        Comparitors::LessThan => 1,
                        _ => 2,
                    };
                    let value = trim_range(&v, at + width, n);
                    return Ok(
                        CompiledComparison {
                            key: text_of(&key),
                            operator,
                            value: text_of(&value),
                            number: None,
                        },
                    );
                },
                None => {},
            }
            at = at + 1;
        }
        Err(Error::InvalidComparison(compare.to_owned()))
    }

    /// This comparison with `number` as the operand's reading as a number.
    pub fn with_number(self, number: Option<Number>) -> (r: CompiledComparison)
        ensures
            r@ == (ComparisonView { number, ..self@ }),
    {
        CompiledComparison {
            key: self.key,
            operator: self.operator,
            value: self.value,
            number,
        }
    }
}

/// What comes of holding a record against a comparison.
pub enum Evaluation {
    /// Whether the record matches.
    Answer(bool),
    /// The field holds a small unsigned integer and the operand is none.
    OperandNotSmallUint,
    /// The field holds a number and the operand is none.
    OperandNotNumber,
}

/// Holds `record` against `comparison`. A record without the field does not
/// match. Else the operand is read in the type of the field's value, and
/// the two are compared in that type: small unsigned integers and numbers by
/// their value, text in the order of a dictionary.
pub open spec fn evaluated(record: RecordView, comparison: ComparisonView) -> Evaluation {
    match record.field(comparison.key) {
        None => Evaluation::Answer(false),
        Some(FieldValue::U8(held)) => match small_uint(comparison.value) {
            Some(operand) => Evaluation::Answer(
                comparison.operator.accepts(Some(int_order(held as int, operand as int))),
            ),
            None => Evaluation::OperandNotSmallUint,
        },
        Some(FieldValue::Num(held)) => match comparison.number {
            Some(operand) => Evaluation::Answer(comparison.operator.accepts(held.order(operand))),
            None => Evaluation::OperandNotNumber,
        },
        Some(FieldValue::Str(held)) => Evaluation::Answer(
            comparison.operator.accepts(Some(text_order(held, comparison.value))),
        ),
    }
}

/// Whether `r` reports `evaluation` of a comparison with the operand
/// `operand`.
pub open spec fn reports(r: Result<bool, Error>, evaluation: Evaluation, operand: Seq<char>) -> bool {
    match evaluation {
        Evaluation::Answer(answer) => r == Ok::<bool, Error>(answer),
        Evaluation::OperandNotSmallUint => r matches Err(Error::OperandNotSmallUint(given))
            && given@ == operand,
        Evaluation::OperandNotNumber => r matches Err(Error::OperandNotNumber(given)) && given@
            == operand,
    }
}

/// Holds the record `r` against the comparison `cc` (see [`evaluated`]).
pub fn do_compare(r: &LogRecord, cc: &CompiledComparison) -> (out: Result<bool, Error>)
    ensures
        reports(out, evaluated(r@, cc@), cc.value@),
{
    match r.field_by_name(cc.key.as_str()) {
        Some(x) => match x {
            LogRecordTypes::U8(y) => match parse_small_uint(cc.value.as_str()) {
                Some(u8_value) => Ok(cc.operator.compare(y, u8_value)),
                None => Err(Error::OperandNotSmallUint(cc.value.clone())),
            },
            LogRecordTypes::Num(y) => match cc.number {
                Some(number) => Ok(cc.operator.compare(y, number)),
                None => Err(Error::OperandNotNumber(cc.value.clone())),
            },
            LogRecordTypes::Str(y) => Ok(
                cc.operator.admits(Some(order_texts(y.as_str(), cc.value.as_str()))),
            ),
        },
        None => Ok(false),
    }
}

/// A record matches the comparison of one of its text fields with the text
/// that the field holds, under `==`, and under `!=` it does not.
pub proof fn lemma_text_field_matches_itself(
    record: RecordView,
    key: Seq<char>,
    held: Seq<char>,
    number: Option<Number>,
)
    requires
        record.field(key) == Some(FieldValue::Str(held)),
    ensures
        evaluated(
            record,
            ComparisonView { key, operator: Comparitors::Equal, value: held, number },
        ) == Evaluation::Answer(true),
        evaluated(
            record,
            ComparisonView { key, operator: Comparitors::NotEqual, value: held, number },
        ) == Evaluation::Answer(false),
{
    lemma_text_order_equal(held, held);
}

/// A key that stands only inside an object inside an object of the extras
/// is found, and the record matches the comparison of that key with the text
/// under it: where `key` names none of the seven fields of a record, no
/// other member of the extras holds `key` at any depth, and the value under
/// `key` is the string `held`, the record matches `key == held`. `before1`,
/// `after1` are the extras around the outer object, `before2`, `after2` the
/// members around the inner one, `before3`, `after3` those around the key.
pub proof fn lemma_key_two_levels_deep_matches(
    record: RecordView,
    key: Seq<char>,
    held: Seq<char>,
    number: Option<Number>,
    outer: Seq<char>,
    inner: Seq<char>,
    before1: Seq<(Seq<char>, Json)>,
    after1: Seq<(Seq<char>, Json)>,
    before2: Seq<(Seq<char>, Json)>,
    after2: Seq<(Seq<char>, Json)>,
    before3: Seq<(Seq<char>, Json)>,
    after3: Seq<(Seq<char>, Json)>,
)
    requires
        !is_field_name(key),
        outer != key,
        inner != key,
        !holds_key(key, before1),
        !holds_key(key, before2),
        !holds_key(key, before3),
        record.extras == before1 + seq![
            (
                outer,
                Json::Object(
                    before2 + seq![
                        (inner, Json::Object(before3 + seq![(key, Json::Text(held))] + after3)),
                    ] + after2,
                ),
            ),
        ] + after1,
    ensures
        record.field(key) == Some(FieldValue::Str(held)),
        evaluated(
            record,
            ComparisonView { key, operator: Comparitors::Equal, value: held, number },
        ) == Evaluation::Answer(true),
{
    lemma_key_two_levels_deep_is_found(
        key,
        Json::Text(held),
        outer,
        inner,
        before1,
        after1,
        before2,
        after2,
        before3,
        after3,
    );
    lemma_text_field_matches_itself(record, key, held, number);
}

/// A record that lacks the field of a comparison never matches it.
pub proof fn lemma_missing_field_never_matches(record: RecordView, comparison: ComparisonView)
    requires
        record.field(comparison.key) is None,
    ensures
        evaluated(record, comparison) == Evaluation::Answer(false),
{
}

} // verus!
