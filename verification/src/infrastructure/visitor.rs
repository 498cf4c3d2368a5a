//! Collects the fields of an event or a span as text.
use crate::domain::fields::FieldMap;
use crate::text::{decimal, decimal_text};
use crate::text_laws::{law_decimal_can_be_read_again, value_of};
use vstd::prelude::*;

verus! {

/// A number with its sign in decimal digits.
pub open spec fn signed_decimal(n: int) -> Seq<char> {
    if n < 0 {
        "-"@ + decimal((-n) as nat)
    } else {
        decimal(n as nat)
    }
}

/// Writes a number with its sign.
fn signed_text(n: i64) -> (text: String)
    ensures
        text@ == signed_decimal(n as int),
{
    if n < 0 {
        let mut text: String = String::new();
        text.append("-");
        text.append(decimal_text((-(n as i128)) as u64).as_str());
        assert(text@ =~= signed_decimal(n as int));
        text
    } else {
        decimal_text(n as u64)
    }
}

/// `true` or `false`.
pub open spec fn bool_text(b: bool) -> Seq<char> {
    if b {
        "true"@
    } else {
        "false"@
    }
}

/// Fields that have been collected so far.
#[derive(Debug)]
pub struct FieldVisitor {
    fields: FieldMap,
}

impl View for FieldVisitor {
    type V = Map<Seq<char>, Seq<char>>;

    closed spec fn view(&self) -> Map<Seq<char>, Seq<char>> {
        self.fields@
    }
}

impl FieldVisitor {
    /// Nothing collected.
    pub fn new() -> (r: Self)
        ensures
            r@ == Map::<Seq<char>, Seq<char>>::empty(),
    {
        FieldVisitor { fields: FieldMap::new() }
    }

    /// What was collected.
    pub fn into_fields(self) -> (r: FieldMap)
        ensures
            r@ == self@,
    {
        self.fields
    }

    /// What was collected.
    pub fn fields(&self) -> (r: &FieldMap)
        ensures
            r@ == self@,
    {
        &self.fields
    }

    /// Notes a signed number.
    pub fn record_i64(&mut self, field: &str, value: i64)
        ensures
            final(self)@ == old(self)@.insert(field@, signed_decimal(value as int)),
    {
        self.fields.insert(field.to_owned(), signed_text(value));
    }

    /// Notes a number.
    pub fn record_u64(&mut self, field: &str, value: u64)
        ensures
            final(self)@ == old(self)@.insert(field@, decimal(value as nat)),
    {
        self.fields.insert(field.to_owned(), decimal_text(value));
    }

    /// Notes a truth value.
    pub fn record_bool(&mut self, field: &str, value: bool)
        ensures
            final(self)@ == old(self)@.insert(field@, bool_text(value)),
    {
        let text: String = if value {
            "true".to_owned()
        } else {
            "false".to_owned()
        };
        self.fields.insert(field.to_owned(), text);
    }

    /// Notes a text, as it is.
    pub fn record_str(&mut self, field: &str, value: &str)
        ensures
            final(self)@ == old(self)@.insert(field@, value@),
    {
        self.fields.insert(field.to_owned(), value.to_owned());
    }
}

/// Numbers are written in decimal, with a sign where they are below zero.
pub proof fn law_signed_numbers_can_be_read_again(n: int)
    ensures
        n >= 0 ==> value_of(signed_decimal(n), 10) == n,
        n >= 0 ==> signed_decimal(n).len() > 0 && signed_decimal(n)[0] != '-',
        n < 0 ==> signed_decimal(n).len() > 0 && signed_decimal(n)[0] == '-' && value_of(
            signed_decimal(n).drop_first(),
            10,
        ) == -n,
{
    reveal_strlit("-");
    if n >= 0 {
        law_decimal_can_be_read_again(n as nat);
    } else {
        law_decimal_can_be_read_again((-n) as nat);
        assert(signed_decimal(n).drop_first() =~= decimal((-n) as nat));
    }
}

/// Truth values are written as words.
pub proof fn law_truth_values_are_words()
    ensures
        bool_text(true) == "true"@,
        bool_text(false) == "false"@,
{
}

} // verus!
