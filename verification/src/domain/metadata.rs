//! What is remembered of an event so that a summary can be read by people.
use crate::domain::fields::{
    law_last_value_of_a_name_counts, lemma_sorted_pairs, map_of, sorted, sorted_pairs, FieldMap,
    Pairs,
};
use vstd::prelude::*;

verus! {

/// Model of [`EventMetadata`].
pub struct MetadataModel {
    /// Level.
    pub level: Seq<char>,
    /// Message.
    pub message: Seq<char>,
    /// Target.
    pub target: Seq<char>,
    /// Fields.
    pub fields: Map<Seq<char>, Seq<char>>,
}

/// `[level] target: message`
pub open spec fn brief(m: MetadataModel) -> Seq<char> {
    "["@ + m.level + "] "@ + m.target + ": "@ + m.message
}

/// `name="value"`, with commas in between.
pub open spec fn fields_text(pairs: Pairs) -> Seq<char>
    decreases pairs.len(),
{
    if pairs.len() == 0 {
        Seq::empty()
    } else {
        let front = fields_text(pairs.drop_last());
        let separator = if pairs.len() == 1 {
            ""@
        } else {
            ", "@
        };
        front + separator + pairs.last().0 + "=\""@ + pairs.last().1 + "\""@
    }
}

/// `[level] target: message {name="value", ...}`, or the brief form where there are no fields.
pub open spec fn detailed(m: MetadataModel) -> Seq<char> {
    if m.fields == Map::<Seq<char>, Seq<char>>::empty() {
        brief(m)
    } else {
        brief(m) + " {"@ + fields_text(sorted_pairs(m.fields)) + "}"@
    }
}

/// Level, message, target and fields of an event.
#[derive(Debug, PartialEq, Eq)]
pub struct EventMetadata {
    /// Log level, such as `INFO`.
    pub level: String,
    /// Message.
    pub message: String,
    /// Target module path.
    pub target: String,
    /// Structured fields.
    pub fields: FieldMap,
}

impl View for EventMetadata {
    type V = MetadataModel;

    open spec fn view(&self) -> MetadataModel {
        MetadataModel {
            level: self.level@,
            message: self.message@,
            target: self.target@,
            fields: self.fields@,
        }
    }
}

impl Clone for EventMetadata {
    fn clone(&self) -> (r: Self)
        ensures
            r@ == self@,
    {
        EventMetadata {
            level: self.level.clone(),
            message: self.message.clone(),
            target: self.target.clone(),
            fields: self.fields.clone(),
        }
    }
}

impl EventMetadata {
    /// Puts the parts together.
    pub fn new(level: String, message: String, target: String, fields: FieldMap) -> (r: Self)
        ensures
            r.level == level,
            r.message == message,
            r.target == target,
            r.fields == fields,
    {
        EventMetadata { level, message, target, fields }
    }

    /// A short form for display, such as `[ERROR] database::connection: Connection failed`.
    pub fn format_brief(&self) -> (text: String)
        ensures
            text@ == brief(self@),
    {
        let mut text: String = String::new();
        text.append("[");
        text.append(self.level.as_str());
        text.append("] ");
        text.append(self.target.as_str());
        text.append(": ");
        text.append(self.message.as_str());
        assert(text@ =~= brief(self@));
        text
    }

    /// The short form and the fields, such as
    /// `[ERROR] database::connection: Connection failed {error_code="TIMEOUT"}`.
    pub fn format_detailed(&self) -> (text: String)
        ensures
            text@ == detailed(self@),
    {
        if self.fields.is_empty() {
            return self.format_brief();
        }
        let mut text: String = self.format_brief();
        text.append(" {");
        let n: usize = self.fields.len();
        let mut i: usize = 0;
        let ghost pairs = sorted_pairs(self.fields@);
        let ghost head = text@;
        assert(text@ =~= head + fields_text(pairs.take(0)));
        while i < n
            invariant
                i <= n,
                n == pairs.len(),
                pairs == sorted_pairs(self.fields@),
                text@ == head + fields_text(pairs.take(i as int)),
            decreases n - i,
        {
            let (name, value) = self.fields.nth(i);
            if i > 0 {
                text.append(", ");
            } else {
                text.append("");
            }
            text.append(name.as_str());
            text.append("=\"");
            text.append(value.as_str());
            text.append("\"");
            assert(pairs.take(i + 1).drop_last() =~= pairs.take(i as int));
            assert(text@ =~= head + fields_text(pairs.take(i + 1)));
            i = i + 1;
        }
        assert(pairs.take(n as int) =~= pairs);
        text.append("}");
        text
    }
}

/// The short form says level, target and message, in this order.
pub proof fn law_brief_form_says_level_target_and_message(m: MetadataModel)
    ensures
        brief(m) == "["@ + m.level + "] "@ + m.target + ": "@ + m.message,
{
}

/// Fields are written one after the other, separated by commas, each with its name and its value in
/// quotation marks.
pub proof fn law_fields_are_written_one_after_the_other(
    pairs: Pairs,
    more: Pairs,
    name: Seq<char>,
    value: Seq<char>,
)
    ensures
        fields_text(Seq::empty()) == Seq::<char>::empty(),
        fields_text(seq![(name, value)]) == name + "=\""@ + value + "\""@,
        pairs.len() > 0 && more.len() > 0 ==> fields_text(pairs + more) == fields_text(pairs)
            + ", "@ + fields_text(more),
    decreases more.len(),
{
    reveal_strlit("");
    let one = seq![(name, value)];
    assert(one.drop_last() =~= Seq::empty());
    assert(fields_text(one.drop_last()) =~= Seq::empty());
    assert(fields_text(one) =~= name + "=\""@ + value + "\""@);
    if pairs.len() > 0 && more.len() > 0 {
        let all = pairs + more;
        assert(all.drop_last() =~= pairs + more.drop_last());
        assert(all.last() == more.last());
        if more.len() == 1 {
            assert(more.drop_last() =~= Seq::empty());
            assert(pairs + more.drop_last() =~= pairs);
            assert(fields_text(more.drop_last()) =~= Seq::empty());
            assert(fields_text(all) =~= fields_text(pairs) + ", "@ + fields_text(more));
        } else {
            law_fields_are_written_one_after_the_other(pairs, more.drop_last(), name, value);
            assert(fields_text(all) =~= fields_text(pairs) + ", "@ + fields_text(more));
        }
    }
}

/// The long form is the short form, followed by the fields in braces, in the order of their names,
/// where there are any.
pub proof fn law_detailed_form_adds_the_fields(m: MetadataModel, pairs: Pairs)
    requires
        sorted(pairs),
        m.fields == map_of(pairs),
    ensures
        pairs.len() == 0 ==> detailed(m) == brief(m),
        pairs.len() > 0 ==> detailed(m) == brief(m) + " {"@ + fields_text(pairs) + "}"@,
{
    lemma_sorted_pairs(pairs);
    if pairs.len() > 0 {
        law_last_value_of_a_name_counts(pairs, pairs.len() - 1);
    }
}

} // verus!
