//! Event signatures: which events count as the same.
//!
//! A signature is a hash of the level, the message, the fields in the order of their names, and
//! the target of an event. Events with the same signature share one policy and one counter.
use crate::domain::fields::{
    lemma_map_of_permutation, lemma_sorted_pairs, map_of, names_differ, sorted, sorted_pairs,
    FieldMap, Pairs,
};
use crate::text::{hex16, hex16_text, lemma_hex16_injective};
use ahash::AHasher;
use std::hash::{Hash, Hasher};
use vstd::prelude::*;

verus! {

/// The hasher of the `ahash` crate, as an opaque value.
#[verifier::external_type_specification]
#[verifier::external_body]
pub struct ExAHasher(ahash::AHasher);

/// The strings that a hasher has been fed, in order.
pub uninterp spec fn absorbed(hasher: AHasher) -> Seq<Seq<char>>;

/// Whether a hasher was made by `AHasher::default`, and has been fed nothing but strings.
pub uninterp spec fn has_default_keys(hasher: AHasher) -> bool;

/// What `AHasher::finish` gives for a hasher that was made by `AHasher::default` and has been fed
/// these strings.
pub uninterp spec fn digest(texts: Seq<Seq<char>>) -> u64;

/// `AHasher::default` makes a hasher that has been fed nothing. Without the random number features
/// of the crate, which this library does not enable, its keys are constants of the crate, so all
/// such hashers are alike in every process.
#[verifier::external_body]
fn default_hasher() -> (hasher: AHasher)
    ensures
        absorbed(hasher) == Seq::<Seq<char>>::empty(),
        has_default_keys(hasher),
{
    AHasher::default()
}

/// `str::hash` feeds one string to the hasher.
#[verifier::external_body]
fn absorb(hasher: &mut AHasher, text: &str)
    requires
        has_default_keys(*old(hasher)),
    ensures
        absorbed(*final(hasher)) == absorbed(*old(hasher)).push(text@),
        has_default_keys(*final(hasher)),
{
    text.hash(hasher);
}

/// `AHasher::finish` computes the hash of what the hasher has been fed, and of nothing else. Which
/// number comes out for which strings is left to the crate, as it was compiled.
#[verifier::external_body]
fn finish(hasher: &AHasher) -> (hash: u64)
    requires
        has_default_keys(*hasher),
    ensures
        hash == digest(absorbed(*hasher)),
{
    hasher.finish()
}

/// Names and values in one list.
pub open spec fn flattened(pairs: Pairs) -> Seq<Seq<char>>
    decreases pairs.len(),
{
    if pairs.len() == 0 {
        Seq::empty()
    } else {
        flattened(pairs.drop_last()).push(pairs.last().0).push(pairs.last().1)
    }
}

/// What of an event goes into its signature, in this order.
pub open spec fn signature_texts(
    level: Seq<char>,
    message: Seq<char>,
    fields: Map<Seq<char>, Seq<char>>,
    target: Option<Seq<char>>,
) -> Seq<Seq<char>> {
    let head = seq![level, message] + flattened(sorted_pairs(fields));
    match target {
        Some(t) => head.push(t),
        None => head,
    }
}

/// The hash that identifies events like this one.
pub open spec fn signature_of(
    level: Seq<char>,
    message: Seq<char>,
    fields: Map<Seq<char>, Seq<char>>,
    target: Option<Seq<char>>,
) -> u64 {
    digest(signature_texts(level, message, fields, target))
}

/// The characters of an optional string.
pub open spec fn opt_text(text: Option<&str>) -> Option<Seq<char>> {
    match text {
        Some(t) => Some(t@),
        None => None,
    }
}

/// Identifies a class of events.
#[derive(Debug, Clone, Copy, PartialEq, Eq, Hash, PartialOrd, Ord, Structural)]
pub struct EventSignature(u64);

impl View for EventSignature {
    type V = u64;

    /// The raw hash.
    closed spec fn view(&self) -> u64 {
        self.0
    }
}

impl EventSignature {
    /// The signature of an event.
    pub fn new(level: &str, message: &str, fields: &FieldMap, target: Option<&str>) -> (r: Self)
        ensures
            r@ == signature_of(level@, message@, fields@, opt_text(target)),
    {
        let mut hasher: AHasher = default_hasher();
        absorb(&mut hasher, level);
        absorb(&mut hasher, message);
        let n: usize = fields.len();
        let mut i: usize = 0;
        let ghost pairs = sorted_pairs(fields@);
        assert(absorbed(hasher) =~= seq![level@, message@] + flattened(pairs.take(0)));
        while i < n
            invariant
                i <= n,
                n == pairs.len(),
                pairs == sorted_pairs(fields@),
                has_default_keys(hasher),
                absorbed(hasher) == seq![level@, message@] + flattened(pairs.take(i as int)),
            decreases n - i,
        {
            let (name, value) = fields.nth(i);
            absorb(&mut hasher, name.as_str());
            absorb(&mut hasher, value.as_str());
            assert(pairs.take(i + 1).drop_last() =~= pairs.take(i as int));
            assert(absorbed(hasher) =~= seq![level@, message@] + flattened(pairs.take(i + 1)));
            i = i + 1;
        }
        assert(pairs.take(n as int) =~= pairs);
        match target {
            Some(t) => {
                absorb(&mut hasher, t);
            },
            None => {},
        }
        EventSignature(finish(&hasher))
    }

    /// The signature of an event that has only a level and a message.
    pub fn simple(level: &str, message: &str) -> (r: Self)
        ensures
            r@ == signature_of(level@, message@, Map::empty(), None),
    {
        let fields: FieldMap = FieldMap::new();
        EventSignature::new(level, message, &fields, None)
    }

    /// The signature with this raw hash.
    pub fn from_hash(hash: u64) -> (r: Self)
        ensures
            r@ == hash,
    {
        EventSignature(hash)
    }

    /// The raw hash.
    pub fn as_hash(&self) -> (hash: u64)
        ensures
            hash == self@,
    {
        self.0
    }

    /// The raw hash.
    pub fn as_u64(&self) -> (hash: u64)
        ensures
            hash == self@,
    {
        self.0
    }

    /// The raw hash as sixteen hexadecimal digits.
    pub fn to_string(&self) -> (text: String)
        ensures
            text@ == hex16(self@),
    {
        hex16_text(self.0)
    }
}

/// Events that agree in level, message, fields and target have the same signature, in whatever
/// order their fields were given.
pub proof fn law_field_order_does_not_matter(
    level: Seq<char>,
    message: Seq<char>,
    a: Pairs,
    b: Pairs,
    target: Option<Seq<char>>,
)
    requires
        a.to_multiset() == b.to_multiset(),
        names_differ(a),
    ensures
        signature_of(level, message, map_of(a), target) == signature_of(
            level,
            message,
            map_of(b),
            target,
        ),
{
    lemma_map_of_permutation(a, b);
}

/// Two signatures are written out alike only if they are the same.
pub proof fn law_signature_text_is_unique(a: EventSignature, b: EventSignature)
    requires
        hex16(a@) == hex16(b@),
    ensures
        a == b,
{
    lemma_hex16_injective(a@, b@);
}

proof fn lemma_flattened(pairs: Pairs)
    ensures
        flattened(pairs).len() == 2 * pairs.len(),
        forall|i: int| 0 <= i < pairs.len() ==> flattened(pairs)[2 * i] == (#[trigger] pairs[i]).0,
        forall|i: int|
            0 <= i < pairs.len() ==> flattened(pairs)[2 * i + 1] == (#[trigger] pairs[i]).1,
    decreases pairs.len(),
{
    if pairs.len() > 0 {
        let front = pairs.drop_last();
        lemma_flattened(front);
        assert forall|i: int| 0 <= i < pairs.len() implies flattened(pairs)[2 * i] == (
        #[trigger] pairs[i]).0 && flattened(pairs)[2 * i + 1] == pairs[i].1 by {
            if i < front.len() {
                assert(front[i] == pairs[i]);
            }
        }
    }
}

/// Whether these texts are the parts of an event: its level, its message, the names and values of
/// its fields in the order of the names, and its target, if it counts.
pub open spec fn are_parts_of(
    texts: Seq<Seq<char>>,
    level: Seq<char>,
    message: Seq<char>,
    pairs: Pairs,
    target: Option<Seq<char>>,
) -> bool {
    &&& texts.len() == 2 + 2 * pairs.len() + if target is Some {
        1int
    } else {
        0int
    }
    &&& texts[0] == level
    &&& texts[1] == message
    &&& forall|i: int|
        0 <= i < pairs.len() ==> texts[2 + 2 * i] == (#[trigger] pairs[i]).0 && texts[3 + 2 * i]
            == pairs[i].1
    &&& target matches Some(t) ==> texts[texts.len() - 1] == t
}

/// A signature is the hash of all parts of an event and of nothing else: level, message, every
/// field with its name and its value, and the target.
pub proof fn law_signature_is_of_all_parts(
    level: Seq<char>,
    message: Seq<char>,
    pairs: Pairs,
    target: Option<Seq<char>>,
)
    requires
        sorted(pairs),
    ensures
        exists|texts: Seq<Seq<char>>|
            are_parts_of(texts, level, message, pairs, target) && signature_of(
                level,
                message,
                map_of(pairs),
                target,
            ) == #[trigger] digest(texts),
        are_parts_of(
            signature_texts(level, message, map_of(pairs), target),
            level,
            message,
            pairs,
            target,
        ),
{
    lemma_sorted_pairs(pairs);
    lemma_flattened(pairs);
    let texts = signature_texts(level, message, map_of(pairs), target);
    assert forall|i: int| 0 <= i < pairs.len() implies texts[2 + 2 * i] == (#[trigger] pairs[i]).0
        && texts[3 + 2 * i] == pairs[i].1 by {
        assert(texts[2 + 2 * i] == flattened(pairs)[2 * i]);
        assert(texts[3 + 2 * i] == flattened(pairs)[2 * i + 1]);
    }
    assert(digest(texts) == signature_of(level, message, map_of(pairs), target));
}

/// Events that differ in any part are told apart by what is hashed: only events with the same
/// level, message, fields and target give the hash the same texts.
pub proof fn law_what_is_hashed_tells_events_apart(
    level: Seq<char>,
    message: Seq<char>,
    pairs: Pairs,
    target: Seq<char>,
    other_level: Seq<char>,
    other_message: Seq<char>,
    other_pairs: Pairs,
    other_target: Seq<char>,
)
    requires
        sorted(pairs),
        sorted(other_pairs),
        signature_texts(level, message, map_of(pairs), Some(target)) == signature_texts(
            other_level,
            other_message,
            map_of(other_pairs),
            Some(other_target),
        ),
    ensures
        level == other_level,
        message == other_message,
        pairs == other_pairs,
        target == other_target,
{
    law_signature_is_of_all_parts(level, message, pairs, Some(target));
    law_signature_is_of_all_parts(other_level, other_message, other_pairs, Some(other_target));
    let texts = signature_texts(level, message, map_of(pairs), Some(target));
    assert(pairs.len() == other_pairs.len());
    assert forall|i: int| 0 <= i < pairs.len() implies pairs[i] == other_pairs[i] by {
        assert(texts[2 + 2 * i] == pairs[i].0 && texts[3 + 2 * i] == pairs[i].1);
        assert(texts[2 + 2 * i] == other_pairs[i].0 && texts[3 + 2 * i] == other_pairs[i].1);
    }
    assert(pairs =~= other_pairs);
}

/// A target that is given counts as it is, and none is made up.
pub proof fn law_optional_text_is_taken_as_it_is(text: &str)
    ensures
        opt_text(Some(text)) == Some(text@),
        opt_text(None) == None::<Seq<char>>,
{
}

} // verus!
