//! The structured fields of an event: names with values, kept in the order of the names.
use crate::text::{
    is_before, lemma_text_before_irreflexive, lemma_text_before_total, lemma_text_before_trans,
    same_text, text_before,
};
use vstd::prelude::*;

verus! {

/// A list of names with values, as characters.
pub type Pairs = Seq<(Seq<char>, Seq<char>)>;

/// The fields that a list of pairs gives, a later pair in place of an earlier one.
pub open spec fn map_of(pairs: Pairs) -> Map<Seq<char>, Seq<char>>
    decreases pairs.len(),
{
    if pairs.len() == 0 {
        Map::empty()
    } else {
        map_of(pairs.drop_last()).insert(pairs.last().0, pairs.last().1)
    }
}

/// Whether each name comes before the next.
pub open spec fn sorted(pairs: Pairs) -> bool {
    forall|i: int, j: int|
        0 <= i < j < pairs.len() ==> text_before(#[trigger] pairs[i].0, #[trigger] pairs[j].0)
}

/// The fields as a list in the order of the names.
pub open spec fn sorted_pairs(fields: Map<Seq<char>, Seq<char>>) -> Pairs {
    choose|pairs: Pairs| sorted(pairs) && #[trigger] map_of(pairs) == fields
}

/// What a list of pairs with all names different maps to.
proof fn lemma_map_of(pairs: Pairs)
    requires
        sorted(pairs),
    ensures
        forall|i: int|
            0 <= i < pairs.len() ==> map_of(pairs).contains_key(#[trigger] pairs[i].0) && map_of(
                pairs,
            )[pairs[i].0] == pairs[i].1,
        forall|k: Seq<char>| #[trigger]
            map_of(pairs).contains_key(k) ==> exists|i: int|
                0 <= i < pairs.len() && #[trigger] pairs[i].0 == k,
    decreases pairs.len(),
{
    if pairs.len() > 0 {
        let front = pairs.drop_last();
        lemma_map_of(front);
        assert forall|i: int| 0 <= i < pairs.len() implies map_of(pairs).contains_key(
            #[trigger] pairs[i].0,
        ) && map_of(pairs)[pairs[i].0] == pairs[i].1 by {
            if i < front.len() {
                assert(front[i] == pairs[i]);
                assert(text_before(pairs[i].0, pairs[pairs.len() - 1].0));
                lemma_text_before_irreflexive(pairs[i].0);
            }
        }
        assert forall|k: Seq<char>| #[trigger] map_of(pairs).contains_key(k) implies exists|i: int|
            0 <= i < pairs.len() && #[trigger] pairs[i].0 == k by {
            if k == pairs.last().0 {
                assert(pairs[pairs.len() - 1].0 == k);
            } else {
                assert(map_of(front).contains_key(k));
                let i = choose|i: int| 0 <= i < front.len() && #[trigger] front[i].0 == k;
                assert(pairs[i].0 == k);
            }
        }
    }
}

/// There is only one ordered list of the same fields.
proof fn lemma_sorted_unique(a: Pairs, b: Pairs)
    requires
        sorted(a),
        sorted(b),
        map_of(a) == map_of(b),
    ensures
        a == b,
    decreases a.len(),
{
    lemma_map_of(a);
    lemma_map_of(b);
    if a.len() == 0 {
        if b.len() > 0 {
            assert(map_of(b).contains_key(b[0].0));
        }
        assert(a =~= b);
    } else {
        assert(map_of(a).contains_key(a[0].0));
        assert(b.len() > 0);
        let x = a.last();
        let y = b.last();
        assert(map_of(a).contains_key(a[a.len() - 1].0));
        assert(map_of(b).contains_key(b[b.len() - 1].0));
        let i = choose|i: int| 0 <= i < b.len() && #[trigger] b[i].0 == x.0;
        let j = choose|j: int| 0 <= j < a.len() && #[trigger] a[j].0 == y.0;
        if x.0 != y.0 {
            assert(text_before(b[i].0, b[b.len() - 1].0));
            assert(text_before(a[j].0, a[a.len() - 1].0));
            lemma_text_before_trans(x.0, y.0, x.0);
            lemma_text_before_irreflexive(x.0);
        }
        assert(x == y);
        let fa = a.drop_last();
        let fb = b.drop_last();
        lemma_map_of(fa);
        lemma_map_of(fb);
        assert(!map_of(fa).contains_key(x.0)) by {
            if map_of(fa).contains_key(x.0) {
                let k = choose|k: int| 0 <= k < fa.len() && #[trigger] fa[k].0 == x.0;
                assert(text_before(a[k].0, a[a.len() - 1].0));
                lemma_text_before_irreflexive(x.0);
            }
        }
        assert(!map_of(fb).contains_key(x.0)) by {
            if map_of(fb).contains_key(x.0) {
                let k = choose|k: int| 0 <= k < fb.len() && #[trigger] fb[k].0 == x.0;
                assert(text_before(b[k].0, b[b.len() - 1].0));
                lemma_text_before_irreflexive(x.0);
            }
        }
        assert(map_of(fa) =~= map_of(a).remove(x.0));
        assert(map_of(fb) =~= map_of(b).remove(x.0));
        lemma_sorted_unique(fa, fb);
        assert(a =~= fa.push(x));
        assert(b =~= fb.push(y));
    }
}

/// An ordered list is the ordered list of its fields.
pub proof fn lemma_sorted_pairs(pairs: Pairs)
    requires
        sorted(pairs),
    ensures
        sorted_pairs(map_of(pairs)) == pairs,
{
    let chosen = sorted_pairs(map_of(pairs));
    assert(sorted(chosen) && map_of(chosen) == map_of(pairs));
    lemma_sorted_unique(chosen, pairs);
}

/// Whether no name occurs twice.
pub open spec fn names_differ(pairs: Pairs) -> bool {
    forall|i: int, j: int|
        0 <= i < j < pairs.len() ==> #[trigger] pairs[i].0 != #[trigger] pairs[j].0
}

proof fn lemma_map_of_distinct(pairs: Pairs)
    requires
        names_differ(pairs),
    ensures
        forall|k: Seq<char>, v: Seq<char>| #[trigger]
            pairs.contains((k, v)) ==> map_of(pairs).contains_key(k) && map_of(pairs)[k] == v,
        forall|k: Seq<char>| #[trigger]
            map_of(pairs).contains_key(k) ==> pairs.contains((k, map_of(pairs)[k])),
    decreases pairs.len(),
{
    if pairs.len() > 0 {
        let front = pairs.drop_last();
        lemma_map_of_distinct(front);
        assert forall|k: Seq<char>, v: Seq<char>| #[trigger]
            pairs.contains((k, v)) implies map_of(pairs).contains_key(k) && map_of(pairs)[k]
            == v by {
            let i = choose|i: int| 0 <= i < pairs.len() && pairs[i] == (k, v);
            if i < front.len() {
                assert(front[i] == (k, v));
                assert(front.contains((k, v)));
                assert(pairs[i].0 != pairs[pairs.len() - 1].0);
            }
        }
        assert forall|k: Seq<char>| #[trigger]
            map_of(pairs).contains_key(k) implies pairs.contains((k, map_of(pairs)[k])) by {
            let v = map_of(pairs)[k];
            if k == pairs.last().0 {
                assert(pairs[pairs.len() - 1] == (k, v));
            } else {
                assert(map_of(front).contains_key(k));
                assert(front.contains((k, v)));
                let i = choose|i: int| 0 <= i < front.len() && front[i] == (k, v);
                assert(pairs[i] == (k, v));
            }
        }
    }
}

/// Lists that hold the same pairs, with no name twice, give the same fields.
pub proof fn lemma_map_of_permutation(a: Pairs, b: Pairs)
    requires
        a.to_multiset() == b.to_multiset(),
        names_differ(a),
    ensures
        map_of(a) == map_of(b),
{
    broadcast use vstd::seq_lib::group_to_multiset_ensures;

    assert forall|i: int, j: int| 0 <= i < j < b.len() implies #[trigger] b[i].0
        != #[trigger] b[j].0 by {
        if b[i].0 == b[j].0 {
            assert(b.contains(b[i]) && b.contains(b[j]));
            assert(a.to_multiset().count(b[i]) > 0 && a.to_multiset().count(b[j]) > 0);
            let x = choose|x: int| 0 <= x < a.len() && a[x] == b[i];
            let y = choose|y: int| 0 <= y < a.len() && a[y] == b[j];
            assert(x == y);
            assert(b[i] == b[j]);
            assert(b.to_multiset().count(b[i]) >= 2) by {
                let c = b.remove(j);
                assert(c[i] == b[i]);
                assert(c.contains(b[i]));
                assert(c.to_multiset().count(b[i]) > 0);
                vstd::seq_lib::to_multiset_remove(b, j);
            }
            let d = a.remove(x);
            vstd::seq_lib::to_multiset_remove(a, x);
            assert(d.to_multiset().count(b[i]) > 0);
            assert(d.contains(b[i]));
            let z = choose|z: int| 0 <= z < d.len() && d[z] == b[i];
            let w = if z < x {
                z
            } else {
                z + 1
            };
            assert(a[w] == a[x]);
        }
    }
    lemma_map_of_distinct(a);
    lemma_map_of_distinct(b);
    assert forall|k: Seq<char>| #[trigger] map_of(a).contains_key(k) == map_of(b).contains_key(k)
        && (map_of(a).contains_key(k) ==> map_of(a)[k] == map_of(b)[k]) by {
        if map_of(a).contains_key(k) {
            let v = map_of(a)[k];
            assert(a.contains((k, v)));
            assert(b.to_multiset().count((k, v)) > 0);
            assert(b.contains((k, v)));
        }
        if map_of(b).contains_key(k) {
            let v = map_of(b)[k];
            assert(b.contains((k, v)));
            assert(a.to_multiset().count((k, v)) > 0);
            assert(a.contains((k, v)));
        }
    }
    assert(map_of(a) =~= map_of(b));
}

/// The entries of a field list as characters.
pub open spec fn entries_view(entries: Seq<(String, String)>) -> Pairs {
    entries.map_values(|e: (String, String)| (e.0@, e.1@))
}

/// Names with values, each name once, in the order of the names.
#[derive(Debug, PartialEq, Eq)]
pub struct FieldMap {
    entries: Vec<(String, String)>,
}

impl View for FieldMap {
    type V = Map<Seq<char>, Seq<char>>;

    closed spec fn view(&self) -> Map<Seq<char>, Seq<char>> {
        map_of(entries_view(self.entries@))
    }
}

impl Clone for FieldMap {
    fn clone(&self) -> (r: Self)
        ensures
            r@ == self@,
    {
        proof {
            use_type_invariant(self);
        }
        let mut entries: Vec<(String, String)> = Vec::new();
        let mut i: usize = 0;
        while i < self.entries.len()
            invariant
                i <= self.entries@.len(),
                entries@ == self.entries@.take(i as int),
            decreases self.entries@.len() - i,
        {
            entries.push((self.entries[i].0.clone(), self.entries[i].1.clone()));
            assert(entries@ =~= self.entries@.take(i + 1));
            i = i + 1;
        }
        assert(entries@ =~= self.entries@);
        FieldMap { entries }
    }
}

impl Default for FieldMap {
    fn default() -> (r: Self)
        ensures
            r@ == Map::<Seq<char>, Seq<char>>::empty(),
    {
        FieldMap::new()
    }
}

impl FieldMap {
    #[verifier::type_invariant]
    spec fn ordered(self) -> bool {
        sorted(entries_view(self.entries@))
    }

    /// No fields.
    pub fn new() -> (r: Self)
        ensures
            r@ == Map::<Seq<char>, Seq<char>>::empty(),
    {
        let entries: Vec<(String, String)> = Vec::new();
        assert(entries_view(entries@) =~= Seq::empty());
        FieldMap { entries }
    }

    /// The fields of a list, a later value of a name in place of an earlier one.
    pub fn from_pairs(pairs: Vec<(String, String)>) -> (r: Self)
        ensures
            r@ == map_of(entries_view(pairs@)),
    {
        let mut r = FieldMap::new();
        let mut i: usize = 0;
        assert(entries_view(pairs@).take(0) =~= Seq::empty());
        while i < pairs.len()
            invariant
                i <= pairs@.len(),
                r@ == map_of(entries_view(pairs@).take(i as int)),
            decreases pairs@.len() - i,
        {
            r.insert(pairs[i].0.clone(), pairs[i].1.clone());
            let ghost next = entries_view(pairs@).take(i + 1);
            assert(next.drop_last() =~= entries_view(pairs@).take(i as int));
            i = i + 1;
        }
        assert(entries_view(pairs@).take(i as int) =~= entries_view(pairs@));
        r
    }

    /// How many fields there are.
    pub fn len(&self) -> (n: usize)
        ensures
            n == sorted_pairs(self@).len(),
    {
        proof {
            use_type_invariant(self);
            lemma_sorted_pairs(entries_view(self.entries@));
        }
        self.entries.len()
    }

    /// Whether there are no fields.
    pub fn is_empty(&self) -> (r: bool)
        ensures
            r == (self@ == Map::<Seq<char>, Seq<char>>::empty()),
    {
        proof {
            use_type_invariant(self);
            lemma_map_of(entries_view(self.entries@));
            if self.entries@.len() > 0 {
                assert(self@.contains_key(entries_view(self.entries@)[0].0));
            }
        }
        self.entries.len() == 0
    }

    /// The field at position `i` in the order of the names.
    pub fn nth(&self, i: usize) -> (r: (&String, &String))
        requires
            i < sorted_pairs(self@).len(),
        ensures
            (r.0@, r.1@) == sorted_pairs(self@)[i as int],
    {
        proof {
            use_type_invariant(self);
            lemma_sorted_pairs(entries_view(self.entries@));
        }
        (&self.entries[i].0, &self.entries[i].1)
    }

    /// The first position whose name does not come before `name`.
    fn position(&self, name: &str) -> (p: usize)
        ensures
            p <= self.entries@.len(),
            forall|i: int| 0 <= i < p ==> text_before(#[trigger] self.entries@[i].0@, name@),
            forall|i: int|
                p <= i < self.entries@.len() ==> !text_before(
                    #[trigger] self.entries@[i].0@,
                    name@,
                ),
    {
        proof {
            use_type_invariant(self);
        }
        let mut p: usize = 0;
        while p < self.entries.len()
            invariant
                p <= self.entries@.len(),
                sorted(entries_view(self.entries@)),
                forall|i: int| 0 <= i < p ==> text_before(#[trigger] self.entries@[i].0@, name@),
            decreases self.entries@.len() - p,
        {
            if !is_before(self.entries[p].0.as_str(), name) {
                assert forall|i: int| p <= i < self.entries@.len() implies !text_before(
                    #[trigger] self.entries@[i].0@,
                    name@,
                ) by {
                    let view = entries_view(self.entries@);
                    if i > p && text_before(view[i].0, name@) {
                        lemma_text_before_trans(view[p as int].0, view[i].0, name@);
                    }
                }
                return p;
            }
            p = p + 1;
        }
        p
    }

    /// The value of a field.
    pub fn get(&self, name: &str) -> (r: Option<&String>)
        ensures
            r is Some <==> self@.contains_key(name@),
            r matches Some(v) ==> v@ == self@[name@],
    {
        let p: usize = self.position(name);
        proof {
            use_type_invariant(self);
            let view = entries_view(self.entries@);
            lemma_map_of(view);
            if self@.contains_key(name@) {
                let i = choose|i: int| 0 <= i < view.len() && #[trigger] view[i].0 == name@;
                lemma_text_before_irreflexive(name@);
                assert(i >= p) by {
                    if i < p {
                        assert(text_before(self.entries@[i].0@, name@));
                    }
                }
                if i > p {
                    assert(text_before(view[p as int].0, view[i].0));
                    assert(text_before(self.entries@[p as int].0@, name@));
                }
            }
            if p < view.len() {
                assert(view[p as int].0 == self.entries@[p as int].0@);
            }
        }
        if p < self.entries.len() && same_text(self.entries[p].0.as_str(), name) {
            Some(&self.entries[p].1)
        } else {
            None
        }
    }

    /// Sets a field, in place of an earlier value.
    pub fn insert(&mut self, name: String, value: String)
        ensures
            final(self)@ == old(self)@.insert(name@, value@),
    {
        let p: usize = self.position(name.as_str());
        let ghost view = entries_view(self.entries@);
        proof {
            use_type_invariant(&*self);
            lemma_map_of(view);
            lemma_text_before_irreflexive(name@);
        }
        let mut taken = FieldMap::new();
        std::mem::swap(self, &mut taken);
        let mut entries: Vec<(String, String)> = taken.entries;
        if p < entries.len() && same_text(entries[p].0.as_str(), name.as_str()) {
            let ghost next = view.update(p as int, (name@, value@));
            proof {
                assert forall|i: int, j: int| 0 <= i < j < next.len() implies text_before(
                    #[trigger] next[i].0,
                    #[trigger] next[j].0,
                ) by {
                    assert(text_before(view[i].0, view[j].0));
                }
                lemma_map_of(next);
                lemma_same_map(view, next, p as int, name@, value@);
                assert(entries_view(entries@.update(p as int, (name, value))) =~= next);
            }
            entries.set(p, (name, value));
        } else {
            let ghost next = view.insert(p as int, (name@, value@));
            proof {
                assert forall|i: int, j: int| 0 <= i < j < next.len() implies text_before(
                    #[trigger] next[i].0,
                    #[trigger] next[j].0,
                ) by {
                    if i == p {
                        assert(view[j - 1].0 == entries@[j - 1].0@);
                        assert(!text_before(entries@[j - 1].0@, name@));
                        if view[j - 1].0 != name@ {
                            lemma_text_before_total(view[j - 1].0, name@);
                        } else {
                            assert(j - 1 > p);
                            assert(text_before(view[p as int].0, view[j - 1].0));
                            assert(text_before(entries@[p as int].0@, name@));
                        }
                    } else if j == p {
                        assert(view[i].0 == entries@[i].0@);
                    } else {
                        let a = if i < p {
                            i
                        } else {
                            i - 1
                        };
                        let b = if j < p {
                            j
                        } else {
                            j - 1
                        };
                        assert(text_before(view[a].0, view[b].0));
                    }
                }
                lemma_map_of(next);
                lemma_new_map(view, next, p as int, name@, value@);
                assert(entries_view(entries@.insert(p as int, (name, value))) =~= next);
            }
            entries.insert(p, (name, value));
        }
        *self = FieldMap { entries };
    }
}

impl FieldMap {
    /// Sets all fields of `other`, in place of earlier values.
    pub fn extend(&mut self, other: &FieldMap)
        ensures
            final(self)@ == old(self)@.union_prefer_right(other@),
    {
        let n: usize = other.len();
        let mut i: usize = 0;
        let ghost start = self@;
        let ghost pairs = sorted_pairs(other@);
        proof {
            use_type_invariant(other);
            lemma_sorted_pairs(entries_view(other.entries@));
            assert(pairs.take(0) =~= Seq::empty());
            assert(start.union_prefer_right(map_of(pairs.take(0))) =~= start);
        }
        while i < n
            invariant
                i <= n,
                n == pairs.len(),
                pairs == sorted_pairs(other@),
                self@ == start.union_prefer_right(map_of(pairs.take(i as int))),
            decreases n - i,
        {
            let (name, value) = other.nth(i);
            self.insert(name.clone(), value.clone());
            proof {
                let next = pairs.take(i + 1);
                assert(next.drop_last() =~= pairs.take(i as int));
                assert(self@ =~= start.union_prefer_right(map_of(next)));
            }
            i = i + 1;
        }
        assert(pairs.take(n as int) =~= pairs);
    }
}

/// Those of the fields whose names meet a condition.
pub open spec fn restricted(
    fields: Map<Seq<char>, Seq<char>>,
    condition: spec_fn(Seq<char>) -> bool,
) -> Map<Seq<char>, Seq<char>> {
    Map::new(
        |name: Seq<char>| fields.contains_key(name) && condition(name),
        |name: Seq<char>| fields[name],
    )
}

impl FieldMap {
    /// Those of the fields whose names meet a condition.
    pub(crate) fn filtered<F: Fn(&str) -> bool>(
        &self,
        keep: F,
        Ghost(condition): Ghost<spec_fn(Seq<char>) -> bool>,
    ) -> (r: FieldMap)
        requires
            forall|name: &str| #[trigger] keep.requires((name,)),
            forall|name: &str, b: bool| #[trigger]
                keep.ensures((name,), b) ==> b == condition(name@),
        ensures
            r@ == restricted(self@, condition),
    {
        let mut r: FieldMap = FieldMap::new();
        let mut i: usize = 0;
        let ghost pairs = entries_view(self.entries@);
        proof {
            use_type_invariant(self);
            assert(pairs.take(0) =~= Seq::empty());
            assert(r@ =~= restricted(map_of(pairs.take(0)), condition));
        }
        while i < self.entries.len()
            invariant
                i <= self.entries@.len(),
                pairs == entries_view(self.entries@),
                sorted(pairs),
                forall|name: &str| #[trigger] keep.requires((name,)),
                forall|name: &str, b: bool| #[trigger]
                    keep.ensures((name,), b) ==> b == condition(name@),
                r@ == restricted(map_of(pairs.take(i as int)), condition),
            decreases self.entries@.len() - i,
        {
            let ghost before = r@;
            if keep(self.entries[i].0.as_str()) {
                r.insert(self.entries[i].0.clone(), self.entries[i].1.clone());
            }
            proof {
                let next = pairs.take(i + 1);
                assert(next.drop_last() =~= pairs.take(i as int));
                lemma_absent(pairs, i as int);
                assert(r@ =~= restricted(map_of(next), condition));
            }
            i = i + 1;
        }
        assert(pairs.take(i as int) =~= pairs);
        r
    }
}

/// A name does not occur before its place in an ordered list.
proof fn lemma_absent(pairs: Pairs, i: int)
    requires
        sorted(pairs),
        0 <= i < pairs.len(),
    ensures
        !map_of(pairs.take(i)).contains_key(pairs[i].0),
{
    let part = pairs.take(i);
    lemma_map_of(part);
    if map_of(part).contains_key(pairs[i].0) {
        let j = choose|j: int| 0 <= j < part.len() && #[trigger] part[j].0 == pairs[i].0;
        assert(text_before(pairs[j].0, pairs[i].0));
        lemma_text_before_irreflexive(pairs[i].0);
    }
}

/// Strings by their characters.
pub open spec fn names_view(names: Seq<String>) -> Seq<Seq<char>> {
    names.map_values(|s: String| s@)
}

/// Whether a string is among some others.
pub fn contains_name(names: &Vec<String>, name: &str) -> (r: bool)
    ensures
        r == names_view(names@).contains(name@),
{
    let mut i: usize = 0;
    while i < names.len()
        invariant
            i <= names@.len(),
            forall|j: int| 0 <= j < i ==> #[trigger] names@[j]@ != name@,
        decreases names@.len() - i,
    {
        if same_text(names[i].as_str(), name) {
            assert(names_view(names@)[i as int] == name@);
            return true;
        }
        i = i + 1;
    }
    assert forall|j: int| 0 <= j < names@.len() implies names_view(names@)[j] != name@ by {
        assert(names@[j]@ != name@);
    }
    false
}

/// Whether each string comes before the next, so that none occurs twice.
pub open spec fn names_sorted(names: Seq<Seq<char>>) -> bool {
    forall|i: int, j: int|
        0 <= i < j < names.len() ==> text_before(#[trigger] names[i], #[trigger] names[j])
}

/// Whether `clean` holds the strings of `names` that are not empty, each once and in order.
pub open spec fn tidied(names: Seq<Seq<char>>, clean: Seq<Seq<char>>) -> bool {
    &&& names_sorted(clean)
    &&& forall|name: Seq<char>| #[trigger]
        clean.contains(name) <==> names.contains(name) && name.len() > 0
}

/// Puts strings in order and drops those that are empty or occur twice.
pub fn tidy_names(names: Vec<String>) -> (clean: Vec<String>)
    ensures
        tidied(names_view(names@), names_view(clean@)),
{
    let mut set: FieldMap = FieldMap::new();
    let mut i: usize = 0;
    let ghost given = names_view(names@);
    while i < names.len()
        invariant
            i <= names@.len(),
            given == names_view(names@),
            forall|name: Seq<char>| #[trigger]
                set@.contains_key(name) <==> given.take(i as int).contains(name) && name.len() > 0,
        decreases names@.len() - i,
    {
        let ghost before = set@;
        let ghost now = given[i as int];
        if names[i].as_str().unicode_len() > 0 {
            set.insert(names[i].clone(), String::new());
        }
        proof {
            let old_part = given.take(i as int);
            let new_part = given.take(i + 1);
            assert(new_part =~= old_part.push(now));
            assert forall|name: Seq<char>| #[trigger]
                set@.contains_key(name) <==> new_part.contains(name) && name.len() > 0 by {
                assert(new_part.contains(name) <==> old_part.contains(name) || name == now) by {
                    if old_part.contains(name) {
                        let j = choose|j: int| 0 <= j < old_part.len() && old_part[j] == name;
                        assert(new_part[j] == name);
                    }
                    if name == now {
                        assert(new_part[i as int] == name);
                    }
                }
                assert(before.contains_key(name) <==> old_part.contains(name) && name.len() > 0);
            }
        }
        i = i + 1;
    }
    assert(given.take(i as int) =~= given);
    let mut clean: Vec<String> = Vec::new();
    let n: usize = set.len();
    let mut k: usize = 0;
    let ghost pairs = sorted_pairs(set@);
    proof {
        use_type_invariant(&set);
        lemma_sorted_pairs(entries_view(set.entries@));
    }
    while k < n
        invariant
            k <= n,
            n == pairs.len(),
            pairs == sorted_pairs(set@),
            clean@.len() == k,
            forall|j: int| 0 <= j < k ==> #[trigger] clean@[j]@ == pairs[j].0,
        decreases n - k,
    {
        let (name, _value) = set.nth(k);
        clean.push(name.clone());
        k = k + 1;
    }
    proof {
        let view = names_view(clean@);
        lemma_map_of(pairs);
        assert forall|i: int, j: int| 0 <= i < j < view.len() implies text_before(
            #[trigger] view[i],
            #[trigger] view[j],
        ) by {
            assert(clean@[i]@ == pairs[i].0 && clean@[j]@ == pairs[j].0);
        }
        assert forall|name: Seq<char>| #[trigger] view.contains(name) <==> given.contains(name)
            && name.len() > 0 by {
            assert(set@.contains_key(name) <==> given.contains(name) && name.len() > 0);
            if view.contains(name) {
                let j = choose|j: int| 0 <= j < view.len() && view[j] == name;
                assert(clean@[j]@ == pairs[j].0);
                assert(map_of(pairs).contains_key(pairs[j].0));
            }
            if set@.contains_key(name) {
                let j = choose|j: int| 0 <= j < pairs.len() && #[trigger] pairs[j].0 == name;
                assert(clean@[j]@ == pairs[j].0);
                assert(view[j] == name);
            }
        }
    }
    clean
}

proof fn lemma_same_map(view: Pairs, next: Pairs, p: int, name: Seq<char>, value: Seq<char>)
    requires
        sorted(view),
        sorted(next),
        0 <= p < view.len(),
        view[p].0 == name,
        next == view.update(p, (name, value)),
    ensures
        map_of(next) == map_of(view).insert(name, value),
{
    lemma_map_of(view);
    lemma_map_of(next);
    let target = map_of(view).insert(name, value);
    assert forall|k: Seq<char>| map_of(next).contains_key(k) == #[trigger] target.contains_key(
        k,
    ) && (target.contains_key(k) ==> map_of(next)[k] == target[k]) by {
        if map_of(next).contains_key(k) {
            let i = choose|i: int| 0 <= i < next.len() && #[trigger] next[i].0 == k;
            assert(map_of(view).contains_key(view[i].0));
            if i != p && k == name {
                lemma_text_before_irreflexive(k);
                if i < p {
                    assert(text_before(view[i].0, view[p].0));
                } else {
                    assert(text_before(view[p].0, view[i].0));
                }
            }
        }
        if target.contains_key(k) {
            if k == name {
                assert(map_of(next).contains_key(next[p].0));
            } else {
                let i = choose|i: int| 0 <= i < view.len() && #[trigger] view[i].0 == k;
                assert(map_of(next).contains_key(next[i].0));
            }
        }
    }
    assert(map_of(next) =~= target);
}

proof fn lemma_new_map(view: Pairs, next: Pairs, p: int, name: Seq<char>, value: Seq<char>)
    requires
        sorted(view),
        sorted(next),
        0 <= p <= view.len(),
        next == view.insert(p, (name, value)),
    ensures
        map_of(next) == map_of(view).insert(name, value),
{
    lemma_map_of(view);
    lemma_map_of(next);
    let target = map_of(view).insert(name, value);
    assert forall|k: Seq<char>| map_of(next).contains_key(k) == #[trigger] target.contains_key(
        k,
    ) && (target.contains_key(k) ==> map_of(next)[k] == target[k]) by {
        assert(map_of(next).contains_key(next[p].0));
        if map_of(next).contains_key(k) {
            let i = choose|i: int| 0 <= i < next.len() && #[trigger] next[i].0 == k;
            if i < p {
                assert(next[i] == view[i]);
                assert(map_of(view).contains_key(view[i].0));
            } else if i > p {
                assert(next[i] == view[i - 1]);
                assert(map_of(view).contains_key(view[i - 1].0));
            }
            if i != p && k == name {
                lemma_text_before_irreflexive(k);
                if i < p {
                    assert(text_before(next[i].0, next[p].0));
                } else {
                    assert(text_before(next[p].0, next[i].0));
                }
            }
        }
        if target.contains_key(k) && k != name {
            let i = choose|i: int| 0 <= i < view.len() && #[trigger] view[i].0 == k;
            if i < p {
                assert(map_of(next).contains_key(next[i].0));
            } else {
                assert(map_of(next).contains_key(next[i + 1].0));
            }
        }
    }
    assert(map_of(next) =~= target);
}

/// A list of pairs gives the fields that it names, each with the value that came last for its name.
pub proof fn law_last_value_of_a_name_counts(pairs: Pairs, i: int)
    requires
        0 <= i < pairs.len(),
        forall|j: int| i < j < pairs.len() ==> (#[trigger] pairs[j]).0 != pairs[i].0,
    ensures
        map_of(pairs).contains_key(pairs[i].0),
        map_of(pairs)[pairs[i].0] == pairs[i].1,
    decreases pairs.len(),
{
    if i < pairs.len() - 1 {
        let front = pairs.drop_last();
        assert forall|j: int| i < j < front.len() implies (#[trigger] front[j]).0 != front[i].0 by {
            assert(pairs[j].0 != pairs[i].0);
        }
        law_last_value_of_a_name_counts(front, i);
        assert(pairs[pairs.len() - 1].0 != pairs[i].0);
    }
}

/// A list of pairs gives no field that it does not name.
pub proof fn law_only_named_fields_are_there(pairs: Pairs, name: Seq<char>)
    requires
        forall|i: int| 0 <= i < pairs.len() ==> (#[trigger] pairs[i]).0 != name,
    ensures
        !map_of(pairs).contains_key(name),
    decreases pairs.len(),
{
    if pairs.len() > 0 {
        let front = pairs.drop_last();
        assert forall|i: int| 0 <= i < front.len() implies (#[trigger] front[i]).0 != name by {
            assert(pairs[i].0 != name);
        }
        law_only_named_fields_are_there(front, name);
        assert(pairs[pairs.len() - 1].0 != name);
    }
}

/// The fields of every ordered list are listed again in that order: each name once, each with its
/// value, every name before those that come after it.
pub proof fn law_fields_are_listed_in_order(pairs: Pairs)
    requires
        forall|i: int, j: int|
            0 <= i < j < pairs.len() ==> text_before(
                (#[trigger] pairs[i]).0,
                (#[trigger] pairs[j]).0,
            ),
    ensures
        sorted_pairs(map_of(pairs)) == pairs,
        forall|i: int|
            0 <= i < pairs.len() ==> map_of(pairs).contains_key((#[trigger] pairs[i]).0) && map_of(
                pairs,
            )[pairs[i].0] == pairs[i].1,
{
    assert(sorted(pairs));
    lemma_sorted_pairs(pairs);
    lemma_map_of(pairs);
}

/// Lists of names are tidied up by leaving out what is empty or comes twice, and by putting them in
/// order; no name is lost and none is added.
pub proof fn law_tidy_names_are_the_same_names(
    names: Seq<Seq<char>>,
    clean: Seq<Seq<char>>,
    name: Seq<char>,
)
    requires
        tidied(names, clean),
    ensures
        name.len() > 0 ==> (clean.contains(name) <==> names.contains(name)),
        name.len() == 0 ==> !clean.contains(name),
        forall|i: int, j: int|
            0 <= i < j < clean.len() ==> text_before(#[trigger] clean[i], #[trigger] clean[j])
                && clean[i] != clean[j],
{
    assert forall|i: int, j: int| 0 <= i < j < clean.len() implies text_before(
        #[trigger] clean[i],
        #[trigger] clean[j],
    ) && clean[i] != clean[j] by {
        lemma_text_before_irreflexive(clean[i]);
    }
}

/// Only the fields that meet the condition are left, with their values.
pub proof fn law_restriction_keeps_values(
    fields: Map<Seq<char>, Seq<char>>,
    condition: spec_fn(Seq<char>) -> bool,
    name: Seq<char>,
)
    ensures
        restricted(fields, condition).contains_key(name) <==> fields.contains_key(name)
            && condition(name),
        fields.contains_key(name) && condition(name) ==> restricted(fields, condition)[name]
            == fields[name],
{
}

/// Names and pairs are taken as they are, character by character and in their order.
pub proof fn law_names_are_taken_as_they_are(
    names: Seq<String>,
    entries: Seq<(String, String)>,
    i: int,
)
    ensures
        names_view(names).len() == names.len(),
        0 <= i < names.len() ==> names_view(names)[i] == names[i]@,
        entries_view(entries).len() == entries.len(),
        0 <= i < entries.len() ==> entries_view(entries)[i] == (entries[i].0@, entries[i].1@),
{
}

} // verus!
