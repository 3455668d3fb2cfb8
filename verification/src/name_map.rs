//! A map from names to values, kept as a listing in ascending order of
//! names. The order makes every walk over the map reproducible, and a name
//! occurs in the listing at most once.

use crate::names::{
    lemma_name_lt_asymmetric, lemma_name_lt_irreflexive, lemma_name_lt_total,
    lemma_name_lt_transitive, name_less, name_lt,
};
use vstd::prelude::*;

verus! {

/// One line of the listing.
#[derive(Clone, Debug)]
struct Entry<T> {
    name: String,
    value: T,
}

/// Names mapped to values, listed in ascending order of names.
#[derive(Debug)]
pub struct NameMap<T> {
    items: Vec<Entry<T>>,
}

/// Each name of the listing comes strictly before all that follow it.
pub open spec fn ascending<T>(s: Seq<(Seq<char>, T)>) -> bool {
    forall|i: int, j: int| 0 <= i < j < s.len() ==> name_lt(#[trigger] s[i].0, #[trigger] s[j].0)
}

/// The listing has a line for `name`.
pub open spec fn lists<T>(s: Seq<(Seq<char>, T)>, name: Seq<char>) -> bool {
    exists|i: int| 0 <= i < s.len() && #[trigger] s[i].0 == name
}

/// A line of the listing that holds `name`, where there is one.
pub open spec fn line_of<T>(s: Seq<(Seq<char>, T)>, name: Seq<char>) -> int {
    choose|i: int| 0 <= i < s.len() && #[trigger] s[i].0 == name
}

/// The map that a listing spells out.
pub open spec fn listing_map<T>(s: Seq<(Seq<char>, T)>) -> Map<Seq<char>, T> {
    Map::new(|name: Seq<char>| lists(s, name), |name: Seq<char>| s[line_of(s, name)].1)
}

/// How many lines of the listing hold a name that comes before `name`.
pub open spec fn rank<T>(s: Seq<(Seq<char>, T)>, name: Seq<char>) -> int
    decreases s.len(),
{
    if s.len() == 0 {
        0
    } else {
        rank(s.drop_last(), name) + if name_lt(s.last().0, name) {
            1int
        } else {
            0int
        }
    }
}

/// The listing with `name` mapped to `value`: written over the line that
/// `name` had, or put in as a new line after the names that come before.
pub open spec fn put<T>(s: Seq<(Seq<char>, T)>, name: Seq<char>, value: T) -> Seq<(Seq<char>, T)> {
    if lists(s, name) {
        s.update(rank(s, name), (name, value))
    } else {
        s.insert(rank(s, name), (name, value))
    }
}

/// In an ascending listing a name stands on one line only.
pub proof fn lemma_ascending_distinct<T>(s: Seq<(Seq<char>, T)>, i: int, j: int)
    requires
        ascending(s),
        0 <= i < s.len(),
        0 <= j < s.len(),
        s[i].0 == s[j].0,
    ensures
        i == j,
{
    lemma_name_lt_irreflexive(s[i].0);
}

/// The map of an ascending listing holds each line's name with its value.
pub proof fn lemma_listing_map_line<T>(s: Seq<(Seq<char>, T)>, i: int)
    requires
        ascending(s),
        0 <= i < s.len(),
    ensures
        listing_map(s).contains_key(s[i].0),
        listing_map(s)[s[i].0] == s[i].1,
{
    let name = s[i].0;
    assert(lists(s, name));
    lemma_ascending_distinct(s, i, line_of(s, name));
}

/// Two ascending listings that spell out the same map are the same listing.
pub proof fn lemma_listing_unique<T>(a: Seq<(Seq<char>, T)>, b: Seq<(Seq<char>, T)>)
    requires
        ascending(a),
        ascending(b),
        listing_map(a) == listing_map(b),
    ensures
        a == b,
    decreases a.len(),
{
    if a.len() == 0 {
        if b.len() > 0 {
            lemma_listing_map_line(b, 0);
            assert(lists(a, b[0].0));
        }
        assert(a =~= b);
    } else if b.len() == 0 {
        lemma_listing_map_line(a, 0);
        assert(lists(b, a[0].0));
    } else {
        // The least name of the map heads both listings.
        lemma_listing_map_line(a, 0);
        lemma_listing_map_line(b, 0);
        assert(lists(b, a[0].0));
        assert(lists(a, b[0].0));
        let ia = line_of(a, b[0].0);
        let ib = line_of(b, a[0].0);
        if ia != 0 {
            assert(name_lt(a[0].0, a[ia].0));
            if ib != 0 {
                assert(name_lt(b[0].0, b[ib].0));
                lemma_name_lt_asymmetric(a[0].0, b[0].0);
            }
        }
        if ib != 0 {
            assert(name_lt(b[0].0, b[ib].0));
            if ia != 0 {
                assert(name_lt(a[0].0, a[ia].0));
                lemma_name_lt_asymmetric(a[0].0, b[0].0);
            }
        }
        assert(a[0].0 == b[0].0);
        assert(a[0].1 == b[0].1);
        let ta = a.drop_first();
        let tb = b.drop_first();
        assert(ascending(ta)) by {
            assert forall|i: int, j: int| 0 <= i < j < ta.len() implies name_lt(
                #[trigger] ta[i].0,
                #[trigger] ta[j].0,
            ) by {
                assert(name_lt(a[i + 1].0, a[j + 1].0));
            }
        }
        assert(ascending(tb)) by {
            assert forall|i: int, j: int| 0 <= i < j < tb.len() implies name_lt(
                #[trigger] tb[i].0,
                #[trigger] tb[j].0,
            ) by {
                assert(name_lt(b[i + 1].0, b[j + 1].0));
            }
        }
        lemma_tail_map(a);
        lemma_tail_map(b);
        lemma_listing_unique(ta, tb);
        assert(a =~= seq![a[0]] + ta);
        assert(b =~= seq![b[0]] + tb);
    }
}

/// The map of an ascending listing without its first line is the map of
/// the listing without the first line's name.
pub proof fn lemma_tail_map<T>(s: Seq<(Seq<char>, T)>)
    requires
        ascending(s),
        s.len() > 0,
    ensures
        listing_map(s.drop_first()) == listing_map(s).remove(s[0].0),
{
    let t = s.drop_first();
    let whole = listing_map(s);
    let tail = listing_map(t);
    assert(ascending(t)) by {
        assert forall|i: int, j: int| 0 <= i < j < t.len() implies name_lt(
            #[trigger] t[i].0,
            #[trigger] t[j].0,
        ) by {
            assert(name_lt(s[i + 1].0, s[j + 1].0));
        }
    }
    assert forall|name: Seq<char>| tail.contains_key(name) <==> whole.remove(s[0].0).contains_key(
        name,
    ) by {
        if tail.contains_key(name) {
            let i = line_of(t, name);
            assert(s[i + 1].0 == name);
            assert(lists(s, name));
            assert(name_lt(s[0].0, s[i + 1].0));
            lemma_name_lt_irreflexive(name);
        }
        if whole.remove(s[0].0).contains_key(name) {
            let i = line_of(s, name);
            assert(i != 0);
            assert(t[i - 1].0 == name);
            assert(lists(t, name));
        }
    }
    assert forall|name: Seq<char>| tail.contains_key(name) implies tail[name] == whole.remove(
        s[0].0,
    )[name] by {
        let i = line_of(t, name);
        lemma_listing_map_line(t, i);
        assert(s[i + 1] == t[i]);
        lemma_listing_map_line(s, i + 1);
    }
    assert(tail =~= whole.remove(s[0].0));
}

/// An ascending listing without its last line is ascending, and its map is
/// the map of the listing without the last line's name.
pub proof fn lemma_front_map<T>(s: Seq<(Seq<char>, T)>)
    requires
        ascending(s),
        s.len() > 0,
    ensures
        ascending(s.drop_last()),
        listing_map(s.drop_last()) == listing_map(s).remove(s.last().0),
{
    let t = s.drop_last();
    let end = s.len() - 1;
    let whole = listing_map(s);
    let front = listing_map(t);
    assert forall|i: int, j: int| 0 <= i < j < t.len() implies name_lt(
        #[trigger] t[i].0,
        #[trigger] t[j].0,
    ) by {
        assert(name_lt(s[i].0, s[j].0));
    }
    assert forall|name: Seq<char>| front.contains_key(name) <==> whole.remove(s[end].0).contains_key(
        name,
    ) by {
        if front.contains_key(name) {
            let i = line_of(t, name);
            assert(s[i].0 == name);
            assert(lists(s, name));
            assert(name_lt(s[i].0, s[end].0));
            lemma_name_lt_irreflexive(name);
        }
        if whole.remove(s[end].0).contains_key(name) {
            let i = line_of(s, name);
            assert(i != end);
            assert(t[i].0 == name);
            assert(lists(t, name));
        }
    }
    assert forall|name: Seq<char>| front.contains_key(name) implies front[name] == whole.remove(
        s[end].0,
    )[name] by {
        let i = line_of(t, name);
        lemma_listing_map_line(t, i);
        assert(s[i] == t[i]);
        lemma_listing_map_line(s, i);
    }
    assert(front =~= whole.remove(s[end].0));
}

impl<T> View for NameMap<T> {
    type V = Map<Seq<char>, T>;

    open spec fn view(&self) -> Map<Seq<char>, T> {
        listing_map(self.entries())
    }
}

impl<T> NameMap<T> {
    /// The lines of the map, in the order in which they are walked.
    pub closed spec fn entries(&self) -> Seq<(Seq<char>, T)> {
        self.items@.map_values(|e: Entry<T>| (e.name@, e.value))
    }

    /// The lines stand in ascending order of names. This holds of every
    /// map; the functions below say so where a caller's proof needs it.
    pub open spec fn wf(&self) -> bool {
        ascending(self.entries())
    }

    #[verifier::type_invariant]
    spec fn listed_in_order(self) -> bool {
        self.wf()
    }
}

impl<T: Copy> Clone for NameMap<T> {
    fn clone(&self) -> (copy: Self)
        ensures
            copy.entries() == self.entries(),
            copy@ == self@,
    {
        proof {
            use_type_invariant(self);
        }
        let mut items: Vec<Entry<T>> = Vec::new();
        let mut i: usize = 0;
        while i < self.items.len()
            invariant
                i <= self.items.len(),
                items.len() == i,
                forall|k: int| 0 <= k < i ==> (#[trigger] items[k]).name@ == self.items[k].name@,
                forall|k: int| 0 <= k < i ==> (#[trigger] items[k]).value == self.items[k].value,
            decreases self.items.len() - i,
        {
            let name = self.items[i].name.clone();
            let value = self.items[i].value;
            items.push(Entry { name, value });
            i += 1;
        }
        assert(items@.map_values(|e: Entry<T>| (e.name@, e.value)) =~= self.entries());
        NameMap { items }
    }
}

impl<T: Copy> NameMap<T> {
    /// The map without any line.
    pub fn new() -> (made: Self)
        ensures
            made.entries() == Seq::<(Seq<char>, T)>::empty(),
            made@ == Map::<Seq<char>, T>::empty(),
            made.wf(),
    {
        let made = NameMap { items: Vec::new() };
        assert(made.entries() =~= Seq::<(Seq<char>, T)>::empty());
        assert(made@ =~= Map::<Seq<char>, T>::empty());
        made
    }

    /// How many names the map holds.
    pub fn len(&self) -> (n: usize)
        ensures
            n == self.entries().len(),
            self.wf(),
    {
        proof {
            use_type_invariant(self);
        }
        self.items.len()
    }

    /// The name on line `i`.
    pub fn name_at(&self, i: usize) -> (name: &str)
        requires
            i < self.entries().len(),
        ensures
            name@ == self.entries()[i as int].0,
    {
        self.items[i].name.as_str()
    }

    /// The value on line `i`.
    pub fn value_at(&self, i: usize) -> (value: T)
        requires
            i < self.entries().len(),
        ensures
            value == self.entries()[i as int].1,
    {
        self.items[i].value
    }

    /// Where `name` stands in the listing: whether it has a line, and the
    /// line it has or would take.
    fn find(&self, name: &str) -> (at: (bool, usize))
        ensures
            self.wf(),
            at.1 <= self.entries().len(),
            at.0 ==> at.1 < self.entries().len() && self.entries()[at.1 as int].0 == name@,
            !at.0 ==> !lists(self.entries(), name@),
            forall|i: int| 0 <= i < at.1 ==> name_lt(#[trigger] self.entries()[i].0, name@),
            forall|i: int|
                at.1 <= i < self.entries().len() && !(at.0 && i == at.1) ==> name_lt(
                    name@,
                    #[trigger] self.entries()[i].0,
                ),
    {
        proof {
            use_type_invariant(self);
        }
        let ghost s = self.entries();
        let mut low: usize = 0;
        let mut high: usize = self.items.len();
        while low < high
            invariant
                s == self.entries(),
                ascending(s),
                low <= high <= s.len(),
                s.len() == self.items.len(),
                forall|i: int| 0 <= i < low ==> name_lt(#[trigger] s[i].0, name@),
                forall|i: int| high <= i < s.len() ==> name_lt(name@, #[trigger] s[i].0),
            decreases high - low,
        {
            let middle: usize = low + (high - low) / 2;
            let here = self.items[middle].name.as_str();
            assert(here@ == s[middle as int].0);
            if name_less(here, name) {
                assert forall|i: int| 0 <= i < middle + 1 implies name_lt(
                    #[trigger] s[i].0,
                    name@,
                ) by {
                    if i < middle {
                        assert(name_lt(s[i].0, s[middle as int].0));
                        lemma_name_lt_transitive(s[i].0, here@, name@);
                    }
                }
                low = middle + 1;
            } else if name_less(name, here) {
                assert forall|i: int| middle <= i < s.len() implies name_lt(
                    name@,
                    #[trigger] s[i].0,
                ) by {
                    if middle < i {
                        assert(name_lt(s[middle as int].0, s[i].0));
                        lemma_name_lt_transitive(name@, here@, s[i].0);
                    }
                }
                high = middle;
            } else {
                proof {
                    if here@ != name@ {
                        lemma_name_lt_total(here@, name@);
                    }
                    assert forall|i: int| 0 <= i < middle implies name_lt(
                        #[trigger] s[i].0,
                        name@,
                    ) by {
                        assert(name_lt(s[i].0, s[middle as int].0));
                    }
                    assert forall|i: int| middle < i < s.len() implies name_lt(
                        name@,
                        #[trigger] s[i].0,
                    ) by {
                        assert(name_lt(s[middle as int].0, s[i].0));
                    }
                }
                return (true, middle);
            }
        }
        proof {
            if lists(s, name@) {
                let i = line_of(s, name@);
                lemma_name_lt_irreflexive(name@);
                if i < low {
                    assert(name_lt(s[i].0, name@));
                } else {
                    assert(name_lt(name@, s[i].0));
                }
            }
        }
        (false, low)
    }

    /// The value that `name` maps to, if it maps to one.
    pub fn get(&self, name: &str) -> (value: Option<T>)
        ensures
            self@.contains_key(name@) ==> value == Some(self@[name@]),
            !self@.contains_key(name@) ==> value is None,
    {
        let at = self.find(name);
        if at.0 {
            proof {
                lemma_listing_map_line(self.entries(), at.1 as int);
            }
            Some(self.items[at.1].value)
        } else {
            None
        }
    }

    /// Maps `name` to `value`, and returns what it mapped to before.
    pub fn insert(&mut self, name: String, value: T) -> (previous: Option<T>)
        ensures
            final(self).entries() == put(old(self).entries(), name@, value),
            final(self)@ == old(self)@.insert(name@, value),
            old(self)@.contains_key(name@) ==> previous == Some(old(self)@[name@]),
            !old(self)@.contains_key(name@) ==> previous is None,
            old(self).wf(),
            final(self).wf(),
    {
        let at = self.find(name.as_str());
        let ghost before = self.entries();
        let ghost key = name@;
        let mut items: Vec<Entry<T>> = Vec::new();
        std::mem::swap(&mut items, &mut self.items);
        assert(self.entries() =~= Seq::<(Seq<char>, T)>::empty());
        assert(items@.map_values(|e: Entry<T>| (e.name@, e.value)) == before);
        let previous = if at.0 {
            let was = items[at.1].value;
            items.set(at.1, Entry { name, value });
            Some(was)
        } else {
            items.insert(at.1, Entry { name, value });
            None
        };
        let ghost after = items@.map_values(|e: Entry<T>| (e.name@, e.value));
        proof {
            let p = at.1 as int;
            if at.0 {
                assert(after =~= before.update(p, (key, value)));
                lemma_listing_map_line(before, p);
            } else {
                assert(after =~= before.insert(p, (key, value)));
            }
            lemma_put(before, p, key, value, at.0);
            lemma_rank(before, p, key);
        }
        self.items = items;
        assert(self.entries() == after);
        previous
    }
}

/// The rank of a name lies within the listing.
pub proof fn lemma_rank_bounds<T>(s: Seq<(Seq<char>, T)>, name: Seq<char>)
    ensures
        0 <= rank(s, name) <= s.len(),
    decreases s.len(),
{
    if s.len() > 0 {
        lemma_rank_bounds(s.drop_last(), name);
    }
}

/// The rank of `name` is the line up to which the names come before it.
pub proof fn lemma_rank<T>(s: Seq<(Seq<char>, T)>, p: int, name: Seq<char>)
    requires
        0 <= p <= s.len(),
        forall|i: int| 0 <= i < p ==> name_lt(#[trigger] s[i].0, name),
        forall|i: int| p <= i < s.len() ==> !name_lt(#[trigger] s[i].0, name),
    ensures
        rank(s, name) == p,
    decreases s.len(),
{
    if s.len() > 0 {
        let t = s.drop_last();
        let last = s.len() - 1;
        assert(s.last() == s[last]);
        if p == s.len() {
            assert(name_lt(s[last].0, name));
            lemma_rank(t, p - 1, name);
        } else {
            assert(!name_lt(s[last].0, name));
            lemma_rank(t, p, name);
        }
    }
}

/// Writing a line for `name` at the place the order gives it, over the line
/// the name had or between its neighbours, keeps the listing ascending and
/// maps `name` to `value`.
proof fn lemma_put<T>(s: Seq<(Seq<char>, T)>, p: int, name: Seq<char>, value: T, over: bool)
    requires
        ascending(s),
        0 <= p <= s.len(),
        over ==> p < s.len() && s[p].0 == name,
        !over ==> !lists(s, name),
        forall|i: int| 0 <= i < p ==> name_lt(#[trigger] s[i].0, name),
        forall|i: int| p <= i < s.len() && !(over && i == p) ==> name_lt(name, #[trigger] s[i].0),
    ensures
        ({
            let t = if over {
                s.update(p, (name, value))
            } else {
                s.insert(p, (name, value))
            };
            &&& ascending(t)
            &&& listing_map(t) == listing_map(s).insert(name, value)
            &&& listing_map(s).contains_key(name) == over
            &&& lists(s, name) == over
            &&& forall|i: int| p <= i < s.len() ==> !name_lt(#[trigger] s[i].0, name)
        }),
{
    assert forall|i: int| p <= i < s.len() implies !name_lt(#[trigger] s[i].0, name) by {
        if over && i == p {
            lemma_name_lt_irreflexive(name);
        } else {
            lemma_name_lt_asymmetric(name, s[i].0);
        }
    }
    let t = if over {
        s.update(p, (name, value))
    } else {
        s.insert(p, (name, value))
    };
    let shift = if over {
        0int
    } else {
        1int
    };
    assert forall|i: int, j: int| 0 <= i < j < t.len() implies name_lt(
        #[trigger] t[i].0,
        #[trigger] t[j].0,
    ) by {
        if j < p {
            assert(name_lt(s[i].0, s[j].0));
        } else if i > p {
            assert(name_lt(s[i - shift].0, s[j - shift].0));
        } else if i == p {
            assert(name_lt(name, s[j - shift].0));
        } else if j == p {
            assert(name_lt(s[i].0, name));
        } else {
            assert(name_lt(s[i].0, name));
            assert(name_lt(name, s[j - shift].0));
            lemma_name_lt_transitive(s[i].0, name, s[j - shift].0);
        }
    }
    assert(t[p].0 == name);
    lemma_listing_map_line(t, p);
    let m = listing_map(s).insert(name, value);
    assert forall|k: Seq<char>| listing_map(t).contains_key(k) <==> m.contains_key(k) by {
        if listing_map(t).contains_key(k) && k != name {
            let i = line_of(t, k);
            if i < p {
                assert(s[i].0 == k);
            } else {
                assert(s[i - shift].0 == k);
            }
            assert(lists(s, k));
        }
        if lists(s, k) && k != name {
            let i = line_of(s, k);
            if i < p {
                assert(t[i].0 == k);
            } else {
                assert(t[i + shift].0 == k);
            }
            assert(lists(t, k));
        }
    }
    assert forall|k: Seq<char>| listing_map(t).contains_key(k) implies listing_map(t)[k] == m[k] by {
        if k != name {
            let i = line_of(s, k);
            lemma_listing_map_line(s, i);
            let j = if i < p {
                i
            } else {
                i + shift
            };
            assert(t[j] == s[i]);
            lemma_listing_map_line(t, j);
        }
    }
    assert(listing_map(t) =~= m);
    if over {
        assert(lists(s, name));
    }
}

} // verus!
