//! Sets of strings that are walked in order.

use crate::text::{comes_before, precedes, same_text, views};
use vstd::prelude::*;

verus! {

/// Whether the strings of a list stand in strictly ascending order.
pub open spec fn ascending(list: Seq<Seq<char>>) -> bool {
    forall|i: int, j: int| 0 <= i < j < list.len() ==> precedes(#[trigger] list[i], #[trigger] list[j])
}

/// The strings of a finite set in ascending order.
pub open spec fn in_order(set: Set<Seq<char>>) -> Seq<Seq<char>> {
    choose|list: Seq<Seq<char>>| ascending(list) && #[trigger] list.to_set() == set
}

/// No string precedes itself.
pub proof fn lemma_precedes_irreflexive(a: Seq<char>)
    ensures
        !precedes(a, a),
    decreases a.len(),
{
    if a.len() > 0 {
        lemma_precedes_irreflexive(a.skip(1));
    }
}

/// What precedes a string precedes all that the string precedes.
pub proof fn lemma_precedes_transitive(a: Seq<char>, b: Seq<char>, c: Seq<char>)
    requires
        precedes(a, b),
        precedes(b, c),
    ensures
        precedes(a, c),
    decreases a.len(),
{
    if a.len() > 0 && b.len() > 0 && c.len() > 0 && a[0] == b[0] && b[0] == c[0] {
        lemma_precedes_transitive(a.skip(1), b.skip(1), c.skip(1));
    }
}

/// Of two different strings one precedes the other.
pub proof fn lemma_precedes_total(a: Seq<char>, b: Seq<char>)
    ensures
        a == b || precedes(a, b) || precedes(b, a),
    decreases a.len(),
{
    if a.len() > 0 && b.len() > 0 && a[0] == b[0] {
        lemma_precedes_total(a.skip(1), b.skip(1));
        if a.skip(1) == b.skip(1) {
            assert(a =~= seq![a[0]] + a.skip(1));
            assert(b =~= seq![b[0]] + b.skip(1));
        }
    } else if a.len() == 0 && b.len() == 0 {
        assert(a =~= b);
    }
}

/// A set can be listed in ascending order in one way only.
pub proof fn lemma_ascending_unique(a: Seq<Seq<char>>, b: Seq<Seq<char>>)
    requires
        ascending(a),
        ascending(b),
        a.to_set() == b.to_set(),
    ensures
        a == b,
    decreases a.len(),
{
    assert forall|x: Seq<char>| a.contains(x) == b.contains(x) by {
        assert(a.to_set().contains(x) == a.contains(x));
        assert(b.to_set().contains(x) == b.contains(x));
    }
    if a.len() == 0 {
        if b.len() > 0 {
            assert(b.contains(b[0]));
        }
        assert(a =~= b);
    } else {
        assert(a.contains(a[0]));
        let j = choose|j: int| 0 <= j < b.len() && b[j] == a[0];
        assert(b.contains(b[0]));
        let i = choose|i: int| 0 <= i < a.len() && a[i] == b[0];
        if i > 0 && j > 0 {
            assert(precedes(a[0], a[i]));
            assert(precedes(b[0], b[j]));
            lemma_precedes_transitive(a[0], b[0], a[0]);
            lemma_precedes_irreflexive(a[0]);
        }
        assert(a[0] == b[0]);
        let (a1, b1) = (a.skip(1), b.skip(1));
        assert forall|x: Seq<char>| a1.to_set().contains(x) == b1.to_set().contains(x) by {
            lemma_tail_contains(a, x);
            lemma_tail_contains(b, x);
        }
        assert(a1.to_set() =~= b1.to_set());
        assert(ascending(a1));
        assert(ascending(b1));
        lemma_ascending_unique(a1, b1);
        assert(a =~= seq![a[0]] + a1);
        assert(b =~= seq![b[0]] + b1);
    }
}

proof fn lemma_tail_contains(a: Seq<Seq<char>>, x: Seq<char>)
    requires
        ascending(a),
        a.len() > 0,
    ensures
        a.skip(1).to_set().contains(x) == (a.contains(x) && x != a[0]),
{
    let t = a.skip(1);
    if t.contains(x) {
        let i = choose|i: int| 0 <= i < t.len() && t[i] == x;
        assert(a[i + 1] == x);
        assert(precedes(a[0], a[i + 1]));
        lemma_precedes_irreflexive(x);
    }
    if a.contains(x) && x != a[0] {
        let i = choose|i: int| 0 <= i < a.len() && a[i] == x;
        assert(t[i - 1] == x);
    }
}

/// The ascending list of a set is its list in order.
pub proof fn lemma_in_order(list: Seq<Seq<char>>)
    requires
        ascending(list),
    ensures
        in_order(list.to_set()) == list,
{
    let set = list.to_set();
    assert(ascending(list) && list.to_set() == set);
    lemma_ascending_unique(list, in_order(set));
}

proof fn lemma_ascending_exists(set: Set<Seq<char>>)
    requires
        set.finite(),
    ensures
        exists|list: Seq<Seq<char>>| ascending(list) && #[trigger] list.to_set() == set,
    decreases set.len(),
{
    if set.len() == 0 {
        let list: Seq<Seq<char>> = Seq::empty();
        assert(list.to_set() =~= set);
        assert(ascending(list));
    } else {
        let s = set.choose();
        let rest = set.remove(s);
        lemma_ascending_exists(rest);
        let list = choose|list: Seq<Seq<char>>| ascending(list) && #[trigger] list.to_set() == rest;
        assert(!list.contains(s)) by {
            assert(!rest.contains(s));
        }
        let i = lemma_place(list, s, 0);
        lemma_insert_ascending(list, i, s);
        assert(list.insert(i, s).to_set() =~= set);
    }
}

proof fn lemma_place(list: Seq<Seq<char>>, s: Seq<char>, i: int) -> (place: int)
    requires
        0 <= i <= list.len(),
        !list.contains(s),
        forall|k: int| 0 <= k < i ==> precedes(#[trigger] list[k], s),
    ensures
        0 <= place <= list.len(),
        forall|k: int| 0 <= k < place ==> precedes(#[trigger] list[k], s),
        place < list.len() ==> !precedes(list[place], s) && list[place] != s,
    decreases list.len() - i,
{
    if i < list.len() && precedes(list[i], s) {
        lemma_place(list, s, i + 1)
    } else {
        i
    }
}

/// A finite set can be listed in ascending order.
pub proof fn lemma_in_order_of(set: Set<Seq<char>>)
    requires
        set.finite(),
    ensures
        ascending(in_order(set)),
        in_order(set).to_set() == set,
{
    lemma_ascending_exists(set);
}

/// A set of strings.
#[derive(Debug)]
pub struct StringSet {
    items: Vec<String>,
}

impl View for StringSet {
    type V = Set<Seq<char>>;

    closed spec fn view(&self) -> Set<Seq<char>> {
        views(self.items@).to_set()
    }
}

impl StringSet {
    #[verifier::type_invariant]
    spec fn in_ascending_order(self) -> bool {
        ascending(views(self.items@))
    }

    pub fn new() -> (set: Self)
        ensures
            set@ == Set::<Seq<char>>::empty(),
    {
        let set = StringSet { items: Vec::new() };
        assert(set@ =~= Set::<Seq<char>>::empty());
        set
    }

    /// Adds a string to the set.
    pub fn insert(&mut self, s: &str)
        ensures
            final(self)@ == old(self)@.insert(s@),
    {
        proof {
            use_type_invariant(&*self);
        }
        let mut items: Vec<String> = Vec::new();
        std::mem::swap(&mut items, &mut self.items);
        let ghost list = views(items@);
        let mut i: usize = 0;
        while i < items.len() && comes_before(items[i].as_str(), s)
            invariant
                i <= items.len(),
                list == views(items@),
                forall|k: int| 0 <= k < i ==> precedes(#[trigger] list[k], s@),
            decreases items.len() - i,
        {
            i = i + 1;
        }
        if i < items.len() && same_text(items[i].as_str(), s) {
            proof {
                assert(list[i as int] == s@);
                assert(list.to_set() =~= list.to_set().insert(s@));
            }
        } else {
            items.insert(i, s.to_owned());
            proof {
                let longer = views(items@);
                assert(longer =~= list.insert(i as int, s@));
                lemma_insert_ascending(list, i as int, s@);
            }
        }
        self.items = items;
    }

    /// The strings of the set, in ascending order.
    pub fn names(&self) -> (r: &Vec<String>)
        ensures
            views(r@) == in_order(self@),
    {
        proof {
            use_type_invariant(self);
            lemma_in_order(views(self.items@));
        }
        &self.items
    }
}

proof fn lemma_insert_ascending(list: Seq<Seq<char>>, i: int, s: Seq<char>)
    requires
        ascending(list),
        0 <= i <= list.len(),
        forall|k: int| 0 <= k < i ==> precedes(#[trigger] list[k], s),
        i < list.len() ==> !precedes(list[i], s) && list[i] != s,
    ensures
        ascending(list.insert(i, s)),
        list.insert(i, s).to_set() == list.to_set().insert(s),
{
    let longer = list.insert(i, s);
    assert forall|k: int| i <= k < list.len() implies precedes(s, #[trigger] list[k]) by {
        lemma_precedes_total(list[i], s);
        if k > i {
            lemma_precedes_transitive(s, list[i], list[k]);
        }
    }
    assert forall|k: int, l: int| 0 <= k < l < longer.len() implies precedes(
        #[trigger] longer[k],
        #[trigger] longer[l],
    ) by {
        if l < i {
            assert(longer[k] == list[k] && longer[l] == list[l]);
        } else if l == i {
            assert(longer[k] == list[k]);
        } else if k == i {
            assert(longer[l] == list[l - 1]);
        } else if k < i {
            assert(longer[k] == list[k] && longer[l] == list[l - 1]);
        } else {
            assert(longer[k] == list[k - 1] && longer[l] == list[l - 1]);
        }
    }
    assert forall|x: Seq<char>| longer.to_set().contains(x) == list.to_set().insert(s).contains(x) by {
        if longer.contains(x) {
            let k = choose|k: int| 0 <= k < longer.len() && longer[k] == x;
            if k < i {
                assert(list[k] == x);
            } else if k > i {
                assert(list[k - 1] == x);
            }
        }
        if list.contains(x) {
            let k = choose|k: int| 0 <= k < list.len() && list[k] == x;
            if k < i {
                assert(longer[k] == x);
            } else {
                assert(longer[k + 1] == x);
            }
        }
        assert(longer[i] == s);
    }
    assert(longer.to_set() =~= list.to_set().insert(s));
}

} // verus!
