//! Sets that keep their elements in order.
use crate::id::Id;
use crate::order::{
    precedes, text_before, text_before_is_asymmetric, text_before_is_total,
    text_before_is_transitive,
};
use vstd::prelude::*;

verus! {

/// An element that can be kept in an ordered set.
pub trait Element: Sized {
    /// What an element is, apart from how it is held.
    type V;

    /// What this element is.
    spec fn key(&self) -> Self::V;

    /// A strict total order.
    spec fn key_before(a: Self::V, b: Self::V) -> bool;

    proof fn is_asymmetric(a: Self::V, b: Self::V)
        requires
            Self::key_before(a, b),
        ensures
            !Self::key_before(b, a),
            a != b,
    ;

    proof fn is_total(a: Self::V, b: Self::V)
        ensures
            a == b || Self::key_before(a, b) || Self::key_before(b, a),
    ;

    proof fn is_transitive(a: Self::V, b: Self::V, c: Self::V)
        requires
            Self::key_before(a, b),
            Self::key_before(b, c),
        ensures
            Self::key_before(a, c),
    ;

    /// Whether this element comes before another.
    fn comes_before(&self, other: &Self) -> (answer: bool)
        ensures
            answer == Self::key_before(self.key(), other.key()),
    ;

    /// Another element equal to this one.
    fn duplicate(&self) -> (copy: Self)
        ensures
            copy == *self,
    ;
}

impl Element for String {
    type V = Seq<char>;

    open spec fn key(&self) -> Seq<char> {
        self@
    }

    open spec fn key_before(a: Seq<char>, b: Seq<char>) -> bool {
        text_before(a, b)
    }

    proof fn is_asymmetric(a: Seq<char>, b: Seq<char>) {
        text_before_is_asymmetric(a, b);
    }

    proof fn is_total(a: Seq<char>, b: Seq<char>) {
        text_before_is_total(a, b);
    }

    proof fn is_transitive(a: Seq<char>, b: Seq<char>, c: Seq<char>) {
        text_before_is_transitive(a, b, c);
    }

    fn comes_before(&self, other: &String) -> (answer: bool) {
        precedes(self.as_str(), other.as_str())
    }

    fn duplicate(&self) -> (copy: String) {
        self.clone()
    }
}

impl Element for Id {
    type V = u128;

    open spec fn key(&self) -> u128 {
        self.value
    }

    open spec fn key_before(a: u128, b: u128) -> bool {
        a < b
    }

    proof fn is_asymmetric(a: u128, b: u128) {
    }

    proof fn is_total(a: u128, b: u128) {
    }

    proof fn is_transitive(a: u128, b: u128, c: u128) {
    }

    fn comes_before(&self, other: &Id) -> (answer: bool) {
        self.value < other.value
    }

    fn duplicate(&self) -> (copy: Id) {
        *self
    }
}

impl Element for usize {
    type V = usize;

    open spec fn key(&self) -> usize {
        *self
    }

    open spec fn key_before(a: usize, b: usize) -> bool {
        a < b
    }

    proof fn is_asymmetric(a: usize, b: usize) {
    }

    proof fn is_total(a: usize, b: usize) {
    }

    proof fn is_transitive(a: usize, b: usize, c: usize) {
    }

    fn comes_before(&self, other: &usize) -> (answer: bool) {
        *self < *other
    }

    fn duplicate(&self) -> (copy: usize) {
        *self
    }
}

/// Whether keys stand in strictly ascending order.
pub open spec fn ascending<E: Element>(keys: Seq<E::V>) -> bool {
    forall|i: int, j: int| 0 <= i < j < keys.len() ==> #[trigger] E::key_before(keys[i], keys[j])
}

/// The keys of some elements.
pub open spec fn keys_of<E: Element>(items: Seq<E>) -> Seq<E::V> {
    Seq::new(items.len(), |i: int| items[i].key())
}

/// A set whose elements are held in ascending order, each once.
#[derive(Debug)]
pub struct OrderedSet<E> {
    pub items: Vec<E>,
}

impl<E: Element> View for OrderedSet<E> {
    type V = Seq<E::V>;

    open spec fn view(&self) -> Seq<E::V> {
        keys_of::<E>(self.items@)
    }
}

impl<E: Element> OrderedSet<E> {
    /// Whether the elements stand in order.
    pub open spec fn well_formed(self) -> bool {
        ascending::<E>(self@)
    }

    /// The empty set.
    pub fn new() -> (set: OrderedSet<E>)
        ensures
            set.well_formed(),
            set@ == Seq::<E::V>::empty(),
    {
        let set = OrderedSet { items: Vec::new() };
        assert(set@ =~= Seq::<E::V>::empty());
        set
    }

    /// The position of the first element that does not come before `item`.
    fn position(&self, item: &E) -> (at: usize)
        requires
            self.well_formed(),
        ensures
            at <= self@.len(),
            forall|i: int| 0 <= i < at ==> E::key_before(#[trigger] self@[i], item.key()),
            forall|i: int| at <= i < self@.len() ==> !E::key_before(#[trigger] self@[i], item.key()),
    {
        let mut low: usize = 0;
        let mut high: usize = self.items.len();
        while low < high
            invariant
                self.well_formed(),
                low <= high <= self.items@.len(),
                forall|i: int| 0 <= i < low ==> E::key_before(#[trigger] self@[i], item.key()),
                forall|i: int|
                    high <= i < self@.len() ==> !E::key_before(#[trigger] self@[i], item.key()),
            decreases high - low,
        {
            let middle: usize = low + (high - low) / 2;
            if self.items[middle].comes_before(item) {
                assert forall|i: int| 0 <= i < middle + 1 implies E::key_before(
                    #[trigger] self@[i],
                    item.key(),
                ) by {
                    if i < middle {
                        assert(E::key_before(self@[i], self@[middle as int]));
                        E::is_transitive(self@[i], self@[middle as int], item.key());
                    }
                }
                low = middle + 1;
            } else {
                assert forall|i: int| middle <= i < self@.len() implies !E::key_before(
                    #[trigger] self@[i],
                    item.key(),
                ) by {
                    if middle < i && E::key_before(self@[i], item.key()) {
                        assert(E::key_before(self@[middle as int], self@[i]));
                        E::is_transitive(self@[middle as int], self@[i], item.key());
                    }
                }
                high = middle;
            }
        }
        low
    }

    /// The position of `item`, where the set holds it.
    pub fn find(&self, item: &E) -> (found: Option<usize>)
        requires
            self.well_formed(),
        ensures
            match found {
                Some(at) => at < self@.len() && self@[at as int] == item.key(),
                None => !self@.contains(item.key()),
            },
    {
        let at: usize = self.position(item);
        if at == self.items.len() {
            proof {
                if self@.contains(item.key()) {
                    let i = choose|i: int| 0 <= i < self@.len() && self@[i] == item.key();
                    E::is_asymmetric(self@[i], item.key());
                }
            }
            return None;
        }
        let absent = item.comes_before(&self.items[at]);
        proof {
            E::is_total(item.key(), self@[at as int]);
            if absent && self@.contains(item.key()) {
                let i = choose|i: int| 0 <= i < self@.len() && self@[i] == item.key();
                if i < at {
                    E::is_asymmetric(self@[i], item.key());
                }
                if i > at {
                    assert(E::key_before(self@[at as int], self@[i]));
                }
                E::is_asymmetric(item.key(), self@[at as int]);
            }
        }
        if absent {
            None
        } else {
            Some(at)
        }
    }

    /// Whether the set holds `item`.
    pub fn contains(&self, item: &E) -> (answer: bool)
        requires
            self.well_formed(),
        ensures
            answer == self@.contains(item.key()),
    {
        match self.find(item) {
            Some(at) => {
                assert(self@[at as int] == item.key());
                true
            },
            None => false,
        }
    }

    /// Adds `item`, and tells whether it was absent.
    pub fn insert(&mut self, item: E) -> (added: bool)
        requires
            old(self).well_formed(),
        ensures
            final(self).well_formed(),
            added == !old(self)@.contains(item.key()),
            final(self)@.contains(item.key()),
            forall|key: E::V| #[trigger]
                final(self)@.contains(key) <==> old(self)@.contains(key) || key == item.key(),
            !added ==> final(self)@ == old(self)@,
    {
        if self.contains(&item) {
            return false;
        }
        let ghost before = self@;
        let ghost key = item.key();
        let at: usize = self.place(item);
        proof {
            let after = self@;
            assert forall|k: E::V| #[trigger] after.contains(k) <==> before.contains(k) || k
                == key by {
                if before.contains(k) {
                    let i = choose|i: int| 0 <= i < before.len() && before[i] == k;
                    let n = if i < at { i } else { i + 1 };
                    assert(after[n] == k);
                }
                if k == key {
                    assert(after[at as int] == k);
                }
                if after.contains(k) && k != key {
                    let n = choose|n: int| 0 <= n < after.len() && after[n] == k;
                    let i = if n < at { n } else { n - 1 };
                    assert(before[i] == k);
                }
            }
        }
        true
    }

    /// Adds `item`, which is absent, and tells where it now stands.
    pub(crate) fn place(&mut self, item: E) -> (at: usize)
        requires
            old(self).well_formed(),
            !old(self)@.contains(item.key()),
        ensures
            final(self).well_formed(),
            at <= old(self)@.len(),
            final(self)@ == old(self)@.insert(at as int, item.key()),
    {
        let at: usize = self.position(&item);
        let ghost before = self@;
        let ghost key = item.key();
        self.items.insert(at, item);
        proof {
            let after = self@;
            assert(after =~= before.insert(at as int, key));
            assert forall|i: int, j: int| 0 <= i < j < after.len() implies #[trigger] E::key_before(
                after[i],
                after[j],
            ) by {
                if j == at {
                } else if i == at {
                    E::is_total(before[j - 1], key);
                } else {
                    let x = if i < at { i } else { i - 1 };
                    let y = if j < at { j } else { j - 1 };
                    assert(E::key_before(before[x], before[y]));
                }
            }
        }
        at
    }

    /// Adds every element of `other`.
    pub fn extend(&mut self, other: &OrderedSet<E>)
        requires
            old(self).well_formed(),
        ensures
            final(self).well_formed(),
            forall|key: E::V| #[trigger]
                final(self)@.contains(key) <==> old(self)@.contains(key) || other@.contains(key),
    {
        let mut i: usize = 0;
        while i < other.items.len()
            invariant
                self.well_formed(),
                i <= other.items@.len(),
                forall|key: E::V| #[trigger]
                    self@.contains(key) <==> old(self)@.contains(key) || other@.take(
                        i as int,
                    ).contains(key),
            decreases other.items@.len() - i,
        {
            let ghost before = self@;
            let item = other.items[i].duplicate();
            self.insert(item);
            proof {
                let taken = other@.take(i as int);
                let next = other@.take(i + 1);
                assert(next =~= taken.push(other@[i as int]));
                assert forall|key: E::V| #[trigger] self@.contains(key) <==> old(self)@.contains(
                    key,
                ) || next.contains(key) by {
                    assert(before.contains(key) <==> old(self)@.contains(key) || taken.contains(
                        key,
                    ));
                    if taken.contains(key) {
                        let n = choose|n: int| 0 <= n < taken.len() && taken[n] == key;
                        assert(next[n] == key);
                    }
                    if key == other@[i as int] {
                        assert(next[i as int] == key);
                    }
                    if next.contains(key) && key != other@[i as int] {
                        let n = choose|n: int| 0 <= n < next.len() && next[n] == key;
                        assert(taken[n] == key);
                    }
                }
            }
            i += 1;
        }
        assert(other@.take(i as int) =~= other@);
    }
}

/// An ordered set is determined by what it holds: ascending keys with the same
/// members are the same keys in the same places.
pub proof fn membership_determines_order<E: Element>(a: Seq<E::V>, b: Seq<E::V>)
    requires
        ascending::<E>(a),
        ascending::<E>(b),
        forall|key: E::V| #[trigger] a.contains(key) <==> b.contains(key),
    ensures
        a == b,
    decreases a.len(),
{
    if a.len() == 0 {
        if b.len() > 0 {
            assert(b.contains(b[0]));
            assert(a.contains(b[0]));
        }
        assert(a =~= b);
    } else {
        assert(a.contains(a[0]));
        assert(b.len() > 0);
        let x = a.last();
        let y = b.last();
        assert(a.contains(x));
        assert(b.contains(y));
        assert(a.contains(y));
        let i = choose|i: int| 0 <= i < b.len() && b[i] == x;
        let j = choose|j: int| 0 <= j < a.len() && a[j] == y;
        if i < b.len() - 1 {
            assert(E::key_before(b[i], b[b.len() - 1]));
            E::is_asymmetric(x, y);
            if j < a.len() - 1 {
                assert(E::key_before(a[j], a[a.len() - 1]));
            }
        }
        assert(x == y);
        let c = a.drop_last();
        let d = b.drop_last();
        assert forall|i: int, j: int| 0 <= i < j < c.len() implies #[trigger] E::key_before(
            c[i],
            c[j],
        ) by {
            assert(E::key_before(a[i], a[j]));
        }
        assert forall|i: int, j: int| 0 <= i < j < d.len() implies #[trigger] E::key_before(
            d[i],
            d[j],
        ) by {
            assert(E::key_before(b[i], b[j]));
        }
        assert forall|key: E::V| #[trigger] c.contains(key) <==> d.contains(key) by {
            if c.contains(key) {
                let n = choose|n: int| 0 <= n < c.len() && c[n] == key;
                assert(a[n] == key);
                assert(a.contains(key));
                let m = choose|m: int| 0 <= m < b.len() && b[m] == key;
                assert(E::key_before(a[n], a[a.len() - 1]));
                E::is_asymmetric(key, x);
                assert(d[m] == key);
            }
            if d.contains(key) {
                let n = choose|n: int| 0 <= n < d.len() && d[n] == key;
                assert(b[n] == key);
                assert(b.contains(key));
                assert(a.contains(key));
                let m = choose|m: int| 0 <= m < a.len() && a[m] == key;
                assert(E::key_before(b[n], b[b.len() - 1]));
                E::is_asymmetric(key, x);
                assert(c[m] == key);
            }
        }
        membership_determines_order::<E>(c, d);
        assert(a =~= c.push(x));
        assert(b =~= d.push(y));
    }
}

} // verus!
