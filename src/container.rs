//! Ordered collections of titled children: lookup by title, the first of
//! each title, and the operations written once for every container.

use vstd::prelude::*;

use itertools::Itertools;

use crate::item::{same_title, HyphaItem};

verus! {

/// The titles of a sequence of items, in order.
pub open spec fn titles_of<I: HyphaItem>(s: Seq<I>) -> Seq<Seq<char>> {
    s.map_values(|i: I| i.spec_title())
}

/// The position of the first item titled `t`, if any.
pub open spec fn position_of<I: HyphaItem>(s: Seq<I>, t: Seq<char>) -> Option<int> {
    titles_of(s).index_of_first(t)
}

/// What the first position of a title is.
pub broadcast proof fn lemma_first_position(s: Seq<Seq<char>>, t: Seq<char>)
    ensures
        match #[trigger] s.index_of_first(t) {
            Some(i) => {
                &&& 0 <= i < s.len()
                &&& s[i] == t
                &&& forall|j: int| 0 <= j < i ==> s[j] != t
            },
            None => !s.contains(t),
        },
{
    s.index_of_first_ensures(t);
}

/// Replacing an element twice keeps the second value.
pub broadcast proof fn lemma_update_twice<A>(s: Seq<A>, i: int, a: A, b: A)
    requires
        0 <= i < s.len(),
    ensures
        #[trigger] s.update(i, a).update(i, b) == s.update(i, b),
{
    assert(s.update(i, a).update(i, b) =~= s.update(i, b));
}

/// Mapping commutes with replacing one element.
pub broadcast proof fn lemma_map_update<A, B>(s: Seq<A>, i: int, v: A, f: spec_fn(A) -> B)
    requires
        0 <= i < s.len(),
    ensures
        #[trigger] s.update(i, v).map_values(f) == s.map_values(f).update(i, f(v)),
{
    assert(s.update(i, v).map_values(f) =~= s.map_values(f).update(i, f(v)));
}

/// Mapping commutes with removing one element.
pub broadcast proof fn lemma_map_remove<A, B>(s: Seq<A>, i: int, f: spec_fn(A) -> B)
    requires
        0 <= i < s.len(),
    ensures
        #[trigger] s.remove(i).map_values(f) == s.map_values(f).remove(i),
{
    assert(s.remove(i).map_values(f) =~= s.map_values(f).remove(i));
}

/// Mapping commutes with appending one element.
pub broadcast proof fn lemma_map_push<A, B>(s: Seq<A>, v: A, f: spec_fn(A) -> B)
    ensures
        #[trigger] s.push(v).map_values(f) == s.map_values(f).push(f(v)),
{
    assert(s.push(v).map_values(f) =~= s.map_values(f).push(f(v)));
}

/// Filtering a sequence with one more element.
pub proof fn lemma_filter_push<A>(s: Seq<A>, x: A, p: spec_fn(A) -> bool)
    ensures
        s.push(x).filter(p) == (if p(x) {
            s.filter(p).push(x)
        } else {
            s.filter(p)
        }),
{
    reveal(Seq::filter);
    assert(s.push(x).drop_last() =~= s);
}

/// Finds the position of the first item whose title is `title`.
pub fn find_by_title<I: HyphaItem>(items: &Vec<I>, title: &str) -> (r: Option<usize>)
    ensures
        match r {
            Some(i) => {
                &&& position_of(items@, title@) == Some(i as int)
                &&& i < items@.len()
                &&& items@[i as int].spec_title() == title@
            },
            None => position_of(items@, title@) is None,
        },
{
    let ghost ts = titles_of(items@);
    let mut i: usize = 0;
    while i < items.len()
        invariant
            0 <= i <= items@.len(),
            ts == titles_of(items@),
            forall|j: int| 0 <= j < i ==> ts[j] != title@,
        decreases items@.len() - i,
    {
        if same_title(items[i].title(), title) {
            proof {
                assert(ts[i as int] == title@);
                assert(ts.contains(title@));
                ts.index_of_first_ensures(title@);
                let k = ts.index_of_first(title@).unwrap();
                if k < i {
                    assert(ts[k] != title@);
                }
            }
            return Some(i);
        }
        i = i + 1;
    }
    proof {
        ts.index_of_first_ensures(title@);
        if ts.contains(title@) {
            let k = ts.index_of_first(title@).unwrap();
            assert(ts[k] != title@);
        }
    }
    None
}

} // verus!

verus! {

/// A value that owns an ordered collection of titled children.
pub trait HyphaContainer: Sized {
    type Item: HyphaItem;

    /// The children, in order.
    spec fn spec_items(&self) -> Seq<Self::Item>;

    /// `self` and `other` agree in everything but their children.
    spec fn same_besides_items(&self, other: Self) -> bool;

    fn items(&self) -> (r: &Vec<Self::Item>)
        ensures
            r@ == self.spec_items(),
    ;

    fn items_mut(&mut self) -> (r: &mut Vec<Self::Item>)
        ensures
            r@ == old(self).spec_items(),
            final(self).spec_items() == final(r)@,
            final(self).same_besides_items(*old(self)),
    ;
}

} // verus!

verus! {

/// Whether some title at a position other than `at` equals `t`.
pub open spec fn taken_by_other(titles: Seq<Seq<char>>, at: int, t: Seq<char>) -> bool {
    exists|k: int| 0 <= k < titles.len() && k != at && titles[k] == t
}

/// Whether an item at a position other than `at` is titled `title`.
pub fn taken_elsewhere<I: HyphaItem>(items: &Vec<I>, at: usize, title: &str) -> (r: bool)
    ensures
        r == taken_by_other(titles_of(items@), at as int, title@),
{
    let ghost ts = titles_of(items@);
    let mut i: usize = 0;
    while i < items.len()
        invariant
            0 <= i <= items@.len(),
            ts == titles_of(items@),
            forall|k: int| 0 <= k < i && k != at ==> ts[k] != title@,
        decreases items@.len() - i,
    {
        if i != at && same_title(items[i].title(), title) {
            assert(ts[i as int] == title@);
            return true;
        }
        i = i + 1;
    }
    false
}

} // verus!

verus! {

/// The items of `s` whose key does not occur earlier in `s`, in order: the
/// first item of each key.
pub open spec fn first_by_key<A>(s: Seq<A>, key: spec_fn(A) -> Seq<char>) -> Seq<A>
    decreases s.len(),
{
    if s.len() == 0 {
        s
    } else {
        let rest = first_by_key(s.drop_last(), key);
        if s.drop_last().map_values(key).contains(key(s.last())) {
            rest
        } else {
            rest.push(s.last())
        }
    }
}

/// Keeping the first of each key commutes with a mapping that keeps keys.
pub proof fn lemma_first_by_key_map<A, B>(
    s: Seq<A>,
    k1: spec_fn(A) -> Seq<char>,
    f: spec_fn(A) -> B,
    k2: spec_fn(B) -> Seq<char>,
)
    requires
        forall|a: A| #[trigger] k2(f(a)) == k1(a),
    ensures
        first_by_key(s, k1).map_values(f) == first_by_key(s.map_values(f), k2),
    decreases s.len(),
{
    if s.len() > 0 {
        lemma_first_by_key_map(s.drop_last(), k1, f, k2);
        assert(s.map_values(f).drop_last() =~= s.drop_last().map_values(f));
        assert(s.drop_last().map_values(k1) =~= s.map_values(f).drop_last().map_values(k2));
        let rest = first_by_key(s.drop_last(), k1);
        assert(rest.push(s.last()).map_values(f) =~= rest.map_values(f).push(f(s.last())));
    }
}

/// Relies on `itertools::Itertools::unique_by`, keyed by title: it yields the
/// items whose title was not yielded before, in their order, keeping the
/// first item of each title.
#[verifier::external_body]
fn unique_by_title<I: HyphaItem>(items: Vec<I>) -> (r: Vec<I>)
    ensures
        r@ == first_by_key(items@, |i: I| i.spec_title()),
{
    items.into_iter().unique_by(|i| i.title().to_owned()).collect()
}

/// Drops every item whose title occurs earlier, keeping the order.
pub fn keep_first_of_each_title<I: HyphaItem>(items: &mut Vec<I>)
    ensures
        final(items)@ == first_by_key(old(items)@, |i: I| i.spec_title()),
{
    let mut taken: Vec<I> = Vec::new();
    std::mem::swap(&mut taken, items);
    *items = unique_by_title(taken);
}

} // verus!

verus! {

/// Operations written once for every container.
pub trait HyphaContainerOps: HyphaContainer {
    /// Exchanges the first child titled `left` with the first child titled
    /// `right`; false, and nothing changed, where either title is absent.
    fn swap(&mut self, left: &str, right: &str) -> (r: bool)
        ensures
            match (
                position_of(old(self).spec_items(), left@),
                position_of(old(self).spec_items(), right@),
            ) {
                (Some(i), Some(j)) => {
                    &&& r
                    &&& final(self).spec_items() == old(self).spec_items().update(
                        i,
                        old(self).spec_items()[j],
                    ).update(j, old(self).spec_items()[i])
                    &&& final(self).same_besides_items(*old(self))
                },
                _ => !r && *final(self) == *old(self),
            },
    ;
}

impl<C: HyphaContainer> HyphaContainerOps for C {
    fn swap(&mut self, left: &str, right: &str) -> (r: bool) {
        let li = match find_by_title(self.items(), left) {
            Some(i) => i,
            None => return false,
        };
        let ri = match find_by_title(self.items(), right) {
            Some(i) => i,
            None => return false,
        };
        let items = self.items_mut();
        let ghost s = items@;
        if li < ri {
            let b = items.remove(ri);
            let a = items.remove(li);
            items.insert(li, b);
            items.insert(ri, a);
        } else if ri < li {
            let a = items.remove(li);
            let b = items.remove(ri);
            items.insert(ri, a);
            items.insert(li, b);
        }
        assert(items@ =~= s.update(li as int, s[ri as int]).update(ri as int, s[li as int]));
        true
    }
}

} // verus!
