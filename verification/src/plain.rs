//! Plain data: values that are copied and compared by what they hold.

use crate::bytes::same_bytes;
use vstd::prelude::*;

verus! {

/// A value that is fully described by its view.
pub trait Plain: View + Sized {
    /// A second value with the same view.
    fn copy(&self) -> (result: Self)
        ensures
            result@ == self@,
    ;

    /// Whether two values have the same view.
    fn same(&self, other: &Self) -> (result: bool)
        ensures
            result == (self@ == other@),
    ;
}

impl Plain for String {
    fn copy(&self) -> (result: Self) {
        self.clone()
    }

    fn same(&self, other: &Self) -> (result: bool) {
        *self == *other
    }
}

impl Plain for u64 {
    fn copy(&self) -> (result: Self) {
        *self
    }

    fn same(&self, other: &Self) -> (result: bool) {
        *self == *other
    }
}

impl Plain for Vec<u8> {
    fn copy(&self) -> (result: Self) {
        let result = self.clone();
        assert(result@ =~= self@);
        result
    }

    fn same(&self, other: &Self) -> (result: bool) {
        same_bytes(self.as_slice(), other.as_slice())
    }
}

/// The views of a sequence of values.
pub open spec fn views<T: View>(items: Seq<T>) -> Seq<T::V> {
    Seq::new(items.len(), |i: int| items[i]@)
}

/// The view of a value that may be absent.
pub open spec fn opt_view<T: View>(item: Option<T>) -> Option<T::V> {
    match item {
        Some(value) => Some(value@),
        None => None,
    }
}

/// The values of `items`, in order.
pub fn copy_all<T: Plain>(items: &Vec<T>) -> (result: Vec<T>)
    ensures
        views(result@) == views(items@),
{
    let mut result: Vec<T> = Vec::new();
    let mut i: usize = 0;
    while i < items.len()
        invariant
            i <= items@.len(),
            views(result@) == views(items@.take(i as int)),
        decreases items@.len() - i,
    {
        result.push(items[i].copy());
        assert(views(result@) =~= views(items@.take(i as int)).push(items@[i as int]@));
        assert(views(items@.take(i + 1)) =~= views(items@.take(i as int)).push(
            items@[i as int]@,
        ));
        i += 1;
    }
    assert(items@.take(i as int) =~= items@);
    result
}

/// Whether two lists hold the same values in the same order.
pub fn same_all<T: Plain>(a: &Vec<T>, b: &Vec<T>) -> (result: bool)
    ensures
        result == (views(a@) == views(b@)),
{
    if a.len() != b.len() {
        assert(views(a@).len() != views(b@).len());
        return false;
    }
    let mut i: usize = 0;
    while i < a.len()
        invariant
            i <= a@.len(),
            a@.len() == b@.len(),
            forall|j: int| 0 <= j < i ==> views(a@)[j] == views(b@)[j],
        decreases a@.len() - i,
    {
        if !a[i].same(&b[i]) {
            assert(views(a@)[i as int] != views(b@)[i as int]);
            return false;
        }
        i += 1;
    }
    assert(views(a@) =~= views(b@));
    true
}

/// The first place at which `items` holds `item`.
pub fn position<T: Plain>(items: &Vec<T>, item: &T) -> (result: Option<usize>)
    ensures
        match result {
            Some(i) => i < items@.len() && items@[i as int]@ == item@ && forall|j: int|
                0 <= j < i ==> items@[j]@ != item@,
            None => !views(items@).contains(item@),
        },
{
    let mut i: usize = 0;
    while i < items.len()
        invariant
            i <= items@.len(),
            forall|j: int| 0 <= j < i ==> items@[j]@ != item@,
        decreases items@.len() - i,
    {
        if items[i].same(item) {
            return Some(i);
        }
        i += 1;
    }
    assert forall|j: int| 0 <= j < views(items@).len() implies views(items@)[j] != item@ by {
        assert(views(items@)[j] == items@[j]@);
    }
    None
}

/// Whether `items` holds `item`.
pub fn contains<T: Plain>(items: &Vec<T>, item: &T) -> (result: bool)
    ensures
        result == views(items@).contains(item@),
{
    match position(items, item) {
        Some(i) => {
            assert(views(items@)[i as int] == item@);
            true
        },
        None => false,
    }
}

/// A second value that is absent exactly if `item` is.
pub fn copy_opt<T: Plain>(item: &Option<T>) -> (result: Option<T>)
    ensures
        opt_view(result) == opt_view(*item),
{
    match item {
        Some(value) => Some(value.copy()),
        None => None,
    }
}

/// Whether both values are absent, or both are present and the same.
pub fn same_opt<T: Plain>(a: &Option<T>, b: &Option<T>) -> (result: bool)
    ensures
        result == (opt_view(*a) == opt_view(*b)),
{
    match (a, b) {
        (Some(a), Some(b)) => a.same(b),
        (None, None) => true,
        _ => false,
    }
}

/// Appending one value to a list appends its view.
pub proof fn lemma_views_push<T: View>(items: Seq<T>, item: T)
    ensures
        views(items.push(item)) == views(items).push(item@),
{
    assert(views(items.push(item)) =~= views(items).push(item@));
}

/// The views of two lists joined are their views joined.
pub proof fn lemma_views_add<T: View>(a: Seq<T>, b: Seq<T>)
    ensures
        views(a + b) == views(a) + views(b),
{
    assert(views(a + b) =~= views(a) + views(b));
}

} // verus!
