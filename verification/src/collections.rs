//! The persistent sequences that values are built from.
//!
//! A list and a vector are kept in the persistent collections of `rpds`.
//! Their insides are hidden from the verifier: what one holds is named by
//! `list_items` and `vector_items`, the mathematical views of its items in
//! order, and every operation is stated over those two names.
use crate::value::{Datum, Value};
use vstd::prelude::*;

verus! {

/// A persistent singly linked list of values.
///
/// Trusted: holds an `rpds::List` of values. The verifier does not look
/// inside; it knows of a list what `list_items` names.
#[verifier::external_body]
pub struct PersistentList {
    inner: rpds::List<Value>,
}

/// A persistent indexed sequence of values.
///
/// Trusted: holds an `rpds::Vector` of values. The verifier does not look
/// inside; it knows of a vector what `vector_items` names.
#[verifier::external_body]
pub struct PersistentVector {
    inner: rpds::Vector<Value>,
}

/// The views of the items of a list, first item first.
pub uninterp spec fn list_items(l: PersistentList) -> Seq<Datum>;

/// The views of the items of a vector, by index.
pub uninterp spec fn vector_items(v: PersistentVector) -> Seq<Datum>;

/// The views of a run of values.
pub open spec fn data(values: Seq<Value>) -> Seq<Datum> {
    values.map_values(|v: Value| v@)
}

/// The empty list.
///
/// Trusted: stands for `rpds::List::new`, which makes a list without nodes.
#[verifier::external_body]
pub(crate) fn list_new() -> (l: PersistentList)
    ensures
        list_items(l) == Seq::<Datum>::empty(),
{
    PersistentList { inner: rpds::List::new() }
}

/// The number of items of a list.
///
/// Trusted: stands for `rpds::List::len`, which returns the length that the
/// list keeps up with every push and drop.
#[verifier::external_body]
pub(crate) fn list_len(l: &PersistentList) -> (n: usize)
    ensures
        n == list_items(*l).len(),
{
    l.inner.len()
}

/// The first item of a list, if it has one.
///
/// Trusted: stands for `rpds::List::first`, which borrows the value of the
/// head node and gives nothing for a list without nodes.
#[verifier::external_body]
pub(crate) fn list_first(l: &PersistentList) -> (r: Option<&Value>)
    ensures
        match r {
            Some(v) => list_items(*l).len() > 0 && v@ == list_items(*l)[0],
            None => list_items(*l).len() == 0,
        },
{
    l.inner.first()
}

/// The list without its first item, if it has one.
///
/// Trusted: stands for `rpds::List::drop_first`, which shares every node
/// after the head and gives nothing for a list without nodes.
#[verifier::external_body]
pub(crate) fn list_drop_first(l: &PersistentList) -> (r: Option<PersistentList>)
    ensures
        match r {
            Some(rest) => list_items(*l).len() > 0 && list_items(rest) == list_items(*l).skip(1),
            None => list_items(*l).len() == 0,
        },
{
    match l.inner.drop_first() {
        Some(rest) => Some(PersistentList { inner: rest }),
        None => None,
    }
}

/// The list with one more item in front.
///
/// Trusted: stands for `rpds::List::push_front`, which puts a new head node
/// before the shared nodes of the list.
#[verifier::external_body]
pub(crate) fn list_push_front(l: &PersistentList, v: Value) -> (r: PersistentList)
    ensures
        list_items(r) == seq![v@] + list_items(*l),
{
    PersistentList { inner: l.inner.push_front(v) }
}

/// The items of a list, cloned into a vector in order.
///
/// Trusted: stands for `rpds::List::iter`, which walks the nodes from the
/// head on; each item is handed out as a clone.
#[verifier::external_body]
pub(crate) fn list_to_vec(l: &PersistentList) -> (r: Vec<Value>)
    ensures
        data(r@) == list_items(*l),
{
    l.inner.iter().cloned().collect()
}

/// The list that holds the given values in order.
///
/// Trusted: stands for the `FromIterator` impl of `rpds::List`, which keeps
/// the iterator's order.
#[verifier::external_body]
pub(crate) fn list_from_vec(values: Vec<Value>) -> (l: PersistentList)
    ensures
        list_items(l) == data(values@),
{
    PersistentList { inner: values.into_iter().collect() }
}

/// A second handle on the same list.
///
/// Trusted: stands for the `Clone` impl of `rpds::List`, which shares the
/// nodes.
#[verifier::external_body]
pub(crate) fn list_clone(l: &PersistentList) -> (r: PersistentList)
    ensures
        list_items(r) == list_items(*l),
{
    PersistentList { inner: l.inner.clone() }
}

/// The empty vector.
///
/// Trusted: stands for `rpds::Vector::new`, which makes a vector of length 0.
#[verifier::external_body]
pub(crate) fn vector_new() -> (v: PersistentVector)
    ensures
        vector_items(v) == Seq::<Datum>::empty(),
{
    PersistentVector { inner: rpds::Vector::new() }
}

/// The number of items of a vector.
///
/// Trusted: stands for `rpds::Vector::len`.
#[verifier::external_body]
pub(crate) fn vector_len(v: &PersistentVector) -> (n: usize)
    ensures
        n == vector_items(*v).len(),
{
    v.inner.len()
}

/// The item at `index`, if the vector is that long.
///
/// Trusted: stands for `rpds::Vector::get`, which gives nothing for an index
/// at or past the length.
#[verifier::external_body]
pub(crate) fn vector_get(v: &PersistentVector, index: usize) -> (r: Option<&Value>)
    ensures
        match r {
            Some(item) => index < vector_items(*v).len() && item@ == vector_items(*v)[index as int],
            None => index >= vector_items(*v).len(),
        },
{
    v.inner.get(index)
}

/// The vector with one more item at its end.
///
/// Trusted: stands for `rpds::Vector::push_back`.
#[verifier::external_body]
pub(crate) fn vector_push_back(v: &PersistentVector, item: Value) -> (r: PersistentVector)
    ensures
        vector_items(r) == vector_items(*v).push(item@),
{
    PersistentVector { inner: v.inner.push_back(item) }
}

/// The items of a vector, cloned into a `Vec` in order.
///
/// Trusted: stands for `rpds::Vector::iter`, which walks the items by rising
/// index; each item is handed out as a clone.
#[verifier::external_body]
pub(crate) fn vector_to_vec(v: &PersistentVector) -> (r: Vec<Value>)
    ensures
        data(r@) == vector_items(*v),
{
    v.inner.iter().cloned().collect()
}

/// The vector that holds the given values in order.
///
/// Trusted: stands for the `FromIterator` impl of `rpds::Vector`, which
/// pushes each item at the back.
#[verifier::external_body]
pub(crate) fn vector_from_vec(values: Vec<Value>) -> (v: PersistentVector)
    ensures
        vector_items(v) == data(values@),
{
    PersistentVector { inner: values.into_iter().collect() }
}

/// A second handle on the same vector.
///
/// Trusted: stands for the `Clone` impl of `rpds::Vector`, which shares the
/// tree.
#[verifier::external_body]
pub(crate) fn vector_clone(v: &PersistentVector) -> (r: PersistentVector)
    ensures
        vector_items(r) == vector_items(*v),
{
    PersistentVector { inner: v.inner.clone() }
}

impl PersistentList {
    /// The empty list.
    pub fn new() -> (l: PersistentList)
        ensures
            list_items(l) == Seq::<Datum>::empty(),
    {
        list_new()
    }

    /// The list that holds the given values in order.
    pub fn from_vec(values: Vec<Value>) -> (l: PersistentList)
        ensures
            list_items(l) == data(values@),
    {
        list_from_vec(values)
    }

    /// The number of items.
    pub fn len(&self) -> (n: usize)
        ensures
            n == list_items(*self).len(),
    {
        list_len(self)
    }

    /// Copies of the items, in order.
    pub fn items(&self) -> (r: Vec<Value>)
        ensures
            data(r@) == list_items(*self),
    {
        list_to_vec(self)
    }
}

impl PersistentVector {
    /// The empty vector.
    pub fn new() -> (v: PersistentVector)
        ensures
            vector_items(v) == Seq::<Datum>::empty(),
    {
        vector_new()
    }

    /// The vector that holds the given values in order.
    pub fn from_vec(values: Vec<Value>) -> (v: PersistentVector)
        ensures
            vector_items(v) == data(values@),
    {
        vector_from_vec(values)
    }

    /// The number of items.
    pub fn len(&self) -> (n: usize)
        ensures
            n == vector_items(*self).len(),
    {
        vector_len(self)
    }

    /// Copies of the items, in order.
    pub fn items(&self) -> (r: Vec<Value>)
        ensures
            data(r@) == vector_items(*self),
    {
        vector_to_vec(self)
    }
}

/// Indexing the views of a run of values gives the view of the value there.
pub proof fn lemma_data_index(values: Seq<Value>, i: int)
    requires
        0 <= i < values.len(),
    ensures
        data(values).len() == values.len(),
        data(values)[i] == values[i]@,
{
}

/// The views of a run with one more value.
pub proof fn lemma_data_push(values: Seq<Value>, v: Value)
    ensures
        data(values.push(v)) == data(values).push(v@),
{
    assert(data(values.push(v)) =~= data(values).push(v@));
}

/// The views of a run with one value replaced.
pub proof fn lemma_data_update(values: Seq<Value>, i: int, v: Value)
    requires
        0 <= i < values.len(),
    ensures
        data(values.update(i, v)) == data(values).update(i, v@),
{
    assert(data(values.update(i, v)) =~= data(values).update(i, v@));
}

/// The views of a run with one value taken out.
pub proof fn lemma_data_remove(values: Seq<Value>, i: int)
    requires
        0 <= i < values.len(),
    ensures
        data(values.remove(i)) == data(values).remove(i),
{
    assert(data(values.remove(i)) =~= data(values).remove(i));
}

/// The views of the front of a run.
pub proof fn lemma_data_take(values: Seq<Value>, n: int)
    requires
        0 <= n <= values.len(),
    ensures
        data(values.take(n)) == data(values).take(n),
        data(values.skip(n)) == data(values).skip(n),
{
    assert(data(values.take(n)) =~= data(values).take(n));
    assert(data(values.skip(n)) =~= data(values).skip(n));
}

/// The views of two runs, one after the other.
pub proof fn lemma_data_add(a: Seq<Value>, b: Seq<Value>)
    ensures
        data(a + b) == data(a) + data(b),
{
    assert(data(a + b) =~= data(a) + data(b));
}

} // verus!
