//! Maps and sets as runs of values, and the ways to build a value.
//!
//! A map keeps its entries in insertion order as a run of keys and values
//! by turns; a set keeps its members in insertion order. Keys and members
//! are found by the equality of values. A hash map keyed by values would
//! rest on a hash of values that the verifier cannot read, and would walk
//! its entries in an order that differs from run to run; kept in insertion
//! order, what a map holds and in which order is a function of how it was
//! made.
//!
//! A map is well formed when its entries pair up and no key equals a key
//! before it; a set when no member equals a member before it. What builds
//! a map or a set here builds a well formed one, and what changes one
//! keeps it well formed.
use crate::collections::{
    data, lemma_data_index, lemma_data_push, lemma_data_remove, lemma_data_update,
    list_from_vec, vector_from_vec,
};
use crate::equality::{datum_equal, find, find_in, stride};
use crate::value::{Datum, ExceptionImpl, PersistentMap, PersistentSet, Value};
use vstd::prelude::*;

verus! {

/// The value under the first key equal to `key`, if there is one.
pub open spec fn lookup(entries: Seq<Datum>, key: Datum) -> Option<Datum> {
    match find(key, entries, 0, true) {
        Some(i) => if i + 1 < entries.len() {
            Some(entries[i + 1])
        } else {
            None
        },
        None => None,
    }
}

/// Whether no key among the first `n` items of a run of entries equals a
/// key before it.
pub open spec fn fresh_keys(entries: Seq<Datum>, n: int) -> bool {
    forall|j: int|
        0 <= j < n && j < entries.len() && j % 2 == 0 ==> find(
            #[trigger] entries[j],
            entries.take(j),
            0,
            true,
        ) is None
}

/// Whether none of the first `n` members equals a member before it.
pub open spec fn fresh_members(members: Seq<Datum>, n: int) -> bool {
    forall|j: int|
        0 <= j < n && j < members.len() ==> find(
            #[trigger] members[j],
            members.take(j),
            0,
            false,
        ) is None
}

/// Whether a run of entries is a well formed map: keys and values pair up,
/// and no key occurs twice.
pub open spec fn paired(entries: Seq<Datum>) -> bool {
    entries.len() % 2 == 0 && fresh_keys(entries, entries.len() as int)
}

/// Whether a run of members is a well formed set: no member occurs twice.
pub open spec fn distinct(members: Seq<Datum>) -> bool {
    fresh_members(members, members.len() as int)
}

impl PersistentMap {
    /// Whether the map is well formed.
    pub open spec fn wf(&self) -> bool {
        paired(crate::collections::vector_items(self.entries))
    }
}

impl PersistentSet {
    /// Whether the set is well formed.
    pub open spec fn wf(&self) -> bool {
        distinct(crate::collections::vector_items(self.members))
    }
}

/// The entries with `key` bound to `value`: the entry with an equal key
/// keeps its key and its place and takes the value, a new entry goes to
/// the end.
pub open spec fn assoc(entries: Seq<Datum>, key: Datum, value: Datum) -> Seq<Datum> {
    match find(key, entries, 0, true) {
        Some(i) => if i + 1 < entries.len() {
            entries.update(i + 1, value)
        } else {
            entries.push(key).push(value)
        },
        None => entries.push(key).push(value),
    }
}

/// The entries without the first entry whose key equals `key`.
pub open spec fn dissoc(entries: Seq<Datum>, key: Datum) -> Seq<Datum> {
    match find(key, entries, 0, true) {
        Some(i) => if i + 1 < entries.len() {
            entries.remove(i).remove(i)
        } else {
            entries
        },
        None => entries,
    }
}

/// The members with `item` adjoined: a set that holds an equal member
/// stays as it is.
pub open spec fn adjoin(members: Seq<Datum>, item: Datum) -> Seq<Datum> {
    if find(item, members, 0, false) is Some {
        members
    } else {
        members.push(item)
    }
}

/// The entries after binding, in order, the pairs that the first `n` items
/// of `items` make.
pub open spec fn assoc_all(entries: Seq<Datum>, items: Seq<Datum>, n: nat) -> Seq<Datum>
    decreases n,
{
    if n < 2 || n > items.len() {
        entries
    } else {
        assoc(assoc_all(entries, items, (n - 2) as nat), items[n - 2], items[n - 1])
    }
}

/// The entries after removing, in order, the first `n` keys of `keys`.
pub open spec fn dissoc_all(entries: Seq<Datum>, keys: Seq<Datum>, n: nat) -> Seq<Datum>
    decreases n,
{
    if n == 0 || n > keys.len() {
        entries
    } else {
        dissoc(dissoc_all(entries, keys, (n - 1) as nat), keys[n - 1])
    }
}

/// The members after adjoining, in order, the first `n` items of `items`.
pub open spec fn adjoin_all(members: Seq<Datum>, items: Seq<Datum>, n: nat) -> Seq<Datum>
    decreases n,
{
    if n == 0 || n > items.len() {
        members
    } else {
        adjoin(adjoin_all(members, items, (n - 1) as nat), items[n - 1])
    }
}

/// The keys of a run of entries, in order.
pub open spec fn keys_of(entries: Seq<Datum>) -> Seq<Datum> {
    Seq::new(entries.len() / 2, |i: int| entries[2 * i])
}

/// The values of a run of entries, in order.
pub open spec fn vals_of(entries: Seq<Datum>) -> Seq<Datum> {
    Seq::new(entries.len() / 2, |i: int| entries[2 * i + 1])
}

/// Where an item is found, it is at a place that the search visits, and
/// the item there equals the needle.
pub proof fn lemma_find_some(needle: Datum, hay: Seq<Datum>, from: int, pairs: bool)
    requires
        0 <= from,
    ensures
        find(needle, hay, from, pairs) matches Some(i) ==> from <= i < hay.len() && (i - from)
            % stride(pairs) == 0 && datum_equal(needle, hay[i]),
    decreases hay.len() + 2 - from,
{
    if from < hay.len() && !datum_equal(needle, hay[from]) {
        lemma_find_some(needle, hay, from + stride(pairs), pairs);
    }
}

/// An item is found nowhere exactly when no item at a place that the
/// search visits equals the needle.
pub proof fn lemma_find_none(needle: Datum, hay: Seq<Datum>, from: int, pairs: bool)
    requires
        0 <= from,
    ensures
        find(needle, hay, from, pairs) is None <==> forall|k: int|
            from <= k < hay.len() && (k - from) % stride(pairs) == 0 ==> !datum_equal(
                needle,
                #[trigger] hay[k],
            ),
    decreases hay.len() + 2 - from,
{
    if from < hay.len() {
        if !datum_equal(needle, hay[from]) {
            lemma_find_none(needle, hay, from + stride(pairs), pairs);
            if find(needle, hay, from + stride(pairs), pairs) is None {
                assert forall|k: int|
                    from <= k < hay.len() && (k - from) % stride(pairs) == 0 implies !datum_equal(
                    needle,
                    #[trigger] hay[k],
                ) by {
                    if k != from {
                        assert(k >= from + stride(pairs));
                        assert((k - (from + stride(pairs))) % stride(pairs) == 0);
                    }
                }
            } else {
                lemma_find_some(needle, hay, from + stride(pairs), pairs);
                let i = find(needle, hay, from + stride(pairs), pairs)->0;
                assert((i - from) % stride(pairs) == 0);
            }
        } else {
            assert((from - from) % stride(pairs) == 0);
        }
    }
}

/// Binding a key keeps a map well formed.
pub proof fn lemma_assoc_paired(entries: Seq<Datum>, key: Datum, value: Datum)
    requires
        paired(entries),
    ensures
        paired(assoc(entries, key, value)),
{
    let after = assoc(entries, key, value);
    lemma_find_some(key, entries, 0, true);
    match find(key, entries, 0, true) {
        Some(i) => {
            assert(i % 2 == 0);
            assert(i + 1 < entries.len());
            assert forall|j: int| 0 <= j < after.len() && j % 2 == 0 implies find(
                #[trigger] after[j],
                after.take(j),
                0,
                true,
            ) is None by {
                assert(after[j] == entries[j]);
                lemma_find_none(entries[j], entries.take(j), 0, true);
                lemma_find_none(after[j], after.take(j), 0, true);
                assert forall|k: int| 0 <= k < after.take(j).len() && k % 2 == 0 implies !datum_equal(
                    after[j],
                    #[trigger] after.take(j)[k],
                ) by {
                    assert(after.take(j)[k] == entries.take(j)[k]);
                }
            }
        },
        None => {
            assert forall|j: int| 0 <= j < after.len() && j % 2 == 0 implies find(
                #[trigger] after[j],
                after.take(j),
                0,
                true,
            ) is None by {
                if j < entries.len() {
                    assert(after[j] == entries[j]);
                    assert(after.take(j) =~= entries.take(j));
                } else {
                    assert(j == entries.len());
                    assert(after[j] == key);
                    assert(after.take(j) =~= entries);
                }
            }
        },
    }
}

/// Removing a key keeps a map well formed.
pub proof fn lemma_dissoc_paired(entries: Seq<Datum>, key: Datum)
    requires
        paired(entries),
    ensures
        paired(dissoc(entries, key)),
{
    let after = dissoc(entries, key);
    lemma_find_some(key, entries, 0, true);
    match find(key, entries, 0, true) {
        Some(i) => {
            assert(i % 2 == 0);
            assert(i + 1 < entries.len());
            assert(after.len() == entries.len() - 2);
            assert forall|j: int| 0 <= j < after.len() && j % 2 == 0 implies find(
                #[trigger] after[j],
                after.take(j),
                0,
                true,
            ) is None by {
                let origin = if j < i {
                    j
                } else {
                    j + 2
                };
                assert(after[j] == entries[origin]);
                lemma_find_none(entries[origin], entries.take(origin), 0, true);
                lemma_find_none(after[j], after.take(j), 0, true);
                assert forall|k: int| 0 <= k < after.take(j).len() && k % 2 == 0 implies !datum_equal(
                    after[j],
                    #[trigger] after.take(j)[k],
                ) by {
                    let from = if k < i {
                        k
                    } else {
                        k + 2
                    };
                    assert(after.take(j)[k] == entries.take(origin)[from]);
                }
            }
        },
        None => {},
    }
}

/// Adjoining a member keeps a set well formed.
pub proof fn lemma_adjoin_distinct(members: Seq<Datum>, item: Datum)
    requires
        distinct(members),
    ensures
        distinct(adjoin(members, item)),
{
    let after = adjoin(members, item);
    if find(item, members, 0, false) is None {
        assert forall|j: int| 0 <= j < after.len() implies find(
            #[trigger] after[j],
            after.take(j),
            0,
            false,
        ) is None by {
            if j < members.len() {
                assert(after[j] == members[j]);
                assert(after.take(j) =~= members.take(j));
            } else {
                assert(after[j] == item);
                assert(after.take(j) =~= members);
            }
        }
    }
}

/// Binding pairs one after the other keeps a map well formed.
pub proof fn lemma_assoc_all_paired(entries: Seq<Datum>, items: Seq<Datum>, n: nat)
    requires
        paired(entries),
    ensures
        paired(assoc_all(entries, items, n)),
    decreases n,
{
    if !(n < 2 || n > items.len()) {
        lemma_assoc_all_paired(entries, items, (n - 2) as nat);
        lemma_assoc_paired(assoc_all(entries, items, (n - 2) as nat), items[n - 2], items[n - 1]);
    }
}

/// Removing keys one after the other keeps a map well formed.
pub proof fn lemma_dissoc_all_paired(entries: Seq<Datum>, keys: Seq<Datum>, n: nat)
    requires
        paired(entries),
    ensures
        paired(dissoc_all(entries, keys, n)),
    decreases n,
{
    if !(n == 0 || n > keys.len()) {
        lemma_dissoc_all_paired(entries, keys, (n - 1) as nat);
        lemma_dissoc_paired(dissoc_all(entries, keys, (n - 1) as nat), keys[n - 1]);
    }
}

/// Adjoining members one after the other keeps a set well formed.
pub proof fn lemma_adjoin_all_distinct(members: Seq<Datum>, items: Seq<Datum>, n: nat)
    requires
        distinct(members),
    ensures
        distinct(adjoin_all(members, items, n)),
    decreases n,
{
    if !(n == 0 || n > items.len()) {
        lemma_adjoin_all_distinct(members, items, (n - 1) as nat);
        lemma_adjoin_distinct(adjoin_all(members, items, (n - 1) as nat), items[n - 1]);
    }
}

/// Looks a key up in a run of entries.
pub fn lookup_entry<'a>(entries: &'a Vec<Value>, key: &Value) -> (r: Option<&'a Value>)
    ensures
        match r {
            Some(v) => lookup(data(entries@), key@) == Some(v@),
            None => lookup(data(entries@), key@) is None,
        },
{
    match find_in(key, entries, true) {
        Some(i) => {
            if i + 1 < entries.len() {
                proof {
                    lemma_data_index(entries@, i + 1);
                }
                Some(&entries[i + 1])
            } else {
                None
            }
        },
        None => None,
    }
}

/// Binds `key` to `value` in a run of entries.
pub fn assoc_entry(entries: &mut Vec<Value>, key: Value, value: Value)
    ensures
        data(final(entries)@) == assoc(data(old(entries)@), key@, value@),
        paired(data(old(entries)@)) ==> paired(data(final(entries)@)),
{
    proof {
        if paired(data(entries@)) {
            lemma_assoc_paired(data(entries@), key@, value@);
        }
    }
    let found = find_in(&key, entries, true);
    let ghost before = entries@;
    match found {
        Some(i) => {
            if i + 1 < entries.len() {
                entries.set(i + 1, value);
                proof {
                    lemma_data_update(before, i + 1, value);
                }
                return ;
            }
        },
        None => {},
    }
    entries.push(key);
    entries.push(value);
    proof {
        lemma_data_push(before, key);
        lemma_data_push(before.push(key), value);
    }
}

/// Removes the entry under `key` from a run of entries.
pub fn dissoc_entry(entries: &mut Vec<Value>, key: &Value)
    ensures
        data(final(entries)@) == dissoc(data(old(entries)@), key@),
        paired(data(old(entries)@)) ==> paired(data(final(entries)@)),
{
    proof {
        if paired(data(entries@)) {
            lemma_dissoc_paired(data(entries@), key@);
        }
    }
    let found = find_in(key, entries, true);
    let ghost before = entries@;
    match found {
        Some(i) => {
            if i + 1 < entries.len() {
                entries.remove(i);
                entries.remove(i);
                proof {
                    lemma_data_remove(before, i as int);
                    lemma_data_remove(before.remove(i as int), i as int);
                }
            }
        },
        None => {},
    }
}

/// Puts `item` among the members of a set.
pub fn adjoin_member(members: &mut Vec<Value>, item: Value)
    ensures
        data(final(members)@) == adjoin(data(old(members)@), item@),
        distinct(data(old(members)@)) ==> distinct(data(final(members)@)),
{
    proof {
        if distinct(data(members@)) {
            lemma_adjoin_distinct(data(members@), item@);
        }
    }
    let found = find_in(&item, members, false);
    if found.is_none() {
        proof {
            lemma_data_push(members@, item);
        }
        members.push(item);
    }
}

/// The list that holds the given values.
pub fn list_with_values(values: Vec<Value>) -> (r: Value)
    ensures
        r@ == Datum::List(data(values@)),
{
    Value::List(list_from_vec(values))
}

/// The vector that holds the given values.
pub fn vector_with_values(values: Vec<Value>) -> (r: Value)
    ensures
        r@ == Datum::Vector(data(values@)),
{
    Value::Vector(vector_from_vec(values))
}

/// The map that binds, in order, the pairs that the given values make: a
/// key, its value, the next key, its value. A last value without a partner
/// is left out.
pub fn map_with_entries(items: Vec<Value>) -> (r: Value)
    ensures
        r@ == Datum::HashMap(
            assoc_all(Seq::empty(), data(items@), (items.len() - items.len() % 2) as nat),
        ),
        r matches Value::HashMap(m) && m.wf(),
{
    proof {
        lemma_assoc_all_paired(
            Seq::empty(),
            data(items@),
            (items.len() - items.len() % 2) as nat,
        );
    }
    let mut entries: Vec<Value> = Vec::new();
    let mut i: usize = 0;
    assert(data(entries@) =~= Seq::<Datum>::empty());
    while i + 1 < items.len()
        invariant
            0 <= i,
            i % 2 == 0,
            i <= items.len(),
            data(entries@) == assoc_all(Seq::empty(), data(items@), i as nat),
        decreases items.len() - i,
    {
        proof {
            lemma_data_index(items@, i as int);
            lemma_data_index(items@, i + 1);
        }
        assoc_entry(&mut entries, items[i].clone(), items[i + 1].clone());
        i = i + 2;
    }
    Value::HashMap(PersistentMap { entries: vector_from_vec(entries) })
}

/// The flat run of keys and values that a run of pairs makes.
pub open spec fn flat(pairs: Seq<(Value, Value)>) -> Seq<Datum> {
    Seq::new(
        2 * pairs.len(),
        |i: int|
            if i % 2 == 0 {
                pairs[i / 2].0@
            } else {
                pairs[i / 2].1@
            },
    )
}

/// The map that binds each key to its value, in order.
pub fn map_with_values(pairs: Vec<(Value, Value)>) -> (r: Value)
    ensures
        r@ == Datum::HashMap(assoc_all(Seq::empty(), flat(pairs@), (2 * pairs.len()) as nat)),
        r matches Value::HashMap(m) && m.wf(),
{
    proof {
        lemma_assoc_all_paired(Seq::empty(), flat(pairs@), (2 * pairs.len()) as nat);
    }
    let mut entries: Vec<Value> = Vec::new();
    let mut i: usize = 0;
    assert(data(entries@) =~= Seq::<Datum>::empty());
    while i < pairs.len()
        invariant
            0 <= i <= pairs.len(),
            data(entries@) == assoc_all(Seq::empty(), flat(pairs@), (2 * i) as nat),
        decreases pairs.len() - i,
    {
        let key = pairs[i].0.clone();
        let value = pairs[i].1.clone();
        assert(flat(pairs@)[2 * i] == key@);
        assert(flat(pairs@)[2 * i + 1] == value@);
        assoc_entry(&mut entries, key, value);
        i = i + 1;
    }
    Value::HashMap(PersistentMap { entries: vector_from_vec(entries) })
}

/// The set of the given values.
pub fn set_with_values(values: Vec<Value>) -> (r: Value)
    ensures
        r@ == Datum::HashSet(adjoin_all(Seq::empty(), data(values@), values.len() as nat)),
        r matches Value::HashSet(s) && s.wf(),
{
    proof {
        lemma_adjoin_all_distinct(Seq::empty(), data(values@), values.len() as nat);
    }
    let mut members: Vec<Value> = Vec::new();
    let mut i: usize = 0;
    assert(data(members@) =~= Seq::<Datum>::empty());
    while i < values.len()
        invariant
            0 <= i <= values.len(),
            data(members@) == adjoin_all(Seq::empty(), data(values@), i as nat),
        decreases values.len() - i,
    {
        proof {
            lemma_data_index(values@, i as int);
        }
        adjoin_member(&mut members, values[i].clone());
        i = i + 1;
    }
    Value::HashSet(PersistentSet { members: vector_from_vec(members) })
}

/// An exception that is not in flight.
pub fn exception(message: &str, payload: &Value) -> (r: Value)
    ensures
        r@ == Datum::Exception(message@, Box::new(payload@), false),
{
    Value::Exception(
        ExceptionImpl {
            message: String::from_str(message),
            data: Box::new(payload.clone()),
            thrown: false,
        },
    )
}

/// Whether a value is an exception in flight.
pub open spec fn is_thrown(d: Datum) -> bool {
    d matches Datum::Exception(_, _, thrown) && thrown
}

/// The term with the `thrown` mark set as given, where it is an exception.
pub open spec fn marked(d: Datum, thrown: bool) -> Datum {
    match d {
        Datum::Exception(message, payload, _) => Datum::Exception(message, payload, thrown),
        other => other,
    }
}

/// Whether a value is an exception in flight.
pub fn exception_is_thrown(v: &Value) -> (r: bool)
    ensures
        r == is_thrown(v@),
{
    match v {
        Value::Exception(e) => e.thrown,
        _ => false,
    }
}

/// The exception put in flight; any other value as it is.
pub fn exception_into_thrown(v: &Value) -> (r: Value)
    ensures
        r@ == marked(v@, true),
{
    match v {
        Value::Exception(e) => Value::Exception(
            ExceptionImpl {
                message: e.message.clone(),
                data: Box::new((*e.data).clone()),
                thrown: true,
            },
        ),
        other => other.clone(),
    }
}

/// The exception taken out of flight; any other value as it is.
pub fn exception_from_thrown(v: &Value) -> (r: Value)
    ensures
        r@ == marked(v@, false),
{
    match v {
        Value::Exception(e) => Value::Exception(
            ExceptionImpl {
                message: e.message.clone(),
                data: Box::new((*e.data).clone()),
                thrown: false,
            },
        ),
        other => other.clone(),
    }
}

} // verus!
