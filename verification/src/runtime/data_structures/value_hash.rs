//! The hash map of the language: values by key.

use vstd::prelude::*;
use crate::runtime::data_structures::value::clone_value;
use crate::runtime::data_structures::value::same_value;
use crate::runtime::data_structures::value::Value;
use crate::runtime::data_structures::value::ValueView;

verus! {

/// Whether the bits are those of a floating point number that is no number.
pub open spec fn is_nan_bits(bits: u64) -> bool {
    (bits & 0x7ff0_0000_0000_0000) == 0x7ff0_0000_0000_0000 && (bits & 0x000f_ffff_ffff_ffff) != 0
}

/// Whether a value can be found again as a key. A floating point number that
/// is no number equals nothing, itself included, so it cannot.
pub open spec fn is_key(key: ValueView) -> bool {
    match key {
        ValueView::Float(bits) => !is_nan_bits(bits),
        _ => true,
    }
}

/// The value that the entries hold under a key: that of the last entry with
/// that key. Keys are the same where they hold the same: numbers are not
/// widened, floating point numbers go by their bits, and containers by their
/// identity.
pub open spec fn entry_value(entries: Seq<(Value, Value)>, key: ValueView) -> Option<Value>
    decreases entries.len(),
{
    if entries.len() == 0 || !is_key(key) {
        None
    } else if entries.last().0@ == key {
        Some(entries.last().1)
    } else {
        entry_value(entries.drop_last(), key)
    }
}

/// No key that can be found occurs twice among the entries.
pub open spec fn distinct_keys(entries: Seq<(Value, Value)>) -> bool {
    forall|i: int, j: int|
        0 <= i < j < entries.len() && is_key((#[trigger] entries[i]).0@) ==> entries[i].0@
            != (#[trigger] entries[j]).0@
}

/// A hash map from values to values.
///
/// The entries are kept as a list in the order in which their keys came in,
/// and a key is found by comparing it with the keys of the list. A value is
/// no key that the verifier can follow into a hash map of the standard
/// library, whose hashing and equality it does not see; of this list every
/// lookup and insertion is proved.
#[derive(Debug)]
pub struct ValueHash {
    entries: Vec<(Value, Value)>,
}

impl View for ValueHash {
    type V = Seq<(Value, Value)>;

    /// The entries of the map, in the order in which their keys came in. No
    /// two entries have the same key.
    closed spec fn view(&self) -> Seq<(Value, Value)> {
        self.entries@
    }
}

impl ValueHash {
    /// The invariant of the map: no key that can be found occurs twice.
    pub closed spec fn wf(&self) -> bool {
        distinct_keys(self.entries@)
    }

    /// No key that can be found occurs twice in a map that is well formed.
    pub proof fn lemma_distinct(&self)
        requires
            self.wf(),
        ensures
            distinct_keys(self@),
    {
    }

    pub fn new() -> (r: ValueHash)
        ensures
            r.wf(),
            r@.len() == 0,
    {
        ValueHash { entries: Vec::new() }
    }

    /// The number of entries.
    pub fn len(&self) -> (r: usize)
        ensures
            r == self@.len(),
    {
        self.entries.len()
    }

    /// The place of the entry with the given key.
    fn position(&self, key: &Value) -> (r: Option<usize>)
        ensures
            match r {
                Some(i) => i < self@.len() && self@[i as int].0@ == key@ && entry_value(
                    self@,
                    key@,
                ) == Some(self@[i as int].1),
                None => entry_value(self@, key@) is None,
            },
    {
        if let Value::Float(bits) = key {
            if (*bits & 0x7ff0_0000_0000_0000) == 0x7ff0_0000_0000_0000 && (*bits
                & 0x000f_ffff_ffff_ffff) != 0 {
                return None;
            }
        }
        let mut k: usize = self.entries.len();
        assert(self.entries@.take(k as int) == self.entries@);
        while k > 0
            invariant
                k <= self.entries@.len(),
                is_key(key@),
                entry_value(self.entries@, key@) == entry_value(
                    self.entries@.take(k as int),
                    key@,
                ),
            decreases k,
        {
            let ghost prefix = self.entries@.take(k as int);
            assert(prefix.drop_last() == self.entries@.take(k - 1));
            assert(prefix.last() == self.entries@[k - 1]);
            k -= 1;
            if same_value(&self.entries[k].0, key) {
                return Some(k);
            }
        }
        assert(self.entries@.take(0) =~= Seq::<(Value, Value)>::empty());
        None
    }

    /// Puts a value under a key, in the place of the one that was there, if
    /// there was one.
    pub fn insert(&mut self, key: Value, value: Value)
        requires
            old(self).wf(),
        ensures
            final(self).wf(),
            is_key(key@) ==> entry_value(final(self)@, key@) == Some(value),
            forall|other: ValueView|
                other != key@ ==> entry_value(final(self)@, other) == entry_value(
                    old(self)@,
                    other,
                ),
            final(self)@.len() == if entry_value(old(self)@, key@) is Some {
                old(self)@.len()
            } else {
                old(self)@.len() + 1
            },
            entry_value(old(self)@, key@) is None ==> final(self)@ == old(self)@.push((key, value)),
    {
        let ghost before = self.entries@;
        match self.position(&key) {
            Some(i) => {
                self.entries.set(i, (key, value));
                proof {
                    let after = self.entries@;
                    assert forall|other: ValueView| other != key@ implies entry_value(after, other)
                        == entry_value(before, other) by {
                        lemma_update_other(before, i as int, key, value, other);
                    }
                    lemma_update_key(before, i as int, key, value);
                }
            },
            None => {
                proof {
                    if is_key(key@) {
                        lemma_absent(before, key@);
                    }
                }
                self.entries.push((key, value));
                proof {
                    let after = self.entries@;
                    assert(after.drop_last() == before);
                    assert forall|other: ValueView| other != key@ implies entry_value(after, other)
                        == entry_value(before, other) by {}
                    assert forall|a: int, b: int|
                        0 <= a < b < after.len() && is_key((#[trigger] after[a]).0@) implies after[a].0@
                        != (#[trigger] after[b]).0@ by {
                        assert(after[a] == before[a]);
                        if b < before.len() {
                            assert(after[b] == before[b]);
                        }
                    }
                }
            },
        }
    }

    /// The value under a key, if there is one.
    pub fn get(&self, key: &Value) -> (r: Option<&Value>)
        ensures
            match r {
                Some(value) => entry_value(self@, key@) == Some(*value),
                None => entry_value(self@, key@) is None,
            },
    {
        match self.position(key) {
            Some(i) => Some(&self.entries[i].1),
            None => None,
        }
    }

    /// Copies of the entries, in order. A container among them is shared with
    /// the copy.
    pub fn iter(&self) -> (r: Vec<(Value, Value)>)
        ensures
            r@.len() == self@.len(),
            forall|i: int|
                0 <= i < r@.len() ==> r@[i].0@ == self@[i].0@ && r@[i].1@ == self@[i].1@,
    {
        let mut out: Vec<(Value, Value)> = Vec::new();
        let mut k: usize = 0;
        while k < self.entries.len()
            invariant
                k <= self.entries@.len(),
                out@.len() == k,
                forall|i: int|
                    0 <= i < k ==> out@[i].0@ == self.entries@[i].0@ && out@[i].1@
                        == self.entries@[i].1@,
            decreases self.entries@.len() - k,
        {
            let entry = &self.entries[k];
            out.push((clone_value(&entry.0), clone_value(&entry.1)));
            k += 1;
        }
        out
    }

    /// Puts a copy of every entry of another map into this one.
    pub fn extend(&mut self, other: &ValueHash)
        requires
            old(self).wf(),
        ensures
            final(self).wf(),
            forall|key: ValueView|
                match #[trigger] entry_value(other@, key) {
                    Some(value) => entry_value(final(self)@, key) is Some && entry_value(
                        final(self)@,
                        key,
                    )->0@ == value@,
                    None => entry_value(final(self)@, key) == entry_value(old(self)@, key),
                },
    {
        let mut k: usize = 0;
        while k < other.entries.len()
            invariant
                k <= other.entries@.len(),
                self.wf(),
                forall|key: ValueView|
                    entry_value(other.entries@.take(k as int), key) is None ==> entry_value(
                        self@,
                        key,
                    ) == entry_value(old(self)@, key),
                forall|key: ValueView|
                    (#[trigger] entry_value(other.entries@.take(k as int), key)) is Some
                        ==> entry_value(self@, key) is Some && entry_value(self@, key)->0@
                        == entry_value(other.entries@.take(k as int), key)->0@,
            decreases other.entries@.len() - k,
        {
            let entry = &other.entries[k];
            let ghost prefix = other.entries@.take(k + 1);
            assert(prefix.drop_last() == other.entries@.take(k as int));
            assert(prefix.last() == other.entries@[k as int]);
            let key = clone_value(&entry.0);
            let ghost key_view = key@;
            let ghost before = self@;
            self.insert(key, clone_value(&entry.1));
            proof {
                assert forall|key: ValueView|
                    (#[trigger] entry_value(prefix, key)) is Some implies entry_value(
                    self@,
                    key,
                ) is Some && entry_value(self@, key)->0@ == entry_value(prefix, key)->0@ by {
                    if key != key_view {
                        assert(entry_value(prefix, key) == entry_value(
                            other.entries@.take(k as int),
                            key,
                        ));
                        assert(entry_value(self@, key) == entry_value(before, key));
                    }
                }
                assert forall|key: ValueView|
                    entry_value(prefix, key) is None implies entry_value(self@, key)
                    == entry_value(old(self)@, key) by {
                    if is_key(key) {
                        assert(key != key_view);
                    }
                }
            }
            k += 1;
        }
        assert(other.entries@.take(other.entries@.len() as int) == other.entries@);
    }
}

/// A key that is found can be found, and stands in an entry.
pub proof fn lemma_found(entries: Seq<(Value, Value)>, key: ValueView)
    requires
        entry_value(entries, key) is Some,
    ensures
        is_key(key),
        exists|i: int| 0 <= i < entries.len() && (#[trigger] entries[i]).0@ == key,
    decreases entries.len(),
{
    if entries.last().0@ == key {
        assert(entries[entries.len() - 1].0@ == key);
    } else {
        lemma_found(entries.drop_last(), key);
        let i = choose|i: int|
            0 <= i < entries.drop_last().len() && (#[trigger] entries.drop_last()[i]).0@ == key;
        assert(entries[i].0@ == key);
    }
}

/// A key that is not found stands in no entry.
pub proof fn lemma_absent(entries: Seq<(Value, Value)>, key: ValueView)
    requires
        entry_value(entries, key) is None,
        is_key(key),
    ensures
        forall|i: int| 0 <= i < entries.len() ==> (#[trigger] entries[i]).0@ != key,
    decreases entries.len(),
{
    if entries.len() > 0 {
        lemma_absent(entries.drop_last(), key);
        assert forall|i: int| 0 <= i < entries.len() implies (#[trigger] entries[i]).0@ != key by {
            if i < entries.len() - 1 {
                assert(entries.drop_last()[i] == entries[i]);
            }
        }
    }
}

/// Replacing the entry of a key leaves what is found under another key.
pub proof fn lemma_update_other(
    entries: Seq<(Value, Value)>,
    i: int,
    key: Value,
    value: Value,
    other: ValueView,
)
    requires
        0 <= i < entries.len(),
        entries[i].0@ == key@,
        other != key@,
    ensures
        entry_value(entries.update(i, (key, value)), other) == entry_value(entries, other),
    decreases entries.len(),
{
    let updated = entries.update(i, (key, value));
    if i == entries.len() - 1 {
        assert(updated.drop_last() == entries.drop_last());
    } else {
        assert(updated.drop_last() == entries.drop_last().update(i, (key, value)));
        lemma_update_other(entries.drop_last(), i, key, value, other);
    }
}

/// Replacing the only entry of a key puts the new value under the key.
pub proof fn lemma_update_key(entries: Seq<(Value, Value)>, i: int, key: Value, value: Value)
    requires
        0 <= i < entries.len(),
        entries[i].0@ == key@,
        distinct_keys(entries),
    ensures
        is_key(key@) ==> entry_value(entries.update(i, (key, value)), key@) == Some(value),
        distinct_keys(entries.update(i, (key, value))),
    decreases entries.len(),
{
    let updated = entries.update(i, (key, value));
    assert forall|a: int, b: int|
        0 <= a < b < updated.len() && is_key((#[trigger] updated[a]).0@) implies updated[a].0@
        != (#[trigger] updated[b]).0@ by {
        assert(updated[a].0@ == entries[a].0@);
        assert(updated[b].0@ == entries[b].0@);
    }
    if i == entries.len() - 1 {
    } else {
        let shorter = entries.drop_last();
        assert(updated.drop_last() == shorter.update(i, (key, value)));
        assert forall|a: int, b: int|
            0 <= a < b < shorter.len() && is_key((#[trigger] shorter[a]).0@) implies shorter[a].0@
            != (#[trigger] shorter[b]).0@ by {
            assert(shorter[a] == entries[a]);
            assert(shorter[b] == entries[b]);
        }
        lemma_update_key(shorter, i, key, value);
        if is_key(key@) {
            assert(entries[i].0@ != entries[entries.len() - 1].0@);
        }
    }
}

} // verus!
