//! The array of the language: a sequence of values that grows and shrinks at
//! both ends.

use std::collections::VecDeque;
use vstd::prelude::*;
use crate::runtime::data_structures::value::clone_value;
use crate::runtime::data_structures::value::Value;
use crate::runtime::data_structures::value::ValueView;

verus! {

/// An array of values.
#[derive(Debug)]
pub struct ValueVec {
    values: VecDeque<Value>,
}

impl View for ValueVec {
    type V = Seq<Value>;

    closed spec fn view(&self) -> Seq<Value> {
        self.values@
    }
}

/// The views of the values of a sequence.
pub open spec fn values_view(values: Seq<Value>) -> Seq<ValueView> {
    Seq::new(values.len(), |i: int| values[i]@)
}

impl ValueVec {
    /// An array of `new_size` values that are all `Nil`.
    pub fn new(new_size: usize) -> (r: ValueVec)
        ensures
            r@.len() == new_size,
            forall|i: int| 0 <= i < new_size ==> r@[i] == Value::Nil,
    {
        let mut values: VecDeque<Value> = VecDeque::new();
        let mut k: usize = 0;
        while k < new_size
            invariant
                k <= new_size,
                values@.len() == k,
                forall|i: int| 0 <= i < k ==> values@[i] == Value::Nil,
            decreases new_size - k,
        {
            values.push_back(Value::Nil);
            k += 1;
        }
        ValueVec { values }
    }

    /// An array of the given values.
    pub fn from_vec(values: Vec<Value>) -> (r: ValueVec)
        ensures
            r@ == values@,
    {
        let mut source = values;
        let ghost all = source@;
        let mut reversed: Vec<Value> = Vec::new();
        while source.len() > 0
            invariant
                source@.len() + reversed@.len() == all.len(),
                source@ == all.take(source@.len() as int),
                forall|i: int|
                    0 <= i < reversed@.len() ==> reversed@[i] == all[all.len() - 1 - i],
            decreases source@.len(),
        {
            let last = source.pop().unwrap();
            reversed.push(last);
            assert(source@ =~= all.take(source@.len() as int));
        }
        let mut out: VecDeque<Value> = VecDeque::new();
        while reversed.len() > 0
            invariant
                out@.len() + reversed@.len() == all.len(),
                out@ == all.take(out@.len() as int),
                forall|i: int|
                    0 <= i < reversed@.len() ==> reversed@[i] == all[all.len() - 1 - i],
            decreases reversed@.len(),
        {
            let next = reversed.pop().unwrap();
            out.push_back(next);
            assert(out@ =~= all.take(out@.len() as int));
        }
        assert(all.take(all.len() as int) =~= all);
        ValueVec { values: out }
    }

    pub fn len(&self) -> (r: usize)
        ensures
            r == self@.len(),
    {
        self.values.len()
    }

    /// Makes the array `new_size` values long. A longer array is filled up
    /// with `Nil`, a shorter one loses its last values.
    pub fn resize(&mut self, new_size: usize)
        ensures
            final(self)@.len() == new_size,
            forall|i: int|
                0 <= i < new_size ==> final(self)@[i] == if i < old(self)@.len() {
                    old(self)@[i]
                } else {
                    Value::Nil
                },
    {
        while self.values.len() > new_size
            invariant
                self.values@.len() <= old(self).values@.len(),
                self.values@.len() >= new_size || self.values@.len() == old(self).values@.len(),
                self.values@ == old(self).values@.take(self.values@.len() as int),
            decreases self.values@.len(),
        {
            let _ = self.values.pop_back();
            assert(self.values@ =~= old(self).values@.take(self.values@.len() as int));
        }
        while self.values.len() < new_size
            invariant
                self.values@.len() <= new_size,
                self.values@.len() >= old(self).values@.len() || self.values@.len() >= new_size,
                forall|i: int|
                    0 <= i < self.values@.len() ==> self.values@[i] == if i < old(self).values@.len() {
                        old(self).values@[i]
                    } else {
                        Value::Nil
                    },
            decreases new_size - self.values@.len(),
        {
            self.values.push_back(Value::Nil);
        }
    }

    /// The value at the given index.
    pub fn get(&self, index: usize) -> (r: &Value)
        requires
            index < self@.len(),
        ensures
            *r == self@[index as int],
    {
        &self.values[index]
    }

    /// Puts a value in the place of the one at the given index.
    pub fn set(&mut self, index: usize, value: Value)
        requires
            index < old(self)@.len(),
        ensures
            final(self)@ == old(self)@.update(index as int, value),
    {
        let _ = self.values.remove(index);
        self.values.insert(index, value);
        assert(self.values@ =~= old(self).values@.update(index as int, value));
    }

    /// Puts a value before the one at the given index, or at the end.
    pub fn insert(&mut self, index: usize, value: Value)
        requires
            index <= old(self)@.len(),
        ensures
            final(self)@ == old(self)@.insert(index as int, value),
    {
        self.values.insert(index, value);
    }

    /// Takes out the value at the given index.
    pub fn remove(&mut self, index: usize)
        requires
            index < old(self)@.len(),
        ensures
            final(self)@ == old(self)@.remove(index as int),
    {
        let _ = self.values.remove(index);
    }

    pub fn push_front(&mut self, value: Value)
        ensures
            final(self)@ == seq![value] + old(self)@,
    {
        self.values.push_front(value);
    }

    /// Takes out the first value, if there is one.
    pub fn pop_front(&mut self) -> (r: Option<Value>)
        ensures
            old(self)@.len() == 0 ==> r is None && final(self)@ == old(self)@,
            old(self)@.len() > 0 ==> r == Some(old(self)@[0]) && final(self)@ == old(self)@.skip(1),
    {
        let r = self.values.pop_front();
        proof {
            if old(self)@.len() > 0 {
                assert(self.values@ =~= old(self)@.skip(1));
            }
        }
        r
    }

    pub fn push_back(&mut self, value: Value)
        ensures
            final(self)@ == old(self)@.push(value),
    {
        self.values.push_back(value);
    }

    /// Takes out the last value, if there is one.
    pub fn pop_back(&mut self) -> (r: Option<Value>)
        ensures
            old(self)@.len() == 0 ==> r is None && final(self)@ == old(self)@,
            old(self)@.len() > 0 ==> r == Some(old(self)@.last()) && final(self)@ == old(self)@.drop_last(),
    {
        let r = self.values.pop_back();
        proof {
            if old(self)@.len() > 0 {
                assert(self.values@ =~= old(self)@.drop_last());
            }
        }
        r
    }

    /// Copies of the values, in order. A container among them is shared with
    /// the copy.
    pub fn to_vec(&self) -> (r: Vec<Value>)
        ensures
            values_view(r@) == values_view(self@),
    {
        let mut out: Vec<Value> = Vec::new();
        let mut k: usize = 0;
        while k < self.values.len()
            invariant
                k <= self.values@.len(),
                out@.len() == k,
                forall|i: int| 0 <= i < k ==> out@[i]@ == self.values@[i]@,
            decreases self.values@.len() - k,
        {
            out.push(clone_value(&self.values[k]));
            k += 1;
        }
        assert(values_view(out@) =~= values_view(self@));
        out
    }
}

} // verus!
