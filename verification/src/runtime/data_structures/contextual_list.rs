//! A list whose items are held in nested contexts and found by one index that
//! runs through all of them.

use vstd::prelude::*;
use crate::runtime::data_structures::contextual_data::ContextualData;

verus! {

/// The items of one context, and the index of the first of them in the whole
/// list.
pub struct SubList<T> {
    pub items: Vec<T>,
    pub start_index: usize,
}

impl<T> SubList<T> {
    /// A new, empty sub-list that starts at the given index.
    pub fn new(start_index: usize) -> (r: SubList<T>)
        ensures
            r.items@.len() == 0,
            r.start_index == start_index,
    {
        SubList { items: Vec::new(), start_index }
    }
}

/// The items of all the sub-lists, the outermost context first.
pub open spec fn flatten<T>(stack: Seq<SubList<T>>) -> Seq<T>
    decreases stack.len(),
{
    if stack.len() == 0 {
        Seq::empty()
    } else {
        flatten(stack.drop_last()) + stack.last().items@
    }
}

/// Each sub-list starts where the one before it ends.
pub open spec fn chained<T>(stack: Seq<SubList<T>>) -> bool {
    forall|k: int|
        0 <= k < stack.len() ==> (#[trigger] stack[k]).start_index == flatten(stack.take(k)).len()
}

/// An item of a sub-list stands in the whole list at the start of the sub-list
/// plus its index there.
pub proof fn lemma_flatten_index<T>(stack: Seq<SubList<T>>, k: int, j: int)
    requires
        chained(stack),
        0 <= k < stack.len(),
        0 <= j < stack[k].items@.len(),
    ensures
        stack[k].start_index + j < flatten(stack).len(),
        flatten(stack)[stack[k].start_index + j] == stack[k].items@[j],
    decreases stack.len(),
{
    if k == stack.len() - 1 {
        assert(stack.take(k) == stack.drop_last());
    } else {
        let shorter = stack.drop_last();
        assert forall|m: int| 0 <= m < shorter.len() implies (#[trigger] shorter[m]).start_index
            == flatten(shorter.take(m)).len() by {
            assert(shorter.take(m) == stack.take(m));
            assert(shorter[m] == stack[m]);
        }
        lemma_flatten_index(shorter, k, j);
    }
}

/// The whole list is at least as long as any of its prefixes of sub-lists.
pub proof fn lemma_flatten_prefix<T>(stack: Seq<SubList<T>>, k: int)
    requires
        0 <= k <= stack.len(),
    ensures
        flatten(stack.take(k)).len() <= flatten(stack).len(),
        flatten(stack.take(k)) == flatten(stack).take(flatten(stack.take(k)).len() as int),
    decreases stack.len(),
{
    if k == stack.len() {
        assert(stack.take(k) == stack);
        assert(flatten(stack).take(flatten(stack).len() as int) == flatten(stack));
    } else {
        assert(stack.drop_last().take(k) == stack.take(k));
        lemma_flatten_prefix(stack.drop_last(), k);
        let n = flatten(stack.take(k)).len() as int;
        assert(flatten(stack).take(n) == flatten(stack.drop_last()).take(n));
    }
}

/// A list that manages contexts of sub-lists. An index, once handed out, names
/// the same item until the context of the item is released.
pub struct ContextualList<T> {
    list_stack: Vec<SubList<T>>,
}

impl<T> View for ContextualList<T> {
    type V = Seq<T>;

    /// The items of all the contexts, the outermost first.
    closed spec fn view(&self) -> Seq<T> {
        flatten(self.list_stack@)
    }
}

impl<T> ContextualList<T> {
    /// The invariant of the list: there is a context, the sub-lists are
    /// chained, and the length of the whole fits the machine.
    pub closed spec fn wf(&self) -> bool {
        &&& self.list_stack@.len() > 0
        &&& chained(self.list_stack@)
        &&& flatten(self.list_stack@).len() <= usize::MAX
    }

    /// The number of contexts.
    pub closed spec fn depth(&self) -> nat {
        self.list_stack@.len()
    }

    /// The index at which the innermost context starts.
    pub closed spec fn context_start(&self) -> nat {
        self.list_stack@.last().start_index as nat
    }

    /// The index at which each context starts, the outermost first.
    pub closed spec fn starts(&self) -> Seq<nat> {
        Seq::new(self.list_stack@.len(), |k: int| self.list_stack@[k].start_index as nat)
    }

    /// There is a start for each context, the last of them is the start of
    /// the innermost context, and each of them lies within the list.
    pub proof fn lemma_starts(&self)
        requires
            self.wf(),
        ensures
            self.starts().len() == self.depth(),
            self.starts().last() == self.context_start(),
            forall|k: int| 0 <= k < self.starts().len() ==> #[trigger] self.starts()[k] <= self@.len(),
    {
        let stack = self.list_stack@;
        assert forall|k: int| 0 <= k < self.starts().len() implies #[trigger] self.starts()[k]
            <= self@.len() by {
            lemma_flatten_prefix(stack, k);
            assert(stack[k].start_index == flatten(stack.take(k)).len());
        }
    }

    /// The innermost context starts within the list.
    pub proof fn lemma_context_start(&self)
        requires
            self.wf(),
        ensures
            self.context_start() <= self@.len(),
    {
        let stack = self.list_stack@;
        assert(stack.take(stack.len() - 1) == stack.drop_last());
        assert(stack[stack.len() - 1] == stack.last());
    }

    /// A new list with one context and no item.
    pub fn new() -> (r: ContextualList<T>)
        ensures
            r.wf(),
            r@ == Seq::<T>::empty(),
            r.depth() == 1,
            r.context_start() == 0,
            r.starts() == seq![0nat],
    {
        let mut list_stack: Vec<SubList<T>> = Vec::new();
        list_stack.push(SubList::new(0));
        proof {
            let stack = list_stack@;
            assert(stack.take(0) =~= Seq::<SubList<T>>::empty());
            assert(stack.drop_last() =~= Seq::<SubList<T>>::empty());
            assert(flatten(stack.drop_last()) =~= Seq::<T>::empty());
            assert(flatten(stack) =~= Seq::<T>::empty());
            assert(Seq::new(stack.len(), |k: int| stack[k].start_index as nat) =~= seq![0nat]);
        }
        ContextualList { list_stack }
    }

    /// The length of the entire list, regardless of the current context.
    pub fn len(&self) -> (r: usize)
        requires
            self.wf(),
        ensures
            r == self@.len(),
    {
        let top = self.top();
        proof {
            let stack = self.list_stack@;
            assert(stack.take(stack.len() - 1) == stack.drop_last());
        }
        top.start_index + top.items.len()
    }

    /// Adds an item at the end of the list, in the innermost context, and
    /// gives its index.
    pub fn insert(&mut self, value: T) -> (r: usize)
        requires
            old(self).wf(),
            old(self)@.len() < usize::MAX,
        ensures
            final(self).wf(),
            final(self)@ == old(self)@.push(value),
            r == old(self)@.len(),
            final(self).depth() == old(self).depth(),
            final(self).context_start() == old(self).context_start(),
            final(self).starts() == old(self).starts(),
    {
        let ghost before = self.list_stack@;
        let index = self.len();
        let last = self.list_stack.len() - 1;
        self.list_stack[last].items.push(value);
        proof {
            let after = self.list_stack@;
            assert(after.drop_last() == before.drop_last());
            assert(flatten(after) == flatten(before).push(value));
            assert forall|k: int| 0 <= k < after.len() implies (#[trigger] after[k]).start_index
                == flatten(after.take(k)).len() by {
                assert(after.take(k) == before.take(k));
                assert(before[k].start_index == after[k].start_index);
            }
            assert(self.starts() =~= old(self).starts());
        }
        index
    }

    /// The innermost context.
    fn top(&self) -> (r: &SubList<T>)
        requires
            self.wf(),
        ensures
            *r == self.list_stack@.last(),
    {
        let index = self.list_stack.len() - 1;
        &self.list_stack[index]
    }

    /// The place in the stack of the sub-list that holds the given index.
    fn find(&self, index: usize) -> (r: usize)
        requires
            self.wf(),
            index < self@.len(),
        ensures
            r < self.list_stack@.len(),
            self.list_stack@[r as int].start_index <= index,
            index - self.list_stack@[r as int].start_index < self.list_stack@[r as int].items@.len(),
            self@[index as int] == self.list_stack@[r as int].items@[index
                - self.list_stack@[r as int].start_index],
    {
        let ghost stack = self.list_stack@;
        let mut k: usize = self.list_stack.len() - 1;
        proof {
            assert(stack.take(stack.len() as int) == stack);
        }
        while self.list_stack[k].start_index > index
            invariant
                self.wf(),
                stack == self.list_stack@,
                k < stack.len(),
                index < flatten(stack.take(k + 1)).len(),
            decreases k,
        {
            proof {
                assert(stack.take(k + 1).drop_last() == stack.take(k as int));
                assert(stack.take(0) =~= Seq::<SubList<T>>::empty());
                assert(k > 0);
                assert(stack.take(k as int).drop_last() == stack.take(k - 1));
                assert(stack.take(k as int).last() == stack[k - 1]);
            }
            k -= 1;
        }
        proof {
            assert(stack.take(k + 1).drop_last() == stack.take(k as int));
            assert(stack.take(k + 1).last() == stack[k as int]);
            lemma_flatten_index(stack, k as int, index - stack[k as int].start_index);
        }
        k
    }

    /// The item at the given index of the whole list.
    pub fn index(&self, index: usize) -> (r: &T)
        requires
            self.wf(),
            index < self@.len(),
        ensures
            *r == self@[index as int],
    {
        let k = self.find(index);
        let sub = &self.list_stack[k];
        &sub.items[index - sub.start_index]
    }

    /// Puts a value in the place of the item at the given index of the whole
    /// list.
    pub fn set(&mut self, index: usize, value: T)
        requires
            old(self).wf(),
            index < old(self)@.len(),
        ensures
            final(self).wf(),
            final(self)@ == old(self)@.update(index as int, value),
            final(self).depth() == old(self).depth(),
            final(self).context_start() == old(self).context_start(),
            final(self).starts() == old(self).starts(),
    {
        let ghost before = self.list_stack@;
        let k = self.find(index);
        let offset = index - self.list_stack[k].start_index;
        self.list_stack[k].items.set(offset, value);
        proof {
            let after = self.list_stack@;
            lemma_set_flatten(before, after, k as int, offset as int, value);
            assert(self.starts() =~= old(self).starts());
        }
    }
}

/// Replacing one item of one sub-list replaces that item of the whole list and
/// keeps the chaining.
#[verifier::spinoff_prover]
#[verifier::rlimit(60)]
pub proof fn lemma_set_flatten<T>(
    before: Seq<SubList<T>>,
    after: Seq<SubList<T>>,
    k: int,
    offset: int,
    value: T,
)
    requires
        chained(before),
        0 <= k < before.len(),
        0 <= offset < before[k].items@.len(),
        after.len() == before.len(),
        forall|m: int| 0 <= m < before.len() && m != k ==> after[m] == before[m],
        after[k].start_index == before[k].start_index,
        after[k].items@ == before[k].items@.update(offset, value),
    ensures
        chained(after),
        flatten(after) == flatten(before).update(before[k].start_index + offset, value),
    decreases before.len(),
{
    let n = before.len() - 1;
    lemma_flatten_index(before, k, offset);
    if k == n {
        assert(after.drop_last() =~= before.drop_last());
        assert(before.take(n) == before.drop_last());
        assert(flatten(after) =~= flatten(before).update(before[k].start_index + offset, value));
    } else {
        let b = before.drop_last();
        let a = after.drop_last();
        assert forall|m: int| 0 <= m < b.len() implies (#[trigger] b[m]).start_index == flatten(
            b.take(m),
        ).len() by {
            assert(b.take(m) == before.take(m));
            assert(b[m] == before[m]);
        }
        lemma_set_flatten(b, a, k, offset, value);
        lemma_flatten_index(b, k, offset);
        assert(flatten(after) =~= flatten(before).update(before[k].start_index + offset, value));
    }
    assert forall|m: int| 0 <= m < after.len() implies (#[trigger] after[m]).start_index
        == flatten(after.take(m)).len() by {
        lemma_take_flatten_len(before, after, k, m);
    }
}

/// Replacing one item of one sub-list changes the length of no prefix.
pub proof fn lemma_take_flatten_len<T>(
    before: Seq<SubList<T>>,
    after: Seq<SubList<T>>,
    k: int,
    m: int,
)
    requires
        0 <= k < before.len(),
        after.len() == before.len(),
        forall|j: int| 0 <= j < before.len() && j != k ==> after[j] == before[j],
        after[k].start_index == before[k].start_index,
        after[k].items@.len() == before[k].items@.len(),
        0 <= m <= before.len(),
    ensures
        flatten(after.take(m)).len() == flatten(before.take(m)).len(),
        m < before.len() ==> after[m].start_index == before[m].start_index,
    decreases m,
{
    if m > 0 {
        lemma_take_flatten_len(before, after, k, m - 1);
        assert(after.take(m).drop_last() == after.take(m - 1));
        assert(before.take(m).drop_last() == before.take(m - 1));
        assert(after.take(m).last() == after[m - 1]);
        assert(before.take(m).last() == before[m - 1]);
    } else {
        assert(after.take(0) =~= Seq::<SubList<T>>::empty());
        assert(before.take(0) =~= Seq::<SubList<T>>::empty());
    }
}

impl<T> ContextualData for ContextualList<T> {
    open spec fn contextual_wf(&self) -> bool {
        self.wf()
    }

    open spec fn context_depth(&self) -> nat {
        self.depth()
    }

    /// Opens a new context. The list keeps its items, and the new context
    /// starts at the end of it.
    fn mark_context(&mut self)
        ensures
            final(self)@ == old(self)@,
            final(self).context_start() == old(self)@.len(),
            final(self).starts() == old(self).starts().push(old(self)@.len()),
    {
        let ghost before = self.list_stack@;
        let start_index = self.len();
        self.list_stack.push(SubList::new(start_index));
        proof {
            let after = self.list_stack@;
            assert(after.drop_last() == before);
            assert(flatten(after) =~= flatten(before));
            assert forall|k: int| 0 <= k < after.len() implies (#[trigger] after[k]).start_index
                == flatten(after.take(k)).len() by {
                if k < before.len() {
                    assert(after.take(k) == before.take(k));
                    assert(after[k] == before[k]);
                } else {
                    assert(after.take(k) == before);
                }
            }
            assert(self.starts() =~= old(self).starts().push(old(self)@.len()));
        }
    }

    /// Closes the innermost context. The list loses the items from the start
    /// of that context on.
    fn release_context(&mut self)
        ensures
            final(self)@ == old(self)@.take(old(self).context_start() as int),
            final(self).starts() == old(self).starts().drop_last(),
    {
        let ghost before = self.list_stack@;
        let _ = self.list_stack.pop();
        proof {
            let after = self.list_stack@;
            assert(after == before.drop_last());
            assert(before.take(before.len() - 1) == before.drop_last());
            lemma_flatten_prefix(before, before.len() - 1);
            assert forall|k: int| 0 <= k < after.len() implies (#[trigger] after[k]).start_index
                == flatten(after.take(k)).len() by {
                assert(after.take(k) == before.take(k));
                assert(after[k] == before[k]);
            }
            assert(self.starts() =~= old(self).starts().drop_last());
        }
    }
}

} // verus!
