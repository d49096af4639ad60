//! The dictionary of words: what is known of each word, by name, in nested
//! contexts.

use vstd::prelude::*;
use crate::runtime::data_structures::contextual_data::ContextualData;

verus! {

/// When a word runs: as soon as the compiler meets it, or when the code that
/// it was compiled into runs.
#[derive(Clone, Copy, Debug, PartialEq, Eq, Structural)]
pub enum WordRuntime {
    Immediate,
    Normal,
}

/// Whether a word is built in or was defined by a script.
#[derive(Clone, Copy, Debug, PartialEq, Eq, Structural)]
pub enum WordType {
    Native,
    Scripted,
}

/// Whether a word is shown when the dictionary is listed.
#[derive(Clone, Copy, Debug, PartialEq, Eq, Structural)]
pub enum WordVisibility {
    Visible,
    Hidden,
}

/// What the dictionary knows of a word.
#[derive(Debug)]
pub struct WordInfo {
    pub name: String,
    pub runtime: WordRuntime,
    pub word_type: WordType,
    pub visibility: WordVisibility,
    pub description: String,
    pub signature: String,
    pub handler_index: usize,
}

/// What a `WordInfo` holds, as plain values.
pub struct WordInfoView {
    pub name: Seq<char>,
    pub runtime: WordRuntime,
    pub word_type: WordType,
    pub visibility: WordVisibility,
    pub description: Seq<char>,
    pub signature: Seq<char>,
    pub handler_index: usize,
}

impl View for WordInfo {
    type V = WordInfoView;

    open spec fn view(&self) -> WordInfoView {
        WordInfoView {
            name: self.name@,
            runtime: self.runtime,
            word_type: self.word_type,
            visibility: self.visibility,
            description: self.description@,
            signature: self.signature@,
            handler_index: self.handler_index,
        }
    }
}

impl Clone for WordInfo {
    fn clone(&self) -> (r: Self)
        ensures
            r@ == self@,
    {
        WordInfo {
            name: self.name.clone(),
            runtime: self.runtime,
            word_type: self.word_type,
            visibility: self.visibility,
            description: self.description.clone(),
            signature: self.signature.clone(),
            handler_index: self.handler_index,
        }
    }
}

impl WordInfo {
    /// The description of a word without a name: normal, native and visible,
    /// with the handler index zero.
    pub fn new() -> (r: WordInfo)
        ensures
            r@ == (WordInfoView {
                name: Seq::empty(),
                runtime: WordRuntime::Normal,
                word_type: WordType::Native,
                visibility: WordVisibility::Visible,
                description: Seq::empty(),
                signature: Seq::empty(),
                handler_index: 0,
            }),
    {
        WordInfo {
            name: String::new(),
            runtime: WordRuntime::Normal,
            word_type: WordType::Native,
            visibility: WordVisibility::Visible,
            description: String::new(),
            signature: String::new(),
            handler_index: 0,
        }
    }
}

/// The map that a list of entries stands for: a later entry replaces an
/// earlier one of the same name.
pub open spec fn entries_map(entries: Seq<(String, WordInfo)>) -> Map<Seq<char>, WordInfoView>
    decreases entries.len(),
{
    if entries.len() == 0 {
        Map::empty()
    } else {
        entries_map(entries.drop_last()).insert(entries.last().0@, entries.last().1@)
    }
}

/// Replacing the last entry of a name has the effect of inserting under that
/// name.
pub proof fn lemma_replace_entry(
    entries: Seq<(String, WordInfo)>,
    i: int,
    name: String,
    info: WordInfo,
)
    requires
        0 <= i < entries.len(),
        entries[i].0@ == name@,
        forall|j: int| i < j < entries.len() ==> entries[j].0@ != name@,
    ensures
        entries_map(entries.update(i, (name, info))) == entries_map(entries).insert(
            name@,
            info@,
        ),
    decreases entries.len(),
{
    let updated = entries.update(i, (name, info));
    if i == entries.len() - 1 {
        assert(updated.drop_last() == entries.drop_last());
        assert(entries_map(updated) =~= entries_map(entries).insert(name@, info@));
    } else {
        lemma_replace_entry(entries.drop_last(), i, name, info);
        assert(updated.drop_last() == entries.drop_last().update(i, (name, info)));
        assert(updated.last() == entries.last());
        assert(entries_map(updated) =~= entries_map(entries).insert(name@, info@));
    }
}

/// Whether no entry after the one at `i` has the name of that entry.
pub open spec fn is_last_entry(entries: Seq<(String, WordInfo)>, i: int) -> bool {
    forall|j: int| i < j < entries.len() ==> (#[trigger] entries[j]).0@ != entries[i].0@
}

/// A name that the map of the entries holds is the name of an entry, and of
/// no entry after the last one of them.
pub proof fn lemma_key_has_last_entry(entries: Seq<(String, WordInfo)>, name: Seq<char>)
    requires
        entries_map(entries).contains_key(name),
    ensures
        exists|i: int|
            0 <= i < entries.len() && entries[i].0@ == name && is_last_entry(entries, i),
    decreases entries.len(),
{
    if entries.len() > 0 {
        if entries.last().0@ == name {
            assert(is_last_entry(entries, entries.len() - 1));
        } else {
            lemma_key_has_last_entry(entries.drop_last(), name);
            let i = choose|i: int|
                0 <= i < entries.drop_last().len() && entries.drop_last()[i].0@ == name
                    && is_last_entry(entries.drop_last(), i);
            assert(entries[i] == entries.drop_last()[i]);
            assert forall|j: int| i < j < entries.len() implies (#[trigger] entries[j]).0@
                != entries[i].0@ by {
                if j < entries.len() - 1 {
                    assert(entries.drop_last()[j] == entries[j]);
                }
            }
            assert(is_last_entry(entries, i));
        }
    }
}

/// The name of an entry is a name that the map of the entries holds.
pub proof fn lemma_entry_is_key(entries: Seq<(String, WordInfo)>, i: int)
    requires
        0 <= i < entries.len(),
    ensures
        entries_map(entries).contains_key(entries[i].0@),
    decreases entries.len(),
{
    if i < entries.len() - 1 {
        lemma_entry_is_key(entries.drop_last(), i);
    }
}

/// The words of one context, by name.
///
/// The words are kept as a list of entries that is searched from its end,
/// and the map that the list stands for is its view. Of a hash map keyed by
/// strings the verifier knows nothing, not even what a lookup finds after an
/// insertion; of this list every lookup is proved against the view.
pub struct SubDictionary {
    entries: Vec<(String, WordInfo)>,
}

impl View for SubDictionary {
    type V = Map<Seq<char>, WordInfoView>;

    closed spec fn view(&self) -> Map<Seq<char>, WordInfoView> {
        entries_map(self.entries@)
    }
}

impl SubDictionary {
    pub fn new() -> (r: SubDictionary)
        ensures
            r@ == Map::<Seq<char>, WordInfoView>::empty(),
    {
        SubDictionary { entries: Vec::new() }
    }

    /// The place of the last entry of the given name.
    fn position(&self, name: &String) -> (r: Option<usize>)
        ensures
            match r {
                Some(i) => {
                    &&& i < self.entries@.len()
                    &&& self.entries@[i as int].0@ == name@
                    &&& forall|j: int| i < j < self.entries@.len() ==> self.entries@[j].0@ != name@
                    &&& self@.contains_key(name@)
                    &&& self@[name@] == self.entries@[i as int].1@
                },
                None => !self@.contains_key(name@),
            },
    {
        let mut k: usize = self.entries.len();
        assert(self.entries@.take(k as int) == self.entries@);
        while k > 0
            invariant
                k <= self.entries@.len(),
                forall|j: int| k <= j < self.entries@.len() ==> self.entries@[j].0@ != name@,
                entries_map(self.entries@).contains_key(name@) == entries_map(
                    self.entries@.take(k as int),
                ).contains_key(name@),
                entries_map(self.entries@).contains_key(name@) ==> entries_map(self.entries@)[name@]
                    == entries_map(self.entries@.take(k as int))[name@],
            decreases k,
        {
            let ghost prefix = self.entries@.take(k as int);
            assert(prefix.drop_last() == self.entries@.take(k - 1));
            assert(prefix.last() == self.entries@[k - 1]);
            k -= 1;
            if self.entries[k].0 == *name {
                return Some(k);
            }
        }
        assert(self.entries@.take(0) =~= Seq::<(String, WordInfo)>::empty());
        None
    }

    /// What is known of the word of the given name, if it is in this context.
    pub fn get(&self, name: &String) -> (r: Option<&WordInfo>)
        ensures
            match r {
                Some(info) => self@.contains_key(name@) && self@[name@] == info@,
                None => !self@.contains_key(name@),
            },
    {
        match self.position(name) {
            Some(i) => Some(&self.entries[i].1),
            None => None,
        }
    }

    /// Puts a word under the given name, in the place of the one that was
    /// there, if there was one.
    pub fn insert(&mut self, name: String, info: WordInfo)
        ensures
            final(self)@ == old(self)@.insert(name@, info@),
    {
        match self.position(&name) {
            Some(i) => {
                proof {
                    lemma_replace_entry(self.entries@, i as int, name, info);
                }
                self.entries.set(i, (name, info));
            },
            None => {
                let ghost before = self.entries@;
                self.entries.push((name, info));
                assert(self.entries@.drop_last() == before);
            },
        }
    }

    /// What is known of the word of the given name, to be changed in place,
    /// if the word is in this context.
    pub fn get_mut(&mut self, name: &String) -> (r: Option<&mut WordInfo>)
        ensures
            match r {
                Some(info) => {
                    &&& old(self)@.contains_key(name@)
                    &&& old(self)@[name@] == (*info)@
                    &&& final(self)@ == old(self)@.insert(name@, (*final(info))@)
                },
                None => !old(self)@.contains_key(name@) && final(self)@ == old(self)@,
            },
    {
        match self.position(name) {
            Some(i) => {
                let ghost before = self.entries@;
                let entry = &mut self.entries[i];
                proof {
                    let key = before[i as int].0;
                    assert forall|info: WordInfo| #![auto]
                        entries_map(before.update(i as int, (key, info))) == entries_map(
                            before,
                        ).insert(name@, info@) by {
                        lemma_replace_entry(before, i as int, key, info);
                    }
                }
                Some(&mut entry.1)
            },
            None => None,
        }
    }

    /// The names of the words of the context: each of them once.
    pub fn names(&self) -> (r: Vec<String>)
        ensures
            forall|k: int| 0 <= k < r@.len() ==> self@.contains_key(#[trigger] r@[k]@),
            forall|name: Seq<char>|
                self@.contains_key(name) ==> exists|k: int|
                    0 <= k < r@.len() && (#[trigger] r@[k])@ == name,
            forall|a: int, b: int|
                0 <= a < b < r@.len() ==> (#[trigger] r@[a])@ != (#[trigger] r@[b])@,
    {
        let mut out: Vec<String> = Vec::new();
        let ghost mut picked: Seq<int> = Seq::empty();
        let mut k: usize = 0;
        while k < self.entries.len()
            invariant
                k <= self.entries@.len(),
                forall|i: int| 0 <= i < out@.len() ==> self@.contains_key(#[trigger] out@[i]@),
                picked.len() == out@.len(),
                forall|m: int|
                    0 <= m < picked.len() ==> 0 <= (#[trigger] picked[m]) < k && out@[m]@
                        == self.entries@[picked[m]].0@ && is_last_entry(self.entries@, picked[m]),
                forall|a: int, b: int|
                    0 <= a < b < picked.len() ==> (#[trigger] picked[a]) < (#[trigger] picked[b]),
                forall|i: int|
                    0 <= i < k && is_last_entry(self.entries@, i) ==> exists|m: int|
                        0 <= m < out@.len() && (#[trigger] out@[m])@ == self.entries@[i].0@,
            decreases self.entries@.len() - k,
        {
            let ghost before = out@;
            let found = self.position(&self.entries[k].0);
            match found {
                Some(last) => {
                    if last == k {
                        out.push(self.entries[k].0.clone());
                        proof {
                            picked = picked.push(k as int);
                            assert(out@[out@.len() - 1]@ == self.entries@[k as int].0@);
                        }
                    }
                },
                None => {},
            }
            proof {
                lemma_entry_is_key(self.entries@, k as int);
                if is_last_entry(self.entries@, k as int) {
                    let last = found->0 as int;
                    if last < k {
                        assert(self.entries@[k as int].0@ != self.entries@[k as int].0@);
                    }
                    if last > k {
                        assert(self.entries@[last].0@ != self.entries@[k as int].0@);
                    }
                    assert(found == Some(k));
                }
                assert forall|i: int|
                    0 <= i < k + 1 && is_last_entry(self.entries@, i) implies exists|m: int|
                    0 <= m < out@.len() && (#[trigger] out@[m])@ == self.entries@[i].0@ by {
                    if i < k {
                        let m = choose|m: int|
                            0 <= m < before.len() && (#[trigger] before[m])@
                                == self.entries@[i].0@;
                        assert(out@[m] == before[m]);
                    } else {
                        assert(out@[out@.len() - 1]@ == self.entries@[k as int].0@);
                    }
                }
            }
            k += 1;
        }
        proof {
            assert forall|name: Seq<char>| self@.contains_key(name) implies exists|k: int|
                0 <= k < out@.len() && (#[trigger] out@[k])@ == name by {
                lemma_key_has_last_entry(self.entries@, name);
                let i = choose|i: int|
                    0 <= i < self.entries@.len() && self.entries@[i].0@ == name
                        && is_last_entry(self.entries@, i);
                assert(is_last_entry(self.entries@, i));
            }
            assert forall|a: int, b: int| 0 <= a < b < out@.len() implies (#[trigger] out@[a])@
                != (#[trigger] out@[b])@ by {
                assert(picked[a] < picked[b]);
                assert(is_last_entry(self.entries@, picked[a]));
            }
        }
        out
    }

    /// The number of entries that the context holds.
    fn entry_count(&self) -> (r: usize)
        ensures
            r == self.entries@.len(),
    {
        self.entries.len()
    }
}

/// What the name stands for in a stack of contexts: the innermost context that
/// knows the name decides.
pub open spec fn lookup(stack: Seq<Map<Seq<char>, WordInfoView>>, name: Seq<char>) -> Option<
    WordInfoView,
>
    decreases stack.len(),
{
    if stack.len() == 0 {
        None
    } else if stack.last().contains_key(name) {
        Some(stack.last()[name])
    } else {
        lookup(stack.drop_last(), name)
    }
}

/// A name that a context knows and no context further in is found in that
/// context.
pub proof fn lemma_lookup_at(
    stack: Seq<Map<Seq<char>, WordInfoView>>,
    index: int,
    name: Seq<char>,
)
    requires
        0 <= index < stack.len(),
        stack[index].contains_key(name),
        forall|j: int| index < j < stack.len() ==> !(#[trigger] stack[j]).contains_key(name),
    ensures
        lookup(stack, name) == Some(stack[index][name]),
    decreases stack.len(),
{
    if index < stack.len() - 1 {
        assert(!stack[stack.len() - 1].contains_key(name));
        let shorter = stack.drop_last();
        assert forall|j: int| index < j < shorter.len() implies !(
        #[trigger] shorter[j]).contains_key(name) by {
            assert(shorter[j] == stack[j]);
        }
        lemma_lookup_at(shorter, index, name);
    }
}

/// All the contexts of a stack as one map, an inner context going before an
/// outer one.
pub open spec fn merged(stack: Seq<Map<Seq<char>, WordInfoView>>) -> Map<Seq<char>, WordInfoView>
    decreases stack.len(),
{
    if stack.len() == 0 {
        Map::empty()
    } else {
        merged(stack.drop_last()).union_prefer_right(stack.last())
    }
}

/// The views of the contexts of a stack.
pub open spec fn stack_view(stack: Seq<SubDictionary>) -> Seq<Map<Seq<char>, WordInfoView>> {
    Seq::new(stack.len(), |i: int| stack[i]@)
}

/// The words that are defined, by name, in nested contexts.
pub struct Dictionary {
    stack: Vec<SubDictionary>,
}

impl View for Dictionary {
    type V = Seq<Map<Seq<char>, WordInfoView>>;

    /// The contexts, the outermost first.
    closed spec fn view(&self) -> Seq<Map<Seq<char>, WordInfoView>> {
        stack_view(self.stack@)
    }
}

impl Dictionary {
    /// The invariant of the dictionary: there is a context.
    pub closed spec fn wf(&self) -> bool {
        self.stack@.len() > 0
    }

    /// The dictionary is well formed where its view holds a context.
    pub proof fn lemma_depth(&self)
        ensures
            self.wf() == (self@.len() > 0),
    {
    }

    /// A new dictionary with one context and no word.
    pub fn new() -> (r: Dictionary)
        ensures
            r.wf(),
            r@ == seq![Map::<Seq<char>, WordInfoView>::empty()],
    {
        let mut stack: Vec<SubDictionary> = Vec::new();
        stack.push(SubDictionary::new());
        assert(stack_view(stack@) =~= seq![Map::<Seq<char>, WordInfoView>::empty()]);
        Dictionary { stack }
    }

    /// The number of contexts.
    pub fn depth(&self) -> (r: usize)
        ensures
            r == self@.len(),
    {
        self.stack.len()
    }

    /// Puts a word under the given name in the innermost context.
    pub fn insert(&mut self, name: String, info: WordInfo)
        requires
            old(self).wf(),
        ensures
            final(self).wf(),
            final(self)@ == old(self)@.update(
                old(self)@.len() - 1,
                old(self)@.last().insert(name@, info@),
            ),
    {
        let last = self.stack.len() - 1;
        self.stack[last].insert(name, info);
        assert(stack_view(self.stack@) =~= stack_view(old(self).stack@).update(
            last as int,
            stack_view(old(self).stack@).last().insert(name@, info@),
        ));
    }

    /// All the words that can be found, as one context.
    pub fn get_merged(&self) -> (r: SubDictionary)
        ensures
            r@ == merged(self@),
    {
        let mut result = SubDictionary::new();
        let mut k: usize = 0;
        let ghost views = stack_view(self.stack@);
        assert(views.take(0) =~= Seq::<Map<Seq<char>, WordInfoView>>::empty());
        while k < self.stack.len()
            invariant
                k <= self.stack@.len(),
                views == stack_view(self.stack@),
                result@ == merged(views.take(k as int)),
            decreases self.stack@.len() - k,
        {
            let sub = &self.stack[k];
            let count = sub.entry_count();
            let mut e: usize = 0;
            let ghost base = result@;
            assert(sub.entries@.take(0) =~= Seq::<(String, WordInfo)>::empty());
            assert(base.union_prefer_right(Map::<Seq<char>, WordInfoView>::empty()) =~= base);
            while e < count
                invariant
                    e <= count,
                    count == sub.entries@.len(),
                    result@ == base.union_prefer_right(entries_map(sub.entries@.take(e as int))),
                decreases count - e,
            {
                let ghost prefix = sub.entries@.take(e + 1);
                assert(prefix.drop_last() == sub.entries@.take(e as int));
                assert(prefix.last() == sub.entries@[e as int]);
                let entry = &sub.entries[e];
                result.insert(entry.0.clone(), entry.1.clone());
                assert(result@ =~= base.union_prefer_right(entries_map(prefix)));
                e += 1;
            }
            assert(sub.entries@.take(count as int) == sub.entries@);
            proof {
                let next = views.take(k + 1);
                assert(next.drop_last() == views.take(k as int));
                assert(next.last() == sub@);
            }
            k += 1;
        }
        assert(views.take(self.stack@.len() as int) == views);
        result
    }

    /// What is known of the word of the given name, if it can be found.
    pub fn try_get(&self, name: &String) -> (r: Option<&WordInfo>)
        ensures
            match r {
                Some(info) => lookup(self@, name@) == Some(info@),
                None => lookup(self@, name@) is None,
            },
    {
        let mut k: usize = self.stack.len();
        let ghost views = stack_view(self.stack@);
        assert(views.take(k as int) == views);
        while k > 0
            invariant
                k <= self.stack@.len(),
                views == stack_view(self.stack@),
                lookup(views, name@) == lookup(views.take(k as int), name@),
            decreases k,
        {
            let ghost prefix = views.take(k as int);
            assert(prefix.drop_last() == views.take(k - 1));
            assert(prefix.last() == self.stack@[k - 1]@);
            k -= 1;
            match self.stack[k].get(name) {
                Some(found) => {
                    return Some(found);
                },
                None => {},
            }
        }
        assert(views.take(0) =~= Seq::<Map<Seq<char>, WordInfoView>>::empty());
        None
    }
}

impl Dictionary {
    /// What is known of the word of the given name, to be changed in place,
    /// if the word can be found. The innermost context that knows the name
    /// is the one that is changed.
    pub fn try_get_mut(&mut self, name: &String) -> (r: Option<&mut WordInfo>)
        requires
            old(self).wf(),
        ensures
            final(self).wf(),
            final(self)@.len() == old(self)@.len(),
            match r {
                Some(info) => lookup(old(self)@, name@) == Some((*info)@) && lookup(
                    final(self)@,
                    name@,
                ) == Some((*final(info))@),
                None => lookup(old(self)@, name@) is None && final(self)@ == old(self)@,
            },
            r is Some ==> exists|index: int|
                {
                    &&& 0 <= index < old(self)@.len()
                    &&& (#[trigger] old(self)@[index]).contains_key(name@)
                    &&& forall|j: int|
                        index < j < old(self)@.len() ==> !(#[trigger] old(self)@[j]).contains_key(
                            name@,
                        )
                    &&& final(self)@ == old(self)@.update(
                        index,
                        old(self)@[index].insert(name@, (*final(r->0))@),
                    )
                },
    {
        let mut k: usize = self.stack.len();
        let ghost views = stack_view(self.stack@);
        let mut found: Option<usize> = None;
        assert(views.take(k as int) == views);
        while k > 0 && found.is_none()
            invariant
                k <= self.stack@.len(),
                *self == *old(self),
                views == stack_view(self.stack@),
                found is None ==> lookup(views, name@) == lookup(views.take(k as int), name@),
                found is Some ==> found->0 < self.stack@.len() && views[found->0 as int].contains_key(
                    name@,
                ) && lookup(views, name@) == Some(views[found->0 as int][name@])
                    && forall|j: int|
                    found->0 < j < views.len() ==> !(#[trigger] views[j]).contains_key(name@),
                found is None ==> forall|j: int|
                    k <= j < views.len() ==> !(#[trigger] views[j]).contains_key(name@),
            decreases
                    k + if found is None {
                        1int
                    } else {
                        0int
                    },
        {
            let ghost prefix = views.take(k as int);
            assert(prefix.drop_last() == views.take(k - 1));
            assert(prefix.last() == self.stack@[k - 1]@);
            k -= 1;
            if self.stack[k].get(name).is_some() {
                found = Some(k);
            }
        }
        match found {
            Some(index) => {
                let ghost before = self.stack@;
                proof {
                    lemma_lookup_at(views, index as int, name@);
                    assert forall|changed: SubDictionary|
                        changed@.contains_key(name@) implies lookup(
                        #[trigger] stack_view(before.update(index as int, changed)),
                        name@,
                    ) == Some(changed@[name@]) by {
                        let after = stack_view(before.update(index as int, changed));
                        assert forall|j: int| index < j < after.len() implies !(
                        #[trigger] after[j]).contains_key(name@) by {
                            assert(after[j] == views[j]);
                        }
                        lemma_lookup_at(after, index as int, name@);
                    }
                    assert forall|changed: SubDictionary| #[trigger]
                        stack_view(before.update(index as int, changed)) == views.update(
                            index as int,
                            changed@,
                        ) by {
                        assert(stack_view(before.update(index as int, changed)) =~= views.update(
                            index as int,
                            changed@,
                        ));
                    }
                    assert(views[index as int].contains_key(name@));
                }
                let sub = &mut self.stack[index];
                sub.get_mut(name)
            },
            None => {
                assert(views.take(0) =~= Seq::<Map<Seq<char>, WordInfoView>>::empty());
                None
            },
        }
    }
}

impl ContextualData for Dictionary {
    open spec fn contextual_wf(&self) -> bool {
        self.wf()
    }

    open spec fn context_depth(&self) -> nat {
        self@.len()
    }

    /// Opens a new context that holds no word.
    fn mark_context(&mut self)
        ensures
            final(self)@ == old(self)@.push(Map::<Seq<char>, WordInfoView>::empty()),
    {
        self.stack.push(SubDictionary::new());
        assert(stack_view(self.stack@) =~= stack_view(old(self).stack@).push(
            Map::<Seq<char>, WordInfoView>::empty(),
        ));
    }

    /// Closes the innermost context and forgets its words.
    fn release_context(&mut self)
        ensures
            final(self)@ == old(self)@.drop_last(),
    {
        let _ = self.stack.pop();
        assert(stack_view(self.stack@) =~= stack_view(old(self).stack@).drop_last());
    }
}

} // verus!
