//! The records of the language: a definition with named fields, and the
//! objects made from it.

use std::rc::Rc;
use vstd::prelude::*;
use crate::runtime::data_structures::dictionary::WordVisibility;
use crate::runtime::data_structures::heap::lemma_structure_extends;
use crate::runtime::data_structures::heap::lemma_structure_floor;
use crate::runtime::data_structures::heap::structure;
use crate::runtime::data_structures::heap::Heap;
use crate::runtime::data_structures::heap::MAX_NESTING;
use crate::runtime::data_structures::value::Value;

verus! {

/// The definition of a kind of record: its name, the names of its fields in
/// order, and the value that each field of a new object starts with.
#[derive(Debug)]
pub struct DataObjectDefinition {
    name: String,
    field_names: Vec<String>,
    defaults: Vec<Value>,
    visibility: WordVisibility,
}

/// A definition that is shared by the objects made from it and by the words
/// that belong to it.
pub type DataObjectDefinitionPtr = Rc<DataObjectDefinition>;

/// Another pointer to what a reference-counted pointer points to.
///
/// Trusted: wraps `Rc::clone`, which the standard library documents as making
/// another pointer to the same allocation.
#[verifier::external_body]
pub(crate) fn share<T>(pointer: &Rc<T>) -> (r: Rc<T>)
    ensures
        *r == **pointer,
{
    Rc::clone(pointer)
}

impl DataObjectDefinition {
    /// The invariant of a definition: each field has a default.
    pub closed spec fn wf(&self) -> bool {
        self.field_names@.len() == self.defaults@.len()
    }

    pub closed spec fn spec_name(&self) -> Seq<char> {
        self.name@
    }

    pub closed spec fn spec_field_names(&self) -> Seq<String> {
        self.field_names@
    }

    pub closed spec fn spec_defaults(&self) -> Seq<Value> {
        self.defaults@
    }

    pub closed spec fn spec_visibility(&self) -> WordVisibility {
        self.visibility
    }

    /// A definition with the given name, fields and defaults.
    pub fn new(name: String, field_names: Vec<String>, defaults: Vec<Value>, is_hidden: bool) -> (r:
        DataObjectDefinitionPtr)
        requires
            field_names@.len() == defaults@.len(),
        ensures
            r.wf(),
            r.spec_name() == name@,
            r.spec_field_names() == field_names@,
            r.spec_defaults() == defaults@,
            r.spec_visibility() == if is_hidden {
                WordVisibility::Hidden
            } else {
                WordVisibility::Visible
            },
    {
        Rc::new(
            DataObjectDefinition {
                name,
                field_names,
                defaults,
                visibility: if is_hidden {
                    WordVisibility::Hidden
                } else {
                    WordVisibility::Visible
                },
            },
        )
    }

    pub fn name(&self) -> (r: &String)
        ensures
            r@ == self.spec_name(),
    {
        &self.name
    }

    pub fn field_names(&self) -> (r: &Vec<String>)
        ensures
            r@ == self.spec_field_names(),
    {
        &self.field_names
    }

    pub fn defaults(&self) -> (r: &Vec<Value>)
        ensures
            r@ == self.spec_defaults(),
    {
        &self.defaults
    }

    pub fn visibility(&self) -> (r: &WordVisibility)
        ensures
            *r == self.spec_visibility(),
    {
        &self.visibility
    }
}

/// A record: its definition, and the values of its fields in the order of the
/// definition.
#[derive(Debug)]
pub struct DataObject {
    pub definition_ptr: DataObjectDefinitionPtr,
    pub fields: Vec<Value>,
}

impl DataObject {
    /// A new object of the given definition. Each field starts with a deep
    /// clone of its default. There is none where the containers of a default
    /// are nested too deep.
    pub fn new(definition_ptr: &DataObjectDefinitionPtr, heap: &mut Heap) -> (r: Option<DataObject>)
        requires
            old(heap).wf(),
        ensures
            final(heap).wf(),
            final(heap)@.len() >= old(heap)@.len(),
            final(heap)@.take(old(heap)@.len() as int) == old(heap)@,
            r is Some ==> r->0.fields@.len() == definition_ptr.spec_defaults().len()
                && *r->0.definition_ptr == **definition_ptr,
            (forall|i: int|
                0 <= i < definition_ptr.spec_defaults().len() ==> structure(
                    old(heap)@,
                    #[trigger] definition_ptr.spec_defaults()[i],
                    MAX_NESTING as nat,
                ) is Some) ==> r is Some && forall|i: int|
                0 <= i < definition_ptr.spec_defaults().len() ==> structure(
                    final(heap)@,
                    #[trigger] r->0.fields@[i],
                    MAX_NESTING as nat,
                ) == structure(old(heap)@, definition_ptr.spec_defaults()[i], MAX_NESTING as nat),
    {
        let mut fields: Vec<Value> = Vec::new();
        let mut index: usize = 0;
        let ghost cloneable = forall|i: int|
            0 <= i < definition_ptr.spec_defaults().len() ==> structure(
                old(heap)@,
                #[trigger] definition_ptr.spec_defaults()[i],
                MAX_NESTING as nat,
            ) is Some;
        assert(heap@.take(heap@.len() as int) == heap@);
        while index < definition_ptr.defaults.len()
            invariant
                index <= definition_ptr.defaults@.len(),
                fields@.len() == index,
                heap.wf(),
                heap@.len() >= old(heap)@.len(),
                heap@.take(old(heap)@.len() as int) == old(heap)@,
                cloneable == (forall|i: int|
                    0 <= i < definition_ptr.spec_defaults().len() ==> structure(
                        old(heap)@,
                        #[trigger] definition_ptr.spec_defaults()[i],
                        MAX_NESTING as nat,
                    ) is Some),
                cloneable ==> forall|j: int|
                    0 <= j < index ==> structure(heap@, #[trigger] fields@[j], MAX_NESTING as nat)
                        == structure(
                        old(heap)@,
                        definition_ptr.spec_defaults()[j],
                        MAX_NESTING as nat,
                    ),
            decreases definition_ptr.defaults@.len() - index,
        {
            let ghost before = heap@;
            let ghost made = fields@;
            proof {
                if cloneable {
                    assert(structure(
                        old(heap)@,
                        definition_ptr.spec_defaults()[index as int],
                        MAX_NESTING as nat,
                    ) is Some);
                    lemma_structure_extends(
                        old(heap)@,
                        before,
                        definition_ptr.defaults@[index as int],
                        MAX_NESTING as nat,
                        0,
                    );
                }
            }
            match heap.deep_clone(&definition_ptr.defaults[index], MAX_NESTING) {
                Some(copy) => {
                    fields.push(copy);
                    proof {
                        if cloneable {
                            lemma_structure_floor(
                                heap@,
                                copy,
                                MAX_NESTING as nat,
                                before.len(),
                                0,
                            );
                            assert forall|j: int| 0 <= j < index + 1 implies structure(
                                heap@,
                                #[trigger] fields@[j],
                                MAX_NESTING as nat,
                            ) == structure(
                                old(heap)@,
                                definition_ptr.spec_defaults()[j],
                                MAX_NESTING as nat,
                            ) by {
                                if j < index {
                                    assert(fields@[j] == made[j]);
                                    assert(structure(
                                        old(heap)@,
                                        definition_ptr.spec_defaults()[j],
                                        MAX_NESTING as nat,
                                    ) is Some);
                                    lemma_structure_extends(
                                        before,
                                        heap@,
                                        made[j],
                                        MAX_NESTING as nat,
                                        0,
                                    );
                                }
                            }
                        }
                    }
                },
                None => {
                    assert(heap@.take(old(heap)@.len() as int) =~= before.take(
                        old(heap)@.len() as int,
                    ));
                    return None;
                },
            }
            assert(heap@.take(old(heap)@.len() as int) =~= before.take(old(heap)@.len() as int));
            index += 1;
        }
        Some(DataObject { definition_ptr: share(definition_ptr), fields })
    }
}

} // verus!
