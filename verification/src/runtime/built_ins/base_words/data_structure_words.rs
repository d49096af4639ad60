//! The words that define data structures and work on data objects.

use vstd::prelude::*;
use crate::runtime::data_structures::value::popped_int;
use crate::runtime::data_structures::value::is_number_view;
use vstd::string::StringExecFns;
use crate::lang::source_buffer::SourceLocation;
use crate::runtime::built_ins::base_words::math_logic_and_bit_words::values_equal;
use crate::runtime::data_structures::contextual_data::ContextualData;
use crate::runtime::data_structures::data_object::share;
use crate::runtime::data_structures::data_object::DataObjectDefinition;
use crate::runtime::data_structures::data_object::DataObjectDefinitionPtr;
use crate::runtime::data_structures::dictionary::lookup;
use crate::runtime::data_structures::dictionary::WordInfoView;
use crate::runtime::data_structures::dictionary::WordRuntime;
use crate::runtime::data_structures::dictionary::WordType;
use crate::runtime::data_structures::dictionary::WordVisibility;
use crate::runtime::data_structures::heap::clone_values;
use crate::runtime::data_structures::heap::is_array;
use crate::runtime::data_structures::heap::is_data_object;
use crate::runtime::data_structures::value::string_of_view;
use crate::runtime::data_structures::value::is_stringable_view;
use crate::runtime::data_structures::value::ValueView;
use crate::runtime::data_structures::value::bool_of_view;
use crate::runtime::data_structures::value_vec::values_view;
use crate::runtime::data_structures::heap::HeapCell;
use crate::runtime::data_structures::heap::MAX_NESTING;
use crate::runtime::data_structures::value::clone_value;
use crate::runtime::data_structures::value::Value;
use crate::runtime::error::script_error_str;
use crate::runtime::error::Result;
use crate::runtime::host::Host;
use crate::runtime::interpreter::sorth_interpreter::has_truth;
use crate::runtime::interpreter::sorth_interpreter::SorthInterpreter;
use crate::runtime::interpreter::Handler;
use crate::text::concat;
use crate::text::concat3;

verus! {

/// The number of words that belong to a definition with the given number of
/// fields: one that makes a new object, and five for each field.
pub open spec fn definition_words(fields: nat) -> nat {
    1 + 5 * fields
}

/// The handler of the word with the given number among the words of a
/// definition: the first makes a new object, and then each field has, in
/// this order, the word of its index, the words that write and read it in an
/// object on the stack, and the words that write and read it in an object
/// in a variable.
pub open spec fn definition_handler(definition: DataObjectDefinitionPtr, number: int) -> Handler {
    if number == 0 {
        Handler::StructNew(definition)
    } else {
        let field = ((number - 1) / 5) as usize;
        let kind = (number - 1) % 5;
        if kind == 0 {
            Handler::FieldIndex(field)
        } else if kind == 1 {
            Handler::FieldWrite(field)
        } else if kind == 2 {
            Handler::FieldRead(field)
        } else if kind == 3 {
            Handler::VarFieldWrite(field)
        } else {
            Handler::VarFieldRead(field)
        }
    }
}

/// The name of the word with the given number among the words of a
/// definition: the name of the structure and `.new`, and then for each field
/// the name of the structure, a dot and the name of the field, followed by
/// nothing, `!`, `@`, `!!` and `@@`.
pub open spec fn definition_word_name(definition: DataObjectDefinition, number: int) -> Seq<char> {
    if number == 0 {
        definition.spec_name() + ".new"@
    } else {
        let field = (number - 1) / 5;
        let kind = (number - 1) % 5;
        let prefix = definition.spec_name() + "."@ + definition.spec_field_names()[field]@;
        if kind == 0 {
            prefix
        } else if kind == 1 {
            prefix + "!"@
        } else if kind == 2 {
            prefix + "@"@
        } else if kind == 3 {
            prefix + "!!"@
        } else {
            prefix + "@@"@
        }
    }
}

/// The fields of the data object that a value is, on the given heap.
pub open spec fn fields_of(heap: Seq<HeapCell>, object: ValueView) -> Seq<Value> {
    heap[object->DataObject_0 as int]->Object_0.fields@
}

/// Whether a handler does the same as another: the same kind with the same
/// index, or with a definition that holds the same.
pub open spec fn same_handler(a: Handler, b: Handler) -> bool {
    match (a, b) {
        (Handler::StructNew(x), Handler::StructNew(y)) => *x == *y,
        (Handler::FieldIndex(x), Handler::FieldIndex(y)) => x == y,
        (Handler::FieldWrite(x), Handler::FieldWrite(y)) => x == y,
        (Handler::FieldRead(x), Handler::FieldRead(y)) => x == y,
        (Handler::VarFieldWrite(x), Handler::VarFieldWrite(y)) => x == y,
        (Handler::VarFieldRead(x), Handler::VarFieldRead(y)) => x == y,
        _ => false,
    }
}

/// Whether a word of a data definition is found under its name: with the
/// given index of its handler, as a word that runs when it is called, that is
/// built in, and that has the given visibility.
pub open spec fn listed_as(
    dictionary: Seq<Map<Seq<char>, WordInfoView>>,
    name: Seq<char>,
    index: int,
    visibility: WordVisibility,
) -> bool {
    &&& lookup(dictionary, name) is Some
    &&& lookup(dictionary, name)->0.handler_index == index
    &&& lookup(dictionary, name)->0.runtime == WordRuntime::Normal
    &&& lookup(dictionary, name)->0.word_type == WordType::Native
    &&& lookup(dictionary, name)->0.visibility == visibility
}

/// Whether no later word of a definition has the name of the word with the
/// given number, among the first `count` words.
pub open spec fn is_last_of_name(definition: DataObjectDefinition, number: int, count: int) -> bool {
    forall|later: int|
        number < later < count ==> #[trigger] definition_word_name(definition, later)
            != definition_word_name(definition, number)
}

/// Adds one word of a data definition.
fn add_definition_word(
    interpreter: &mut SorthInterpreter,
    location: &SourceLocation,
    name: String,
    handler: Handler,
    description: String,
    signature: &str,
    visibility: WordVisibility,
)
    requires
        old(interpreter).wf(),
        old(interpreter).handlers_view().len() < usize::MAX,
    ensures
        final(interpreter).stable(old(interpreter)),
        final(interpreter).stack_view() == old(interpreter).stack_view(),
        final(interpreter).variables_view() == old(interpreter).variables_view(),
        final(interpreter).heap_view() == old(interpreter).heap_view(),
        final(interpreter).budget_left() == old(interpreter).budget_left(),
        final(interpreter).handlers_view().len() == old(interpreter).handlers_view().len() + 1,
        final(interpreter).handlers_view().drop_last() == old(interpreter).handlers_view(),
        final(interpreter).handlers_view().last().spec_handler() == handler,
        final(interpreter).handlers_view().last().spec_name() == name@,
        listed_as(
            final(interpreter).dictionary_view(),
            name@,
            old(interpreter).handlers_view().len() as int,
            visibility,
        ),
        forall|other: Seq<char>|
            other != name@ ==> #[trigger] lookup(final(interpreter).dictionary_view(), other)
                == lookup(old(interpreter).dictionary_view(), other),
{
    interpreter.add_word(
        location.path().clone(),
        location.line(),
        location.column(),
        name,
        handler,
        description,
        String::from_str(signature),
        WordRuntime::Normal,
        visibility,
        WordType::Native,
    );
}

impl DataObjectDefinition {
    /// Defines the words of a data definition, in the innermost context:
    /// `name.new`, which pushes a new object, and for each field `name.field`,
    /// which pushes the index of the field, `name.field!` and `name.field@`,
    /// which write and read the field of an object on the stack, and
    /// `name.field!!` and `name.field@@`, which write and read the field of
    /// an object in a variable. Fails, and defines nothing, where there is no
    /// room for that many words.
    pub fn create_data_definition_words(
        interpreter: &mut SorthInterpreter,
        location: Option<SourceLocation>,
        definition_ptr: DataObjectDefinitionPtr,
        is_hidden: bool,
    ) -> (r: Result<()>)
        requires
            old(interpreter).wf(),
        ensures
            final(interpreter).stable(old(interpreter)),
            final(interpreter).stack_view() == old(interpreter).stack_view(),
            final(interpreter).variables_view() == old(interpreter).variables_view(),
            final(interpreter).heap_view() == old(interpreter).heap_view(),
            final(interpreter).budget_left() == old(interpreter).budget_left(),
            r is Err ==> final(interpreter).handlers_view() == old(interpreter).handlers_view(),
            r is Ok <==> old(interpreter).handlers_view().len() + definition_words(
                definition_ptr.spec_field_names().len(),
            ) <= usize::MAX,
            r is Ok ==> {
                let base = old(interpreter).handlers_view().len() as int;
                let after = final(interpreter).handlers_view();
                &&& after.len() == base + definition_words(definition_ptr.spec_field_names().len())
                &&& after.take(base) == old(interpreter).handlers_view()
                &&& forall|number: int|
                    0 <= number < definition_words(definition_ptr.spec_field_names().len())
                        ==> same_handler(
                        (#[trigger] after[base + number]).spec_handler(),
                        definition_handler(definition_ptr, number),
                    ) && after[base + number].spec_name() == definition_word_name(
                        *definition_ptr,
                        number,
                    )
                &&& forall|number: int|
                    0 <= number < definition_words(definition_ptr.spec_field_names().len())
                        && #[trigger] is_last_of_name(
                        *definition_ptr,
                        number,
                        definition_words(definition_ptr.spec_field_names().len()) as int,
                    ) ==> listed_as(
                        final(interpreter).dictionary_view(),
                        definition_word_name(*definition_ptr, number),
                        base + number,
                        if is_hidden {
                            WordVisibility::Hidden
                        } else {
                            WordVisibility::Visible
                        },
                    )
            },
            r is Err ==> final(interpreter).dictionary_view() == old(interpreter).dictionary_view(),
    {
        let fields = definition_ptr.field_names().len();
        let room = usize::MAX - interpreter.word_handlers.len();
        if fields > (usize::MAX - 1) / 5 || 1 + 5 * fields > room {
            return script_error_str(interpreter, "Too many words.");
        }
        let place = match location {
            Some(location) => location,
            None => SourceLocation::new_from_info(&String::from_str("<native>"), 1, 1),
        };
        let visibility = if is_hidden {
            WordVisibility::Hidden
        } else {
            WordVisibility::Visible
        };
        let struct_name = definition_ptr.name().clone();
        let ghost base = interpreter.handlers_view().len() as int;
        let ghost start = interpreter.handlers_view();
        add_definition_word(
            interpreter,
            &place,
            concat(struct_name.as_str(), ".new"),
            Handler::StructNew(share(&definition_ptr)),
            concat3("Create a new instance of the structure ", struct_name.as_str(), "."),
            " -- struct",
            visibility,
        );
        assert(interpreter.handlers_view().take(base) =~= start);
        let mut index: usize = 0;
        while index < fields
            invariant
                index <= fields,
                fields == definition_ptr.spec_field_names().len(),
                fields <= (usize::MAX - 1) / 5,
                base + 1 + 5 * fields <= usize::MAX,
                base == old(interpreter).handlers_view().len(),
                start == old(interpreter).handlers_view(),
                interpreter.stable(old(interpreter)),
                interpreter.stack_view() == old(interpreter).stack_view(),
                interpreter.variables_view() == old(interpreter).variables_view(),
                interpreter.heap_view() == old(interpreter).heap_view(),
                interpreter.budget_left() == old(interpreter).budget_left(),
                interpreter.handlers_view().len() == base + 1 + 5 * index,
                interpreter.handlers_view().take(base) == start,
                struct_name@ == definition_ptr.spec_name(),
                forall|number: int|
                    0 <= number < 1 + 5 * index && #[trigger] is_last_of_name(
                        *definition_ptr,
                        number,
                        1 + 5 * index,
                    ) ==> listed_as(
                        interpreter.dictionary_view(),
                        definition_word_name(*definition_ptr, number),
                        base + number,
                        visibility,
                    ),
                forall|number: int|
                    0 <= number < 1 + 5 * index ==> same_handler(
                        (#[trigger] interpreter.handlers_view()[base + number]).spec_handler(),
                        definition_handler(definition_ptr, number),
                    ) && interpreter.handlers_view()[base + number].spec_name()
                        == definition_word_name(*definition_ptr, number),
            decreases fields - index,
        {
            let ghost before = interpreter.handlers_view();
            let ghost words0 = interpreter.dictionary_view();
            let field_name = definition_ptr.field_names()[index].clone();
            let prefix = concat3(struct_name.as_str(), ".", field_name.as_str());
            add_definition_word(
                interpreter,
                &place,
                prefix.clone(),
                Handler::FieldIndex(index),
                String::new(),
                " -- field-index",
                visibility,
            );
            let ghost first = interpreter.handlers_view();
            let ghost words1 = interpreter.dictionary_view();
            add_definition_word(
                interpreter,
                &place,
                concat(prefix.as_str(), "!"),
                Handler::FieldWrite(index),
                concat3("Write to the structure field ", field_name.as_str(), "."),
                "value struct -- ",
                visibility,
            );
            let ghost second = interpreter.handlers_view();
            let ghost words2 = interpreter.dictionary_view();
            add_definition_word(
                interpreter,
                &place,
                concat(prefix.as_str(), "@"),
                Handler::FieldRead(index),
                concat3("Read from the structure field ", field_name.as_str(), "."),
                "struct -- value",
                visibility,
            );
            let ghost third = interpreter.handlers_view();
            let ghost words3 = interpreter.dictionary_view();
            add_definition_word(
                interpreter,
                &place,
                concat(prefix.as_str(), "!!"),
                Handler::VarFieldWrite(index),
                concat3("Write to the structure variable field ", field_name.as_str(), "."),
                "value struct-var -- ",
                visibility,
            );
            let ghost fourth = interpreter.handlers_view();
            let ghost words4 = interpreter.dictionary_view();
            add_definition_word(
                interpreter,
                &place,
                concat(prefix.as_str(), "@@"),
                Handler::VarFieldRead(index),
                concat3("Read from the structure variable field ", field_name.as_str(), "."),
                "struct-var -- value",
                visibility,
            );
            proof {
                let after = interpreter.handlers_view();
                let count = base + 1 + 5 * index;
                assert(fourth == after.drop_last());
                assert(third == fourth.drop_last());
                assert(second == third.drop_last());
                assert(first == second.drop_last());
                assert(before == first.drop_last());
                assert(after.take(base) =~= start) by {
                    assert(before.take(base) == start);
                }
                assert forall|number: int| 0 <= number < 1 + 5 * (index + 1) implies same_handler(
                    (#[trigger] after[base + number]).spec_handler(),
                    definition_handler(definition_ptr, number),
                ) && after[base + number].spec_name() == definition_word_name(
                    *definition_ptr,
                    number,
                ) by {
                    if number < 1 + 5 * index {
                        assert(after[base + number] == before[base + number]);
                    } else {
                        let kind = number - 1 - 5 * index;
                        assert((number - 1) / 5 == index && (number - 1) % 5 == kind) by {
                            vstd::arithmetic::div_mod::lemma_fundamental_div_mod_converse(
                                number - 1,
                                5,
                                index as int,
                                kind,
                            );
                        }
                        assert(after[count] == first.last());
                        assert(after[count + 1] == second.last());
                        assert(after[count + 2] == third.last());
                        assert(after[count + 3] == fourth.last());
                        assert(after[count + 4] == after.last());
                    }
                }
                let words5 = interpreter.dictionary_view();
                let done = 1 + 5 * index;
                assert forall|number: int|
                    0 <= number < 1 + 5 * (index + 1) && #[trigger] is_last_of_name(
                        *definition_ptr,
                        number,
                        1 + 5 * (index + 1),
                    ) implies listed_as(
                    words5,
                    definition_word_name(*definition_ptr, number),
                    base + number,
                    visibility,
                ) by {
                    let name = definition_word_name(*definition_ptr, number);
                    assert(number < done ==> name != definition_word_name(*definition_ptr, done));
                    assert(number < done + 1 ==> name != definition_word_name(
                        *definition_ptr,
                        done + 1,
                    ));
                    assert(number < done + 2 ==> name != definition_word_name(
                        *definition_ptr,
                        done + 2,
                    ));
                    assert(number < done + 3 ==> name != definition_word_name(
                        *definition_ptr,
                        done + 3,
                    ));
                    assert(number < done + 4 ==> name != definition_word_name(
                        *definition_ptr,
                        done + 4,
                    ));
                    if number < done {
                        assert(is_last_of_name(*definition_ptr, number, done));
                        assert(listed_as(words0, name, base + number, visibility));
                        assert(lookup(words1, name) == lookup(words0, name));
                        assert(lookup(words2, name) == lookup(words1, name));
                        assert(lookup(words3, name) == lookup(words2, name));
                        assert(lookup(words4, name) == lookup(words3, name));
                        assert(lookup(words5, name) == lookup(words4, name));
                    } else if number == done {
                        assert(name == after[base + number].spec_name());
                        assert(listed_as(words1, name, base + number, visibility));
                        assert(lookup(words2, name) == lookup(words1, name));
                        assert(lookup(words3, name) == lookup(words2, name));
                        assert(lookup(words4, name) == lookup(words3, name));
                        assert(lookup(words5, name) == lookup(words4, name));
                    } else if number == done + 1 {
                        assert(name == after[base + number].spec_name());
                        assert(listed_as(words2, name, base + number, visibility));
                        assert(lookup(words3, name) == lookup(words2, name));
                        assert(lookup(words4, name) == lookup(words3, name));
                        assert(lookup(words5, name) == lookup(words4, name));
                    } else if number == done + 2 {
                        assert(name == after[base + number].spec_name());
                        assert(listed_as(words3, name, base + number, visibility));
                        assert(lookup(words4, name) == lookup(words3, name));
                        assert(lookup(words5, name) == lookup(words4, name));
                    } else if number == done + 3 {
                        assert(name == after[base + number].spec_name());
                        assert(listed_as(words4, name, base + number, visibility));
                        assert(lookup(words5, name) == lookup(words4, name));
                    } else {
                        assert(name == after[base + number].spec_name());
                        assert(listed_as(words5, name, base + number, visibility));
                    }
                }
            }
            index += 1;
        }
        if interpreter.data_definitions.len() < usize::MAX {
            let _ = interpreter.data_definitions.insert(definition_ptr);
        }
        Ok(())
    }
}

/// Whether the stack of the interpreter describes a data structure that can
/// be defined: from the top down it holds whether defaults are given and
/// whether the structure is hidden, the array of the names of the fields,
/// which can all stand where a string is needed, the name of the structure
/// and, where defaults are given, an array of as many defaults as there are
/// fields; and there is room for the words of the structure.
pub open spec fn can_define(interpreter: &SorthInterpreter) -> bool {
    let stack = interpreter.stack_view();
    let heap = interpreter.heap_view();
    let n = stack.len() as int;
    &&& n >= 4
    &&& has_truth(stack[n - 1]@)
    &&& has_truth(stack[n - 2]@)
    &&& is_array(heap, stack[n - 3]@)
    &&& is_stringable_view(stack[n - 4]@)
    &&& bool_of_view(stack[n - 1]@) ==> n >= 5 && is_array(heap, stack[n - 5]@) && heap[stack[n
        - 5]@->Vec_0 as int]->Vec_0@.len() == heap[stack[n - 3]@->Vec_0 as int]->Vec_0@.len()
    &&& forall|i: int|
        0 <= i < heap[stack[n - 3]@->Vec_0 as int]->Vec_0@.len() ==> is_stringable_view(
            (#[trigger] heap[stack[n - 3]@->Vec_0 as int]->Vec_0@[i])@,
        )
    &&& interpreter.handlers_view().len() + definition_words(
        heap[stack[n - 3]@->Vec_0 as int]->Vec_0@.len(),
    ) <= usize::MAX
}

/// `#`: defines a data structure. Takes off the stack whether defaults are
/// given, whether the structure is hidden, the array of the names of the
/// fields, the name of the structure and, where defaults are given, the array
/// of the defaults, and defines the words of the structure.
#[verifier::loop_isolation(false)]
pub fn word_data_definition<H: Host>(interpreter: &mut SorthInterpreter, host: &H) -> (r: Result<
    (),
>)
    requires
        old(interpreter).wf(),
    ensures
        final(interpreter).stable(old(interpreter)),
        final(interpreter).heap_view() == old(interpreter).heap_view(),
        final(interpreter).variables_view() == old(interpreter).variables_view(),
        old(interpreter).stack_view().len() < 4 ==> r is Err,
        r is Ok <==> can_define(old(interpreter)),
        r is Ok ==> {
            let stack = old(interpreter).stack_view();
            let taken = if bool_of_view(stack.last()@) {
                5int
            } else {
                4int
            };
            &&& stack.len() >= taken
            &&& final(interpreter).stack_view() == stack.take(stack.len() - taken)
            &&& is_array(old(interpreter).heap_view(), stack[stack.len() - 3]@)
            &&& final(interpreter).handlers_view().len() == old(interpreter).handlers_view().len()
                + definition_words(
                old(interpreter).heap_view()[stack[stack.len() - 3]@->Vec_0 as int]->Vec_0@.len(),
            )
            &&& final(interpreter).handlers_view().take(
                old(interpreter).handlers_view().len() as int,
            ) == old(interpreter).handlers_view()
        },
{
    let location = match interpreter.current_location() {
        Some(l) => Some(l.clone()),
        None => None,
    };
    let found_initializers = match interpreter.pop_as_bool() {
        Ok(flag) => flag,
        Err(e) => {
            return Err(e);
        },
    };
    let is_hidden = match interpreter.pop_as_bool() {
        Ok(flag) => flag,
        Err(e) => {
            return Err(e);
        },
    };
    let fields = match interpreter.pop_as_array() {
        Ok(handle) => handle,
        Err(e) => {
            return Err(e);
        },
    };
    let name = match interpreter.pop_as_string(host) {
        Ok(name) => name,
        Err(e) => {
            return Err(e);
        },
    };
    let field_values = match interpreter.heap().vec(fields) {
        Some(array) => array.to_vec(),
        None => Vec::new(),
    };
    proof {
        let array = interpreter.heap_view()[fields as int]->Vec_0;
        assert(values_view(field_values@).len() == field_values@.len());
        assert(values_view(array@).len() == array@.len());
        assert forall|j: int| 0 <= j < field_values@.len() implies field_values@[j]@
            == array@[j]@ by {
            assert(values_view(field_values@)[j] == field_values@[j]@);
            assert(values_view(array@)[j] == array@[j]@);
        }
    }
    let defaults: Vec<Value> = if found_initializers {
        let handle = match interpreter.pop_as_array() {
            Ok(handle) => handle,
            Err(e) => {
                return Err(e);
            },
        };
        match interpreter.heap().vec(handle) {
            Some(array) => {
                let copies = array.to_vec();
                proof {
                    assert(values_view(copies@).len() == copies@.len());
                    assert(values_view(array@).len() == array@.len());
                }
                copies
            },
            None => Vec::new(),
        }
    } else {
        let mut nils: Vec<Value> = Vec::new();
        let mut k: usize = 0;
        while k < field_values.len()
            invariant
                k <= field_values@.len(),
                nils@.len() == k,
            decreases field_values@.len() - k,
        {
            nils.push(Value::Nil);
            k += 1;
        }
        nils
    };
    if defaults.len() != field_values.len() {
        return script_error_str(interpreter, "Each field of a structure needs one default.");
    }
    let mut field_names: Vec<String> = Vec::new();
    let mut i: usize = 0;
    while i < field_values.len()
        invariant
            i <= field_values@.len(),
            field_names@.len() == i,
            forall|j: int| 0 <= j < i ==> is_stringable_view((#[trigger] field_values@[j])@),
        decreases field_values@.len() - i,
    {
        if !field_values[i].is_stringable() {
            return script_error_str(interpreter, "Field names must be strings.");
        }
        field_names.push(field_values[i].get_string_val(host));
        i += 1;
    }
    let definition_ptr = DataObjectDefinition::new(name, field_names, defaults, is_hidden);
    DataObjectDefinition::create_data_definition_words(
        interpreter,
        location,
        definition_ptr,
        is_hidden,
    )
}

/// `#@`: takes a data object and the index of a field off the stack and
/// pushes a copy of the value of the field.
pub fn word_read_field<H: Host>(interpreter: &mut SorthInterpreter, host: &H) -> (r: Result<()>)
    requires
        old(interpreter).wf(),
    ensures
        final(interpreter).stable(old(interpreter)),
        final(interpreter).same_but_stack(old(interpreter)),
        r is Ok ==> final(interpreter).stack_view().len() + 1 == old(interpreter).stack_view().len(),
        ({
            let stack = old(interpreter).stack_view();
            stack.len() >= 2 && is_data_object(old(interpreter).heap_view(), stack.last()@)
                ==> match popped_int(stack[stack.len() - 2]@) {
                Some(index) => {
                    let fields = fields_of(old(interpreter).heap_view(), stack.last()@);
                    if 0 <= index < fields.len() {
                        &&& r is Ok
                        &&& final(interpreter).stack_view().drop_last() == stack.take(
                            stack.len() - 2,
                        )
                        &&& final(interpreter).stack_view().last()@ == fields[index as int]@
                    } else {
                        r is Err
                    }
                },
                None => true,
            }
        }),
{
    let ghost stack = interpreter.stack_view();
    let handle = match interpreter.pop_as_data_object() {
        Ok(handle) => handle,
        Err(e) => {
            return Err(e);
        },
    };
    proof {
        let object = interpreter.heap_view()[handle as int]->Object_0;
        assert(object.fields.len() == object.fields@.len());
        if stack.len() >= 2 {
            assert(stack.drop_last().last() == stack[stack.len() - 2]);
            assert(stack.drop_last().drop_last() =~= stack.take(stack.len() - 2));
        }
        if stack.len() >= 3 {
            assert(stack.take(stack.len() - 2).last() == stack[stack.len() - 3]);
            assert(stack.take(stack.len() - 2).drop_last() =~= stack.take(stack.len() - 3));
        }
    }
    let index = match interpreter.pop_as_usize(host) {
        Ok(index) => index,
        Err(e) => {
            return Err(e);
        },
    };
    interpreter.read_field(handle, index)
}

/// `#!`: takes a data object, the index of a field and a value off the stack
/// and puts the value into the field.
pub fn word_write_field<H: Host>(interpreter: &mut SorthInterpreter, host: &H) -> (r: Result<()>)
    requires
        old(interpreter).wf(),
    ensures
        final(interpreter).stable(old(interpreter)),
        r is Err ==> final(interpreter).heap_view() == old(interpreter).heap_view(),
        r is Ok ==> final(interpreter).stack_view().len() + 3 == old(interpreter).stack_view().len(),
        ({
            let stack = old(interpreter).stack_view();
            stack.len() >= 3 && is_data_object(old(interpreter).heap_view(), stack.last()@)
                ==> match popped_int(stack[stack.len() - 2]@) {
                Some(index) => {
                    let fields = fields_of(old(interpreter).heap_view(), stack.last()@);
                    if 0 <= index < fields.len() {
                        &&& r is Ok
                        &&& final(interpreter).stack_view() == stack.take(stack.len() - 3)
                        &&& final(interpreter).heap_view().len() == old(interpreter).heap_view().len()
                        &&& fields_of(final(interpreter).heap_view(), stack.last()@)
                            == fields.update(index as int, stack[stack.len() - 3])
                    } else {
                        r is Err
                    }
                },
                None => true,
            }
        }),
{
    let ghost stack = interpreter.stack_view();
    let handle = match interpreter.pop_as_data_object() {
        Ok(handle) => handle,
        Err(e) => {
            return Err(e);
        },
    };
    proof {
        let object = interpreter.heap_view()[handle as int]->Object_0;
        assert(object.fields.len() == object.fields@.len());
        if stack.len() >= 2 {
            assert(stack.drop_last().last() == stack[stack.len() - 2]);
            assert(stack.drop_last().drop_last() =~= stack.take(stack.len() - 2));
        }
        if stack.len() >= 3 {
            assert(stack.take(stack.len() - 2).last() == stack[stack.len() - 3]);
            assert(stack.take(stack.len() - 2).drop_last() =~= stack.take(stack.len() - 3));
        }
    }
    let index = match interpreter.pop_as_usize(host) {
        Ok(index) => index,
        Err(e) => {
            return Err(e);
        },
    };
    let value = match interpreter.pop() {
        Ok(value) => value,
        Err(e) => {
            return Err(e);
        },
    };
    interpreter.write_field(handle, index, value)
}

/// `#.iterate`: takes a data object and the index of a word off the stack,
/// and for each field of the object pushes the name of the field and a copy
/// of its value and executes the word. Ends with the first failure of the
/// word.
#[verifier::loop_isolation(false)]
pub fn word_structure_iterate<H: Host>(interpreter: &mut SorthInterpreter, host: &mut H) -> (r:
    Result<()>)
    requires
        old(interpreter).wf(),
    ensures
        final(interpreter).stable(old(interpreter)),
        old(interpreter).stack_view().len() < 2 ==> r is Err,
        old(interpreter).stack_view().len() >= 2 ==> {
            let before = old(interpreter).stack_view();
            let n = before.len() as int;
            if !is_data_object(old(interpreter).heap_view(), before[n - 1]@) {
                r is Err
            } else {
                let object = old(interpreter).heap_view()[before[n
                    - 1]@->DataObject_0 as int]->Object_0;
                match popped_int(before[n - 2]@) {
                    Some(index) => if index < 0 || index > usize::MAX {
                        r is Err
                    } else if object.fields@.len() == 0
                        || object.definition_ptr.spec_field_names().len() == 0 {
                        r is Ok && final(interpreter).stack_view() == before.take(n - 2) && final(interpreter).heap_view() == old(interpreter).heap_view()
                    } else {
                        index >= old(interpreter).handlers_view().len() || old(interpreter).calls_left() == 0 ==> r is Err
                    },
                    None => !is_number_view(before[n - 2]@) ==> r is Err,
                }
            }
        },
    decreases old(interpreter).calls_left(), 18int,
{
    let ghost stack = interpreter.stack_view();
    let handle = match interpreter.pop_as_data_object() {
        Ok(handle) => handle,
        Err(e) => {
            return Err(e);
        },
    };
    proof {
        if stack.len() >= 2 {
            assert(stack.drop_last().last() == stack[stack.len() - 2]);
            assert(stack.drop_last().drop_last() =~= stack.take(stack.len() - 2));
        }
    }
    let word_index = match interpreter.pop_as_usize(host) {
        Ok(index) => index,
        Err(e) => {
            return Err(e);
        },
    };
    let (definition, values) = match interpreter.heap().object(handle) {
        Some(object) => (share(&object.definition_ptr), clone_values(&object.fields)),
        None => {
            return script_error_str(interpreter, "Expected a data object.");
        },
    };
    let mut index: usize = 0;
    let ghost mut called = false;
    while index < values.len() && index < definition.field_names().len()
        invariant
            interpreter.stable(old(interpreter)),
            !called ==> index == 0 && interpreter.stack_view() == stack.take(stack.len() - 2)
                && interpreter.heap_view() == old(interpreter).heap_view()
                && interpreter.handlers_view() == old(interpreter).handlers_view(),
            called ==> values@.len() > 0 && definition.spec_field_names().len() > 0 && word_index
                < old(interpreter).handlers_view().len() && old(interpreter).calls_left() > 0,
        decreases values@.len() - index,
    {
        interpreter.push(Value::String(definition.field_names()[index].clone()));
        interpreter.push(clone_value(&values[index]));
        match interpreter.execute_word_index(host, &None, word_index) {
            Ok(()) => {
                proof {
                    called = true;
                }
            },
            Err(e) => {
                return Err(e);
            },
        }
        index += 1;
    }
    Ok(())
}

/// `#.field-exists?`: takes a data object and a name off the stack and
/// pushes whether the object has a field of that name.
pub fn word_structure_field_exists<H: Host>(interpreter: &mut SorthInterpreter, host: &H) -> (r:
    Result<()>)
    requires
        old(interpreter).wf(),
    ensures
        final(interpreter).stable(old(interpreter)),
        final(interpreter).same_but_stack(old(interpreter)),
        r is Ok ==> final(interpreter).stack_view().len() + 1 == old(interpreter).stack_view().len()
            && final(interpreter).stack_view().last()@ is Bool,
        r is Ok <==> old(interpreter).stack_view().len() >= 2 && is_data_object(
            old(interpreter).heap_view(),
            old(interpreter).stack_view().last()@,
        ) && is_stringable_view(
            old(interpreter).stack_view()[old(interpreter).stack_view().len() - 2]@,
        ),
        r is Ok ==> {
            let before = old(interpreter).stack_view();
            let n = before.len() as int;
            let names = old(interpreter).heap_view()[before[n
                - 1]@->DataObject_0 as int]->Object_0.definition_ptr.spec_field_names();
            &&& final(interpreter).stack_view().drop_last() == before.take(n - 2)
            &&& match string_of_view(before[n - 2]@) {
                Some(name) => final(interpreter).stack_view().last()@ == ValueView::Bool(
                    exists|k: int| 0 <= k < names.len() && (#[trigger] names[k])@ == name,
                ),
                None => true,
            }
        },
{
    let ghost stack = interpreter.stack_view();
    let handle = match interpreter.pop_as_data_object() {
        Ok(handle) => handle,
        Err(e) => {
            return Err(e);
        },
    };
    proof {
        if stack.len() >= 2 {
            assert(stack.drop_last().last() == stack[stack.len() - 2]);
            assert(stack.drop_last().drop_last() =~= stack.take(stack.len() - 2));
        }
    }
    let field_name = match interpreter.pop_as_string(host) {
        Ok(name) => name,
        Err(e) => {
            return Err(e);
        },
    };
    let mut found = false;
    let ghost all_names = interpreter.heap_view()[handle as int]->Object_0.definition_ptr.spec_field_names();
    let ghost mut place: int = 0;
    match interpreter.heap().object(handle) {
        Some(object) => {
            let names = object.definition_ptr.field_names();
            let mut index: usize = 0;
            while index < names.len() && !found
                invariant
                    index <= names@.len(),
                    names@ == all_names,
                    forall|k: int| 0 <= k < index ==> (#[trigger] names@[k])@ != field_name@,
                    found ==> index < names@.len() && names@[index as int]@ == field_name@
                        && place == index,
                    !found ==> place == index,
                decreases names@.len() - index + if found {
                    0int
                } else {
                    1int
                },
            {
                if names[index] == field_name {
                    found = true;
                } else {
                    index += 1;
                }
                proof {
                    place = index as int;
                }
            }
        },
        None => {},
    }
    proof {
        let names = old(interpreter).heap_view()[handle as int]->Object_0.definition_ptr.spec_field_names();
        if found {
            assert(names[place]@ == field_name@);
        } else {
            assert(forall|k: int| 0 <= k < names.len() ==> (#[trigger] names[k])@ != field_name@);
        }
    }
    interpreter.push(Value::Bool(found));
    assert(interpreter.stack_view().drop_last() =~= stack.take(stack.len() - 2));
    Ok(())
}

/// `#.=`: takes two data objects off the stack and pushes whether they are
/// objects of definitions of the same name with equal values in their fields.
pub fn word_structure_compare<H: Host>(interpreter: &mut SorthInterpreter, host: &H) -> (r: Result<
    (),
>)
    requires
        old(interpreter).wf(),
    ensures
        final(interpreter).stable(old(interpreter)),
        final(interpreter).same_but_stack(old(interpreter)),
        r is Ok ==> final(interpreter).stack_view().len() + 1 == old(interpreter).stack_view().len()
            && final(interpreter).stack_view().last()@ is Bool,
        r is Ok <==> old(interpreter).stack_view().len() >= 2 && is_data_object(
            old(interpreter).heap_view(),
            old(interpreter).stack_view().last()@,
        ) && is_data_object(
            old(interpreter).heap_view(),
            old(interpreter).stack_view()[old(interpreter).stack_view().len() - 2]@,
        ),
        r is Ok ==> final(interpreter).stack_view().drop_last() == old(interpreter).stack_view().take(
            old(interpreter).stack_view().len() - 2,
        ),
        r is Ok && old(interpreter).stack_view().last()@ == old(interpreter).stack_view()[old(interpreter).stack_view().len() - 2]@ ==> final(interpreter).stack_view().last()@ == ValueView::Bool(
            true,
        ),
{
    let ghost stack = interpreter.stack_view();
    let b = match interpreter.pop_as_data_object() {
        Ok(handle) => handle,
        Err(e) => {
            return Err(e);
        },
    };
    proof {
        if stack.len() >= 2 {
            assert(stack.drop_last().last() == stack[stack.len() - 2]);
        }
    }
    let a = match interpreter.pop_as_data_object() {
        Ok(handle) => handle,
        Err(e) => {
            return Err(e);
        },
    };
    let result = values_equal(
        host,
        interpreter.heap(),
        &Value::DataObject(a),
        &Value::DataObject(b),
        MAX_NESTING,
    );
    interpreter.push(Value::Bool(result));
    assert(interpreter.stack_view().drop_last() =~= stack.take(stack.len() - 2));
    Ok(())
}

} // verus!
