//! The interpreter of the language: the value stack, the variables, the
//! dictionary with its handlers, and the execution of bytecode.

use vstd::prelude::*;
use vstd::string::StringExecFns;
use crate::lang::code::ByteCode;
use crate::lang::code::Instruction;
use crate::lang::code::Op;
use crate::lang::tokenizing::NumberType;
use crate::lang::tokenizing::Token;
use crate::lang::tokenizing::TokenList;
use crate::runtime::data_structures::heap::is_plain;
use crate::runtime::data_structures::heap::MAX_NESTING;
use crate::text::concat3;
use crate::text::int_to_string;
use crate::lang::compilation::CodeConstructor;
use crate::lang::compilation::CodeConstructorList;
use crate::lang::source_buffer::SourceLocation;
use crate::runtime::built_ins::ffi_words::FfiInterface;
use crate::runtime::paths::join_path;
use crate::runtime::paths::joined;
use crate::runtime::paths::parent;
use crate::runtime::paths::parent_directory;
use crate::runtime::data_structures::contextual_data::ContextualData;
use crate::runtime::data_structures::contextual_list::ContextualList;
use crate::runtime::data_structures::data_object::DataObjectDefinitionPtr;
use crate::runtime::data_structures::dictionary::lookup;
use crate::runtime::data_structures::dictionary::Dictionary;
use crate::runtime::data_structures::dictionary::WordInfo;
use crate::runtime::data_structures::dictionary::WordInfoView;
use crate::runtime::data_structures::dictionary::WordRuntime;
use crate::runtime::data_structures::dictionary::WordType;
use crate::runtime::data_structures::dictionary::WordVisibility;
use crate::runtime::data_structures::heap::extends;
use crate::runtime::data_structures::heap::is_array;
use crate::runtime::data_structures::heap::structure;
use crate::runtime::data_structures::heap::structure_above;
use crate::runtime::data_structures::heap::is_byte_buffer;
use crate::runtime::data_structures::heap::is_data_object;
use crate::runtime::data_structures::heap::is_hash_map;
use crate::runtime::data_structures::heap::Heap;
use crate::runtime::data_structures::heap::HeapCell;
use crate::runtime::data_structures::value::bool_of_view;
use crate::runtime::data_structures::value::clone_value;
use crate::runtime::data_structures::value::int_of_view;
use crate::runtime::data_structures::value::take_bool;
use crate::runtime::data_structures::value::take_float;
use crate::runtime::data_structures::value::take_int;
use crate::runtime::data_structures::value::take_string;
use crate::runtime::data_structures::value::is_number_view;
use crate::runtime::data_structures::value::popped_float;
use crate::runtime::data_structures::value::popped_int;
use crate::runtime::data_structures::value::is_numeric_view;
use crate::runtime::data_structures::value::is_stringable_view;
use crate::runtime::data_structures::value::string_of_view;
use crate::runtime::data_structures::value::Value;
use crate::runtime::data_structures::value::ValueView;
use crate::runtime::error::location_option_view;
use crate::runtime::error::ErrorView;
use crate::runtime::error::Result;
use crate::runtime::error::ScriptError;
use crate::runtime::host::Host;
use crate::runtime::interpreter::call_stack_view;
use crate::runtime::interpreter::clone_call_stack;
use crate::lang::compilation::process_source_from_tokens;
use crate::lang::compilation::processed;
use crate::lang::tokenizing::tokenize_file_text;
use crate::lang::tokenizing::tokenized;
use crate::lang::tokenizing::tokenize_from_source;
use crate::lang::tokenizing::lexemes;
use crate::lang::tokenizing::start_of;
use crate::runtime::built_ins::base_words::run_native;
use crate::runtime::built_ins::ffi_words::handle_word;
use crate::runtime::data_structures::data_object::DataObject;
use crate::runtime::data_structures::value::count_value;
use crate::lang::tokenizing::TokenView;
use crate::runtime::interpreter::clone_handler_info;
use crate::runtime::interpreter::CallItem;
use crate::runtime::interpreter::CallStack;
use crate::runtime::interpreter::Handler;
use crate::runtime::interpreter::ThreadManagement;
use crate::runtime::interpreter::WordHandlerInfo;

verus! {

pub type SearchPaths = Vec<String>;

pub type WordList = ContextualList<WordHandlerInfo>;

pub type VariableList = ContextualList<Value>;

pub type ValueStack = Vec<Value>;

pub type DataDefinitionList = ContextualList<DataObjectDefinitionPtr>;

/// How many calls of words may be nested in one another unless the limits of
/// an interpreter are set otherwise: as many as the machine can count. A
/// host that wants runaway recursion to end in an error sets a limit that its
/// own stack can hold.
pub const DEFAULT_CALL_LIMIT: usize = usize::MAX;

/// The interpreter.
///
/// An interpreter owns everything that a script can reach: the value stack,
/// the heap of containers, the variables, the dictionary and the handlers of
/// its words, and the compilations that are under way. Dictionary, handlers,
/// data definitions and variables are scoped together: a context is marked and
/// released on all four at once.
///
/// Two limits keep every run finite. The budget is the number of instructions
/// and tokens that may still be processed, and the call depth is the number of
/// calls of words that may still be nested.
pub struct SorthInterpreter {
    pub(crate) max_depth: usize,
    pub(crate) search_paths: SearchPaths,
    pub(crate) stack: ValueStack,
    pub(crate) current_location: Option<SourceLocation>,
    pub(crate) call_stack: CallStack,
    pub(crate) data_definitions: DataDefinitionList,
    pub(crate) dictionary: Dictionary,
    pub(crate) word_handlers: WordList,
    pub(crate) variables: VariableList,
    pub(crate) constructors: CodeConstructorList,
    pub(crate) heap: Heap,
    pub(crate) ffi: FfiInterface,
    pub(crate) budget: u64,
    pub(crate) call_depth_left: usize,
    pub(crate) unique_index: usize,
}

impl SorthInterpreter {
    /// The invariant of the interpreter: that of each of its parts, and the
    /// four scoped containers have the same number of contexts.
    pub open(crate) spec fn wf(&self) -> bool {
        &&& self.dictionary.wf()
        &&& self.word_handlers.wf()
        &&& self.data_definitions.wf()
        &&& self.variables.wf()
        &&& self.heap.wf()
        &&& self.dictionary@.len() >= 1
        &&& self.dictionary@.len() == self.word_handlers.depth()
        &&& self.dictionary@.len() == self.data_definitions.depth()
        &&& self.dictionary@.len() == self.variables.depth()
    }

    /// The values on the stack, the top last.
    pub open(crate) spec fn stack_view(&self) -> Seq<Value> {
        self.stack@
    }

    /// The number of contexts that are marked, the first one counted.
    pub open(crate) spec fn depth(&self) -> nat {
        self.dictionary@.len()
    }

    /// The values of the variables, by index.
    pub open(crate) spec fn variables_view(&self) -> Seq<Value> {
        self.variables@
    }

    /// The containers of the heap, by handle.
    pub open(crate) spec fn heap_view(&self) -> Seq<HeapCell> {
        self.heap@
    }

    /// The contexts of the dictionary, the outermost first.
    pub open(crate) spec fn dictionary_view(&self) -> Seq<Map<Seq<char>, WordInfoView>> {
        self.dictionary@
    }

    /// The handlers of the words, by index.
    pub open(crate) spec fn handlers_view(&self) -> Seq<WordHandlerInfo> {
        self.word_handlers@
    }

    /// The largest number of values that the stack has held at the end of a
    /// push.
    pub open(crate) spec fn deepest(&self) -> nat {
        self.max_depth as nat
    }

    /// The index of the first variable of each context, the outermost
    /// context first.
    pub open(crate) spec fn variable_marks(&self) -> Seq<nat> {
        self.variables.starts()
    }

    /// The index of the first handler of each context, the outermost context
    /// first.
    pub open(crate) spec fn handler_marks(&self) -> Seq<nat> {
        self.word_handlers.starts()
    }

    /// Whether the contexts start where they start in `before`, among the
    /// variables and among the handlers.
    pub open spec fn same_marks(&self, before: &SorthInterpreter) -> bool {
        self.variable_marks() == before.variable_marks() && self.handler_marks()
            == before.handler_marks()
    }

    /// Where the contexts start that were marked before the innermost
    /// `contexts` of them, among the variables and among the handlers.
    pub open spec fn outer_marks(&self, contexts: nat) -> (Seq<nat>, Seq<nat>) {
        (
            self.variable_marks().take(self.depth() - contexts),
            self.handler_marks().take(self.depth() - contexts),
        )
    }

    /// Each context has a start among the variables and among the handlers,
    /// within the list.
    pub proof fn lemma_marks(&self)
        requires
            self.wf(),
        ensures
            self.variable_marks().len() == self.depth(),
            self.handler_marks().len() == self.depth(),
            forall|k: int|
                0 <= k < self.depth() ==> #[trigger] self.variable_marks()[k]
                    <= self.variables_view().len(),
            forall|k: int|
                0 <= k < self.depth() ==> #[trigger] self.handler_marks()[k]
                    <= self.handlers_view().len(),
    {
        self.variables.lemma_starts();
        self.word_handlers.lemma_starts();
    }

    /// Whether words are found and handled as in `before`: the dictionary and
    /// the handlers are the same.
    pub open spec fn same_words(&self, before: &SorthInterpreter) -> bool {
        self.handlers_view() == before.handlers_view() && self.dictionary_view()
            == before.dictionary_view()
    }

    /// The number of instructions and tokens that may still be processed.
    pub open(crate) spec fn budget_left(&self) -> nat {
        self.budget as nat
    }

    /// The number of calls of words that may still be nested.
    pub open(crate) spec fn calls_left(&self) -> nat {
        self.call_depth_left as nat
    }

    /// The number of entries of the call stack.
    pub open(crate) spec fn call_stack_len(&self) -> nat {
        self.calls_view().len()
    }

    /// The current location in the source, if there is one.
    pub open(crate) spec fn location_view(&self) -> Option<crate::lang::source_buffer::LocationView> {
        location_option_view(self.current_location)
    }

    /// The entries of the call stack, the outermost first.
    pub open(crate) spec fn calls_view(&self) -> Seq<
        (crate::lang::source_buffer::LocationView, Seq<char>),
    > {
        call_stack_view(self.call_stack@)
    }

    /// The compilations that are under way, the innermost last.
    pub open(crate) spec fn contexts_view(&self) -> Seq<CodeConstructor> {
        self.constructors@
    }

    /// The libraries that are loaded: the name that each was registered
    /// under, and the number under which the host knows it.
    pub open(crate) spec fn libraries(&self) -> Seq<(String, usize)> {
        self.ffi.libs@
    }

    /// The types that the foreign function interface knows.
    pub open(crate) spec fn interface_types(&self) -> Seq<crate::runtime::built_ins::ffi_words::TypeInfo> {
        self.ffi.types@
    }

    /// The number of strings that `unique_str` has given out.
    pub open(crate) spec fn unique_count(&self) -> nat {
        self.unique_index as nat
    }

    /// The number of compilations that are under way.
    pub open(crate) spec fn compilations(&self) -> nat {
        self.constructors@.len()
    }

    /// What holds of the interpreter after any operation on it, `before`
    /// being the interpreter before: it is well formed, the same contexts are
    /// marked and start where they started, the call stack is as deep, as
    /// many calls may be nested, and the budget has not grown.
    pub open(crate) spec fn stable(&self, before: &SorthInterpreter) -> bool {
        &&& self.steady(before)
        &&& self.depth() == before.depth()
        &&& self.same_marks(before)
    }

    /// What holds of the interpreter after any step of an execution: all
    /// that holds after an operation, but for the contexts that are marked.
    pub open(crate) spec fn steady(&self, before: &SorthInterpreter) -> bool {
        &&& self.wf()
        &&& self.call_stack_len() == before.call_stack_len()
        &&& self.calls_left() == before.calls_left()
        &&& self.budget_left() <= before.budget_left()
        &&& self.compilations() == before.compilations()
    }

    /// A new interpreter: an empty stack and heap, one context without words
    /// or variables, no compilation under way, the largest budget and the
    /// default limit on nested calls.
    pub fn new() -> (r: SorthInterpreter)
        ensures
            r.wf(),
            r.stack_view().len() == 0,
            r.depth() == 1,
            r.variables_view().len() == 0,
            r.heap_view().len() == 0,
            r.handlers_view().len() == 0,
            r.call_stack_len() == 0,
            r.compilations() == 0,
            r.budget_left() == u64::MAX,
            r.calls_left() == DEFAULT_CALL_LIMIT,
            r.dictionary_view() == seq![Map::<Seq<char>, WordInfoView>::empty()],
            r.paths_view().len() == 0,
    {
        let call_stack: Vec<CallItem> = Vec::new();
        assert(call_stack_view(call_stack@) =~= Seq::empty());
        SorthInterpreter {
            max_depth: 0,
            search_paths: Vec::new(),
            stack: Vec::new(),
            current_location: None,
            call_stack,
            data_definitions: ContextualList::new(),
            dictionary: Dictionary::new(),
            word_handlers: ContextualList::new(),
            variables: ContextualList::new(),
            constructors: Vec::new(),
            heap: Heap::new(),
            ffi: FfiInterface::new(),
            budget: u64::MAX,
            call_depth_left: DEFAULT_CALL_LIMIT,
            unique_index: 0,
        }
    }

    /// Sets the limits of the interpreter: the number of instructions and
    /// tokens that may still be processed, and the number of calls of words
    /// that may be nested.
    pub fn set_limits(&mut self, budget: u64, call_limit: usize)
        requires
            old(self).wf(),
        ensures
            final(self).wf(),
            final(self).budget_left() == budget,
            final(self).calls_left() == call_limit,
            final(self).stack_view() == old(self).stack_view(),
            final(self).depth() == old(self).depth(),
            final(self).variables_view() == old(self).variables_view(),
            final(self).heap_view() == old(self).heap_view(),
    {
        self.budget = budget;
        self.call_depth_left = call_limit;
    }

    /// The budget that is left.
    pub fn budget(&self) -> (r: u64)
        ensures
            r == self.budget_left(),
    {
        self.budget
    }

    pub fn variables(&self) -> (r: &VariableList)
        ensures
            r@ == self.variables_view(),
            self.wf() ==> r.wf(),
    {
        &self.variables
    }

    pub fn dictionary(&self) -> (r: &Dictionary)
        ensures
            r@ == self.dictionary_view(),
    {
        &self.dictionary
    }

    pub fn heap(&self) -> (r: &Heap)
        ensures
            r@ == self.heap_view(),
    {
        &self.heap
    }

    pub fn search_paths(&self) -> (r: &Vec<String>)
        ensures
            r@ == self.paths_view(),
    {
        &self.search_paths
    }

    pub fn current_location(&self) -> (r: &Option<SourceLocation>)
        ensures
            location_option_view(*r) == self.location_view(),
    {
        &self.current_location
    }

    pub fn call_stack(&self) -> (r: &CallStack)
        ensures
            call_stack_view(r@) == self.calls_view(),
    {
        &self.call_stack
    }

    /// The deepest that the stack has been.
    pub fn stack_max_depth(&self) -> (r: usize)
        ensures
            r == self.deepest(),
    {
        self.max_depth
    }

    pub fn stack(&self) -> (r: &ValueStack)
        ensures
            r@ == self.stack_view(),
    {
        &self.stack
    }

    /// The error with the given message, raised at the current location with
    /// the current call stack.
    pub fn error(&self, message: String) -> (r: ScriptError)
        ensures
            r@ == (ErrorView {
                location: self.location_view(),
                error: message@,
                call_stack: Some(self.calls_view()),
            }),
    {
        let location = match &self.current_location {
            Some(l) => Some(l.clone()),
            None => None,
        };
        ScriptError::new(location, message, Some(clone_call_stack(&self.call_stack)))
    }

    /// Puts a value on the stack.
    pub fn push(&mut self, value: Value)
        ensures
            final(self).stack_view() == old(self).stack_view().push(value),
            final(self).same_but_stack(old(self)),
            final(self).deepest() == if old(self).deepest() < old(self).stack_view().len() + 1 {
                old(self).stack_view().len() + 1
            } else {
                old(self).deepest()
            },
    {
        self.stack.push(value);
        if self.stack.len() > self.max_depth {
            self.max_depth = self.stack.len();
        }
    }

    /// Everything but the stack and its high water mark is as in `before`.
    pub open(crate) spec fn same_but_stack(&self, before: &SorthInterpreter) -> bool {
        &&& self.search_paths == before.search_paths
        &&& self.current_location == before.current_location
        &&& self.call_stack == before.call_stack
        &&& self.data_definitions == before.data_definitions
        &&& self.dictionary == before.dictionary
        &&& self.word_handlers == before.word_handlers
        &&& self.variables == before.variables
        &&& self.constructors == before.constructors
        &&& self.heap == before.heap
        &&& self.ffi == before.ffi
        &&& self.budget == before.budget
        &&& self.call_depth_left == before.call_depth_left
        &&& self.unique_index == before.unique_index
    }

    /// Takes the top value off the stack. Fails on an empty stack.
    pub fn pop(&mut self) -> (r: Result<Value>)
        ensures
            final(self).same_but_stack(old(self)),
            old(self).stack_view().len() == 0 ==> r is Err && final(self).stack_view() == old(self).stack_view(),
            old(self).stack_view().len() > 0 ==> r is Ok && r->Ok_0 == old(self).stack_view().last() && final(self).stack_view() == old(self).stack_view().drop_last(),
    {
        match self.stack.pop() {
            Some(value) => Ok(value),
            None => Err(self.error(String::from_str("Stack underflow."))),
        }
    }

    /// The stack after a pop: without its top value, or as it was if it was
    /// empty.
    pub open(crate) spec fn popped(&self) -> Seq<Value> {
        if self.stack@.len() > 0 {
            self.stack@.drop_last()
        } else {
            self.stack@
        }
    }

    /// Takes the top value off the stack as an integer. Fails on an empty
    /// stack and on a value that does not count as a number. A floating point
    /// number loses its fraction.
    pub fn pop_as_int<H: Host>(&mut self, host: &H) -> (r: Result<i64>)
        ensures
            final(self).same_but_stack(old(self)),
            final(self).stack_view() == old(self).popped(),
            r is Ok <==> old(self).stack_view().len() > 0 && is_number_view(
                old(self).stack_view().last()@,
            ),
            r is Ok && popped_int(old(self).stack_view().last()@) is Some ==> r->Ok_0
                == popped_int(old(self).stack_view().last()@)->0,
    {
        match take_int(host, &mut self.stack) {
            Ok(value) => Ok(value),
            Err(message) => Err(self.error(message)),
        }
    }

    /// Takes the top value off the stack as a count or an index. Fails on an
    /// empty stack, on a value that does not count as a number, and on a
    /// negative number.
    pub fn pop_as_usize<H: Host>(&mut self, host: &H) -> (r: Result<usize>)
        ensures
            final(self).same_but_stack(old(self)),
            final(self).stack_view() == old(self).popped(),
            r is Ok ==> old(self).stack_view().len() > 0 && is_number_view(
                old(self).stack_view().last()@,
            ),
            old(self).stack_view().len() > 0 ==> match popped_int(old(self).stack_view().last()@) {
                Some(i) => if 0 <= i <= usize::MAX {
                    r == Ok::<usize, ScriptError>(i as usize)
                } else {
                    r is Err
                },
                None => true,
            },
    {
        let value = match self.pop_as_int(host) {
            Ok(value) => value,
            Err(e) => {
                return Err(e);
            },
        };
        if value < 0 || value as u64 > usize::MAX as u64 {
            return Err(self.error(String::from_str("Expected a count or an index.")));
        }
        Ok(value as usize)
    }

    /// Takes the top value off the stack as a floating point number, and
    /// gives its bits. Fails on an empty stack and on a value that does not
    /// count as a number.
    pub fn pop_as_float<H: Host>(&mut self, host: &H) -> (r: Result<u64>)
        ensures
            final(self).same_but_stack(old(self)),
            final(self).stack_view() == old(self).popped(),
            r is Ok <==> old(self).stack_view().len() > 0 && is_number_view(
                old(self).stack_view().last()@,
            ),
            r is Ok && popped_float(
                old(self).stack_view().last()@,
            ) is Some ==> r->Ok_0 == popped_float(
                old(self).stack_view().last()@,
            )->0,
    {
        match take_float(host, &mut self.stack) {
            Ok(value) => Ok(value),
            Err(message) => Err(self.error(message)),
        }
    }

    /// Takes the top value off the stack as a boolean. `Nil`, numbers,
    /// booleans and strings have a truth; the call fails on an empty stack and
    /// on any other value.
    pub fn pop_as_bool(&mut self) -> (r: Result<bool>)
        ensures
            final(self).same_but_stack(old(self)),
            final(self).stack_view() == old(self).popped(),
            r is Ok <==> old(self).stack_view().len() > 0 && has_truth(
                old(self).stack_view().last()@,
            ),
            r is Ok ==> r->Ok_0 == bool_of_view(old(self).stack_view().last()@),
    {
        match take_bool(&mut self.stack) {
            Ok(value) => Ok(value),
            Err(message) => Err(self.error(message)),
        }
    }

    /// Takes the top value off the stack as a string. Fails on an empty stack
    /// and on a value that cannot stand where a string is needed.
    pub fn pop_as_string<H: Host>(&mut self, host: &H) -> (r: Result<String>)
        ensures
            final(self).same_but_stack(old(self)),
            final(self).stack_view() == old(self).popped(),
            r is Ok <==> old(self).stack_view().len() > 0 && is_stringable_view(
                old(self).stack_view().last()@,
            ),
            r is Ok && string_of_view(old(self).stack_view().last()@) is Some ==> r->Ok_0@
                == string_of_view(old(self).stack_view().last()@)->0,
    {
        match take_string(host, &mut self.stack) {
            Ok(value) => Ok(value),
            Err(message) => Err(self.error(message)),
        }
    }

    /// Takes the top value off the stack as an array, and gives its handle.
    /// Fails on an empty stack and on a value that is no array of the heap.
    pub fn pop_as_array(&mut self) -> (r: Result<usize>)
        ensures
            final(self).same_but_stack(old(self)),
            final(self).stack_view() == old(self).popped(),
            r is Ok <==> old(self).stack_view().len() > 0 && is_array(
                old(self).heap_view(),
                old(self).stack_view().last()@,
            ),
            r is Ok ==> old(self).stack_view().last()@ == ValueView::Vec(r->Ok_0),
    {
        let value = match self.pop() {
            Ok(value) => value,
            Err(e) => {
                return Err(e);
            },
        };
        match value {
            Value::Vec(handle) => {
                if self.heap.vec(handle).is_some() {
                    Ok(handle)
                } else {
                    Err(self.error(String::from_str("Expected an array.")))
                }
            },
            _ => Err(self.error(String::from_str("Expected an array."))),
        }
    }

    /// Takes the top value off the stack as a hash map, and gives its handle.
    /// Fails on an empty stack and on a value that is no hash map of the heap.
    pub fn pop_as_hash_map(&mut self) -> (r: Result<usize>)
        ensures
            final(self).same_but_stack(old(self)),
            final(self).stack_view() == old(self).popped(),
            r is Ok <==> old(self).stack_view().len() > 0 && is_hash_map(
                old(self).heap_view(),
                old(self).stack_view().last()@,
            ),
            r is Ok ==> old(self).stack_view().last()@ == ValueView::HashMap(r->Ok_0),
    {
        let value = match self.pop() {
            Ok(value) => value,
            Err(e) => {
                return Err(e);
            },
        };
        match value {
            Value::HashMap(handle) => {
                if self.heap.hash(handle).is_some() {
                    Ok(handle)
                } else {
                    Err(self.error(String::from_str("Expected a hash map.")))
                }
            },
            _ => Err(self.error(String::from_str("Expected a hash map."))),
        }
    }

    /// Takes the top value off the stack as a data object, and gives its
    /// handle. Fails on an empty stack and on a value that is no data object
    /// of the heap.
    pub fn pop_as_data_object(&mut self) -> (r: Result<usize>)
        ensures
            final(self).same_but_stack(old(self)),
            final(self).stack_view() == old(self).popped(),
            r is Ok <==> old(self).stack_view().len() > 0 && is_data_object(
                old(self).heap_view(),
                old(self).stack_view().last()@,
            ),
            r is Ok ==> old(self).stack_view().last()@ == ValueView::DataObject(r->Ok_0),
    {
        let value = match self.pop() {
            Ok(value) => value,
            Err(e) => {
                return Err(e);
            },
        };
        match value {
            Value::DataObject(handle) => {
                if self.heap.object(handle).is_some() {
                    Ok(handle)
                } else {
                    Err(self.error(String::from_str("Expected a data object.")))
                }
            },
            _ => Err(self.error(String::from_str("Expected a data object."))),
        }
    }

    /// Takes the top value off the stack as a byte buffer, and gives its
    /// handle. Fails on an empty stack and on a value that is no byte buffer
    /// of the heap.
    pub fn pop_as_byte_buffer(&mut self) -> (r: Result<usize>)
        ensures
            final(self).same_but_stack(old(self)),
            final(self).stack_view() == old(self).popped(),
            r is Ok <==> old(self).stack_view().len() > 0 && is_byte_buffer(
                old(self).heap_view(),
                old(self).stack_view().last()@,
            ),
            r is Ok ==> old(self).stack_view().last()@ == ValueView::ByteBuffer(r->Ok_0),
    {
        let value = match self.pop() {
            Ok(value) => value,
            Err(e) => {
                return Err(e);
            },
        };
        match value {
            Value::ByteBuffer(handle) => {
                if self.heap.buffer(handle).is_some() {
                    Ok(handle)
                } else {
                    Err(self.error(String::from_str("Expected a byte buffer.")))
                }
            },
            _ => Err(self.error(String::from_str("Expected a byte buffer."))),
        }
    }

    /// Takes the top value off the stack as a block of code. Fails on an
    /// empty stack and on a value that is no code.
    pub fn pop_as_code(&mut self) -> (r: Result<ByteCode>)
        ensures
            final(self).same_but_stack(old(self)),
            final(self).stack_view() == old(self).popped(),
            r is Ok <==> old(self).stack_view().len() > 0 && old(self).stack_view().last() is Code,
            r is Ok ==> old(self).stack_view().last() == Value::Code(r->Ok_0),
    {
        let value = match self.pop() {
            Ok(value) => value,
            Err(e) => {
                return Err(e);
            },
        };
        match value {
            Value::Code(code) => Ok(code),
            _ => Err(self.error(String::from_str("Expected a code block."))),
        }
    }

    /// Takes out the value that lies `index` values below the top of the
    /// stack. Fails where the stack holds no such value.
    pub fn pick(&mut self, index: usize) -> (r: Result<Value>)
        ensures
            final(self).same_but_stack(old(self)),
            index < old(self).stack_view().len() ==> r is Ok && r->Ok_0 == old(self).stack_view()[old(self).stack_view().len() - 1 - index] && final(self).stack_view()
                == old(self).stack_view().remove(old(self).stack_view().len() - 1 - index),
            index >= old(self).stack_view().len() ==> r is Err && final(self).stack_view() == old(self).stack_view(),
    {
        if index >= self.stack.len() {
            return Err(self.error(String::from_str("Stack underflow.")));
        }
        let position = self.stack.len() - 1 - index;
        Ok(self.stack.remove(position))
    }

    /// Takes the top value off the stack and puts it back so that `index`
    /// values lie above it. Fails where the stack is empty or holds fewer
    /// other values than that.
    pub fn push_to(&mut self, index: usize) -> (r: Result<()>)
        ensures
            final(self).same_but_stack(old(self)),
            index < old(self).stack_view().len() ==> r is Ok && final(self).stack_view() == old(self).stack_view().drop_last().insert(
                old(self).stack_view().len() - 1 - index,
                old(self).stack_view().last(),
            ),
            index >= old(self).stack_view().len() ==> r is Err && final(self).stack_view() == old(self).stack_view(),
    {
        if index >= self.stack.len() {
            return Err(self.error(String::from_str("Stack underflow.")));
        }
        let value = self.stack.pop().unwrap();
        let position = self.stack.len() - index;
        self.stack.insert(position, value);
        Ok(())
    }
}

impl SorthInterpreter {
    /// Whether there is room for one more word.
    pub fn can_add_word(&self) -> (r: bool)
        requires
            self.wf(),
        ensures
            r == (self.handlers_view().len() < usize::MAX),
    {
        self.word_handlers.len() < usize::MAX
    }

    /// Defines a word in the innermost context: the handler goes to the end
    /// of the list of handlers, and the dictionary gets the name with the
    /// index of the handler.
    pub fn add_word(
        &mut self,
        file: String,
        line: u32,
        column: u32,
        name: String,
        handler: Handler,
        description: String,
        signature: String,
        runtime: WordRuntime,
        visibility: WordVisibility,
        word_type: WordType,
    )
        requires
            old(self).wf(),
            old(self).handlers_view().len() < usize::MAX,
        ensures
            final(self).stable(old(self)),
            final(self).same_but_words(old(self)),
            final(self).stack_view() == old(self).stack_view(),
            final(self).variables_view() == old(self).variables_view(),
            final(self).heap_view() == old(self).heap_view(),
            final(self).compilations() == old(self).compilations(),
            final(self).budget_left() == old(self).budget_left(),
            final(self).handlers_view().len() == old(self).handlers_view().len() + 1,
            final(self).handlers_view().drop_last() == old(self).handlers_view(),
            final(self).handlers_view().last().spec_name() == name@,
            final(self).handlers_view().last().spec_handler() == handler,
            lookup(final(self).dictionary_view(), name@) == Some(
                WordInfoView {
                    name: name@,
                    runtime,
                    word_type,
                    visibility,
                    description: description@,
                    signature: signature@,
                    handler_index: old(self).handlers_view().len() as usize,
                },
            ),
            forall|other: Seq<char>|
                other != name@ ==> #[trigger] lookup(final(self).dictionary_view(), other)
                    == lookup(old(self).dictionary_view(), other),
    {
        let location = SourceLocation::new_from_info(&file, line, column);
        let info = WordHandlerInfo::new(name.clone(), location, handler);
        let ghost before = self.word_handlers@;
        let index = self.word_handlers.insert(info);
        assert(self.word_handlers@.drop_last() == before);
        let word_info = WordInfo {
            name: name.clone(),
            runtime,
            word_type,
            visibility,
            description,
            signature,
            handler_index: index,
        };
        proof {
            self.dictionary.lemma_depth();
        }
        let ghost dictionary_before = self.dictionary@;
        self.dictionary.insert(name, word_info);
        assert(self.dictionary@.len() == dictionary_before.len());
        assert(self.dictionary@.last() == dictionary_before.last().insert(name@, word_info@));
        assert(self.dictionary@.drop_last() =~= dictionary_before.drop_last());
    }

    /// What the dictionary knows of the word of the given name, if it is
    /// defined.
    pub fn find_word(&self, word: &String) -> (r: Option<&WordInfo>)
        ensures
            match r {
                Some(info) => lookup(self.dictionary_view(), word@) == Some(info@),
                None => lookup(self.dictionary_view(), word@) is None,
            },
    {
        self.dictionary.try_get(word)
    }

    /// The handler with the given index, if there is one.
    pub fn word_handler_info(&self, index: usize) -> (r: Option<&WordHandlerInfo>)
        requires
            self.wf(),
        ensures
            index < self.handlers_view().len() ==> r is Some && *r->0 == self.handlers_view()[index as int],
            index >= self.handlers_view().len() ==> r is None,
    {
        if index >= self.word_handlers.len() {
            return None;
        }
        Some(self.word_handlers.index(index))
    }

    /// Puts an entry on the call stack.
    pub fn call_stack_push(&mut self, name: String, location: SourceLocation)
        ensures
            final(self).calls_view() == old(self).calls_view().push((location@, name@)),
            final(self).same_but_calls(old(self)),
    {
        self.call_stack.push(CallItem::new(name, location));
        assert(call_stack_view(self.call_stack@) =~= call_stack_view(old(self).call_stack@).push(
            (location@, name@),
        ));
    }

    /// Everything but the dictionary and the handlers of the words is as in
    /// `before`.
    pub open(crate) spec fn same_but_words(&self, before: &SorthInterpreter) -> bool {
        &&& self.max_depth == before.max_depth
        &&& self.search_paths == before.search_paths
        &&& self.stack == before.stack
        &&& self.current_location == before.current_location
        &&& self.call_stack == before.call_stack
        &&& self.data_definitions == before.data_definitions
        &&& self.variables == before.variables
        &&& self.constructors == before.constructors
        &&& self.heap == before.heap
        &&& self.ffi == before.ffi
        &&& self.budget == before.budget
        &&& self.call_depth_left == before.call_depth_left
        &&& self.unique_index == before.unique_index
    }

    /// Everything but the heap is as in `before`.
    pub open(crate) spec fn same_but_heap(&self, before: &SorthInterpreter) -> bool {
        &&& self.max_depth == before.max_depth
        &&& self.search_paths == before.search_paths
        &&& self.stack == before.stack
        &&& self.current_location == before.current_location
        &&& self.call_stack == before.call_stack
        &&& self.data_definitions == before.data_definitions
        &&& self.dictionary == before.dictionary
        &&& self.word_handlers == before.word_handlers
        &&& self.variables == before.variables
        &&& self.constructors == before.constructors
        &&& self.ffi == before.ffi
        &&& self.budget == before.budget
        &&& self.call_depth_left == before.call_depth_left
        &&& self.unique_index == before.unique_index
    }

    /// Everything but the call stack is as in `before`.
    pub open(crate) spec fn same_but_calls(&self, before: &SorthInterpreter) -> bool {
        &&& self.max_depth == before.max_depth
        &&& self.search_paths == before.search_paths
        &&& self.stack == before.stack
        &&& self.current_location == before.current_location
        &&& self.data_definitions == before.data_definitions
        &&& self.dictionary == before.dictionary
        &&& self.word_handlers == before.word_handlers
        &&& self.variables == before.variables
        &&& self.constructors == before.constructors
        &&& self.heap == before.heap
        &&& self.ffi == before.ffi
        &&& self.budget == before.budget
        &&& self.call_depth_left == before.call_depth_left
        &&& self.unique_index == before.unique_index
    }

    /// Takes the last entry off the call stack. Fails on an empty call stack.
    pub fn call_stack_pop(&mut self) -> (r: Result<()>)
        ensures
            final(self).same_but_calls(old(self)),
            old(self).calls_view().len() > 0 ==> r is Ok && final(self).calls_view() == old(self).calls_view().drop_last(),
            old(self).calls_view().len() == 0 ==> r is Err && final(self).calls_view() == old(self).calls_view(),
    {
        if self.call_stack.len() == 0 {
            return Err(self.error(String::from_str("Call stack underflow.")));
        }
        let _ = self.call_stack.pop();
        assert(call_stack_view(self.call_stack@) =~= call_stack_view(
            old(self).call_stack@,
        ).drop_last());
        Ok(())
    }

    /// Starts a compilation of the given tokens.
    pub fn context_new(&mut self, tokens: TokenList)
        ensures
            final(self).same_but_compilations(old(self)),
            final(self).contexts_view().len() == old(self).contexts_view().len() + 1,
            final(self).contexts_view().drop_last() == old(self).contexts_view(),
            final(self).contexts_view().last().constructions@.len() == 1,
            final(self).contexts_view().last().constructions@[0]@
                == crate::lang::compilation::Construction::new_view(),
            final(self).contexts_view().last().insertion
                == crate::lang::compilation::InsertionLocation::AtEnd,
            final(self).contexts_view().last().input == tokens,
            final(self).contexts_view().last().current == 0,
    {
        self.constructors.push(CodeConstructor::new(tokens));
    }

    /// The token that the innermost compilation reads next, if there is one.
    pub open spec fn upcoming(&self) -> Option<TokenView> {
        if self.contexts_view().len() > 0 && self.contexts_view().last().current
            < self.contexts_view().last().input@.len() {
            Some(
                self.contexts_view().last().input@[self.contexts_view().last().current as int]@,
            )
        } else {
            None
        }
    }

    /// Whether the compilations are those of `before` but that the innermost
    /// one has read one token more.
    pub open spec fn advanced(&self, before: &SorthInterpreter) -> bool {
        &&& before.contexts_view().len() > 0
        &&& self.contexts_view().len() == before.contexts_view().len()
        &&& self.contexts_view().drop_last() == before.contexts_view().drop_last()
        &&& self.contexts_view().last().constructions == before.contexts_view().last().constructions
        &&& self.contexts_view().last().insertion == before.contexts_view().last().insertion
        &&& self.contexts_view().last().input == before.contexts_view().last().input
        &&& self.contexts_view().last().current == before.contexts_view().last().current + 1
    }

    /// What holds of the compilations after a token was asked for: the
    /// innermost one has read the token that was next, and where none was
    /// next nothing has changed.
    pub open spec fn token_taken(&self, before: &SorthInterpreter) -> bool {
        if before.upcoming() is Some {
            self.advanced(before)
        } else {
            self.contexts_view() == before.contexts_view()
        }
    }

    /// Everything but the compilations that are under way and the budget is
    /// as in `before`, and the budget is less by `count`.
    pub open(crate) spec fn compiling(&self, before: &SorthInterpreter, count: nat) -> bool {
        &&& self.max_depth == before.max_depth
        &&& self.search_paths == before.search_paths
        &&& self.stack == before.stack
        &&& self.current_location == before.current_location
        &&& self.call_stack == before.call_stack
        &&& self.data_definitions == before.data_definitions
        &&& self.dictionary == before.dictionary
        &&& self.word_handlers == before.word_handlers
        &&& self.variables == before.variables
        &&& self.heap == before.heap
        &&& self.ffi == before.ffi
        &&& self.budget + count == before.budget
        &&& self.call_depth_left == before.call_depth_left
        &&& self.unique_index == before.unique_index
    }

    /// The interpreter is as `before`, with the same compilations under
    /// way, but that `count` was taken from the budget.
    pub open(crate) spec fn spent(&self, before: &SorthInterpreter, count: nat) -> bool {
        self.compiling(before, count) && self.contexts_view() == before.contexts_view()
    }

    /// Everything but the compilations that are under way is as in `before`.
    pub open(crate) spec fn same_but_compilations(&self, before: &SorthInterpreter) -> bool {
        &&& self.max_depth == before.max_depth
        &&& self.search_paths == before.search_paths
        &&& self.stack == before.stack
        &&& self.current_location == before.current_location
        &&& self.call_stack == before.call_stack
        &&& self.data_definitions == before.data_definitions
        &&& self.dictionary == before.dictionary
        &&& self.word_handlers == before.word_handlers
        &&& self.variables == before.variables
        &&& self.heap == before.heap
        &&& self.ffi == before.ffi
        &&& self.budget == before.budget
        &&& self.call_depth_left == before.call_depth_left
        &&& self.unique_index == before.unique_index
    }

    /// Ends the innermost compilation. Fails where none is under way.
    pub fn context_drop(&mut self) -> (r: Result<()>)
        ensures
            final(self).same_but_compilations(old(self)),
            old(self).contexts_view().len() > 0 ==> r is Ok && final(self).contexts_view() == old(self).contexts_view().drop_last(),
            old(self).contexts_view().len() == 0 ==> r is Err && final(self).contexts_view() == old(self).contexts_view(),
    {
        if self.constructors.len() == 0 {
            return Err(self.error(String::from_str("Compile context stack underflow.")));
        }
        let _ = self.constructors.pop();
        Ok(())
    }

    /// The innermost compilation.
    pub fn context(&self) -> (r: &CodeConstructor)
        requires
            self.compilations() > 0,
        ensures
            *r == self.contexts_view().last(),
    {
        &self.constructors[self.constructors.len() - 1]
    }

    /// Reads the next token of the innermost compilation. Fails where no
    /// compilation is under way or its tokens are used up.
    pub fn next_token(&mut self) -> (r: Result<Token>)
        ensures
            final(self).same_but_compilations(old(self)),
            final(self).contexts_view().len() == old(self).contexts_view().len(),
            final(self).token_taken(old(self)),
            match old(self).upcoming() {
                Some(token) => r is Ok && r->Ok_0@ == token,
                None => r is Err,
            },
    {
        if self.constructors.len() == 0 {
            return Err(self.error(String::from_str("Reading past end of token stream.")));
        }
        let last = self.constructors.len() - 1;
        let found = self.constructors[last].next_token();
        proof {
            let before = old(self).constructors@;
            assert(self.constructors@.drop_last() =~= before.drop_last());
            if found is None {
                assert(self.constructors@[last as int] == before[last as int]);
                assert(self.constructors@ =~= before);
            }
        }
        match found {
            Some(token) => Ok(token),
            None => Err(self.error(String::from_str("Reading past end of token stream."))),
        }
    }

    /// Reads the next token, which has to be a string or a word, and gives
    /// its text.
    pub fn next_token_text(&mut self) -> (r: Result<String>)
        ensures
            final(self).same_but_compilations(old(self)),
            final(self).contexts_view().len() == old(self).contexts_view().len(),
            final(self).token_taken(old(self)),
            match old(self).upcoming() {
                Some(TokenView::String(_, text)) => r is Ok && r->Ok_0@ == text,
                Some(TokenView::Word(_, text)) => r is Ok && r->Ok_0@ == text,
                _ => r is Err,
            },
    {
        let token = match self.next_token() {
            Ok(token) => token,
            Err(e) => {
                return Err(e);
            },
        };
        match token.text(self) {
            Ok(text) => Ok(text.clone()),
            Err(e) => Err(e),
        }
    }

    /// Reads the next token, which has to be a string, and gives its text.
    pub fn next_token_string(&mut self) -> (r: Result<String>)
        ensures
            final(self).same_but_compilations(old(self)),
            final(self).contexts_view().len() == old(self).contexts_view().len(),
            final(self).token_taken(old(self)),
            match old(self).upcoming() {
                Some(TokenView::String(_, text)) => r is Ok && r->Ok_0@ == text,
                _ => r is Err,
            },
    {
        let token = match self.next_token() {
            Ok(token) => token,
            Err(e) => {
                return Err(e);
            },
        };
        match token.string(self) {
            Ok(text) => Ok(text.clone()),
            Err(e) => Err(e),
        }
    }

    /// Reads the next token, which has to be a number, and gives the number.
    pub fn next_token_number(&mut self) -> (r: Result<NumberType>)
        ensures
            final(self).same_but_compilations(old(self)),
            final(self).contexts_view().len() == old(self).contexts_view().len(),
            final(self).token_taken(old(self)),
            match old(self).upcoming() {
                Some(TokenView::Number(_, number)) => r is Ok && r->Ok_0 == number,
                _ => r is Err,
            },
    {
        let token = match self.next_token() {
            Ok(token) => token,
            Err(e) => {
                return Err(e);
            },
        };
        match token.number(self) {
            Ok(number) => Ok(*number),
            Err(e) => Err(e),
        }
    }

    /// Reads the next token, which has to be a word, and gives its location
    /// and its text.
    pub fn next_token_word(&mut self) -> (r: Result<(SourceLocation, String)>)
        ensures
            final(self).same_but_compilations(old(self)),
            final(self).contexts_view().len() == old(self).contexts_view().len(),
            final(self).token_taken(old(self)),
            match old(self).upcoming() {
                Some(TokenView::Word(location, text)) => r is Ok && match r {
                    Ok(word) => word.0@ == location && word.1@ == text,
                    Err(_) => false,
                },
                _ => r is Err,
            },
    {
        let token = match self.next_token() {
            Ok(token) => token,
            Err(e) => {
                return Err(e);
            },
        };
        match token.word(self) {
            Ok(word) => Ok((token.location().clone(), word.clone())),
            Err(e) => Err(e),
        }
    }

    /// Puts an instruction into the block that the innermost compilation is
    /// building. Fails where no compilation is under way or it has no block.
    pub fn insert_user_instruction(&mut self, location: Option<SourceLocation>, op: Op) -> (r:
        Result<()>)
        ensures
            final(self).same_but_compilations(old(self)),
            final(self).contexts_view().len() == old(self).contexts_view().len(),
            r is Ok <==> old(self).contexts_view().len() > 0 && old(self).contexts_view().last().constructions@.len() > 0,
            r is Err ==> final(self).contexts_view() == old(self).contexts_view(),
            r is Ok ==> final(self).contexts_view().drop_last() == old(self).contexts_view().drop_last() && crate::lang::compilation::with_instruction(
                old(self).contexts_view().last(),
                final(self).contexts_view().last(),
                (crate::lang::code::InstructionView {
                    location: location_option_view(location),
                    op: op@,
                }),
            ),
    {
        if self.constructors.len() == 0 {
            return Err(self.error(String::from_str("No compile context available.")));
        }
        let last = self.constructors.len() - 1;
        self.constructors[last].push_instruction(Instruction::new(location, op))
    }

    /// Defines a variable: a new slot that holds `Nil`, and a word of the
    /// given name that pushes the index of the slot. Fails where the value is
    /// no name.
    pub fn define_variable<H: Host>(&mut self, host: &H, value: &Value) -> (r: Result<()>)
        requires
            old(self).wf(),
        ensures
            final(self).stable(old(self)),
            r is Ok ==> final(self).defined(old(self), *value),
            final(self).stack_view() == old(self).stack_view(),
            final(self).heap_view() == old(self).heap_view(),
            final(self).budget_left() == old(self).budget_left(),
            final(self).compilations() == old(self).compilations(),
            r is Ok ==> is_stringable_view(value@) && final(self).variables_view() == old(self).variables_view().push(Value::Nil) && final(self).handlers_view().last().spec_handler()
                == Handler::Variable(old(self).variables_view().len() as usize),
            r is Err ==> final(self).variables_view() == old(self).variables_view(),
            !is_stringable_view(value@) ==> r is Err,
            r is Ok <==> is_stringable_view(value@) && old(self).variables_view().len() < usize::MAX
                && old(self).handlers_view().len() < usize::MAX,
            r is Err ==> final(self).handlers_view() == old(self).handlers_view() && final(self).dictionary_view() == old(self).dictionary_view(),
            r is Ok ==> final(self).handlers_view().drop_last() == old(self).handlers_view()
                && lookup(final(self).dictionary_view(), final(self).handlers_view().last().spec_name())
                is Some && lookup(
                final(self).dictionary_view(),
                final(self).handlers_view().last().spec_name(),
            )->0.handler_index == old(self).handlers_view().len(),
            r is Ok && string_of_view(value@) is Some ==> final(self).handlers_view().last().spec_name()
                == string_of_view(value@)->0,
    {
        if !value.is_stringable() {
            return Err(self.error(String::from_str("Invalid variable name.")));
        }
        if self.variables.len() == usize::MAX || !self.can_add_word() {
            return Err(self.error(String::from_str("Too many variables.")));
        }
        let name = value.get_string_val(host);
        let index = self.variables.insert(Value::Nil);
        let description = concat3("Access the index for variable ", name.as_str(), ".");
        self.add_word(
            String::from_str("<native>"),
            1,
            1,
            name,
            Handler::Variable(index),
            description,
            String::from_str(" -- variable_index"),
            WordRuntime::Normal,
            WordVisibility::Visible,
            WordType::Native,
        );
        Ok(())
    }

    /// Defines a constant: takes the top value off the stack, and defines a
    /// word of the given name that pushes a deep clone of it. Fails where the
    /// value is no name or the stack is empty.
    pub fn define_constant<H: Host>(&mut self, host: &H, value: &Value) -> (r: Result<()>)
        requires
            old(self).wf(),
        ensures
            final(self).stable(old(self)),
            r is Ok ==> final(self).defined(old(self), *value),
            final(self).heap_view() == old(self).heap_view(),
            final(self).variables_view() == old(self).variables_view(),
            final(self).budget_left() == old(self).budget_left(),
            final(self).compilations() == old(self).compilations(),
            r is Ok ==> is_stringable_view(value@) && old(self).stack_view().len() > 0 && final(self).stack_view() == old(self).stack_view().drop_last() && final(self).handlers_view().last().spec_handler() == Handler::Constant(
                old(self).stack_view().last(),
            ),
            !is_stringable_view(value@) ==> r is Err && final(self).stack_view() == old(self).stack_view(),
            r is Ok <==> is_stringable_view(value@) && old(self).stack_view().len() > 0 && old(self).handlers_view().len() < usize::MAX,
            r is Err ==> final(self).stack_view() == old(self).stack_view() && final(self).handlers_view() == old(self).handlers_view() && final(self).dictionary_view() == old(self).dictionary_view(),
            r is Ok ==> final(self).handlers_view().drop_last() == old(self).handlers_view()
                && lookup(final(self).dictionary_view(), final(self).handlers_view().last().spec_name())
                is Some && lookup(
                final(self).dictionary_view(),
                final(self).handlers_view().last().spec_name(),
            )->0.handler_index == old(self).handlers_view().len(),
            r is Ok && string_of_view(value@) is Some ==> final(self).handlers_view().last().spec_name()
                == string_of_view(value@)->0,
    {
        if !value.is_stringable() {
            return Err(self.error(String::from_str("Invalid constant name.")));
        }
        if !self.can_add_word() {
            return Err(self.error(String::from_str("Too many words.")));
        }
        let name = value.get_string_val(host);
        let constant = match self.pop() {
            Ok(constant) => constant,
            Err(e) => {
                return Err(e);
            },
        };
        let description = concat3("Access value for constant ", name.as_str(), ".");
        self.add_word(
            String::from_str("<native>"),
            1,
            1,
            name,
            Handler::Constant(constant),
            description,
            String::from_str(" -- constant_value"),
            WordRuntime::Normal,
            WordVisibility::Visible,
            WordType::Native,
        );
        Ok(())
    }

    /// Takes an index off the stack and pushes a copy of the value of the
    /// variable with that index. A variable that was never written holds
    /// `Nil`. Fails where the index is that of no variable.
    pub fn read_variable<H: Host>(&mut self, host: &H) -> (r: Result<()>)
        requires
            old(self).wf(),
        ensures
            final(self).stable(old(self)),
            final(self).heap_view() == old(self).heap_view(),
            final(self).variables_view() == old(self).variables_view(),
            final(self).same_words(old(self)),
            final(self).budget_left() == old(self).budget_left(),
            final(self).compilations() == old(self).compilations(),
            r is Ok ==> final(self).stack_view().len() == old(self).stack_view().len(),
            r is Err ==> final(self).stack_view() == old(self).popped(),
            old(self).stack_view().len() > 0 ==> match popped_int(old(self).stack_view().last()@) {
                Some(i) => if 0 <= i < old(self).variables_view().len() {
                    r is Ok && final(self).stack_view().drop_last() == old(self).stack_view().drop_last() && final(self).stack_view().last()@ == old(self).variables_view()[i as int]@
                } else {
                    r is Err
                },
                None => true,
            },
    {
        let index = match self.pop_as_int(host) {
            Ok(index) => index,
            Err(e) => {
                return Err(e);
            },
        };
        if index < 0 || index as u64 >= self.variables.len() as u64 {
            return Err(
                self.error(
                    concat3(
                        "Read index ",
                        int_to_string(index).as_str(),
                        " out of range of variable set.",
                    ),
                ),
            );
        }
        let value = clone_value(self.variables.index(index as usize));
        self.push(value);
        Ok(())
    }

    /// Takes an index and then a value off the stack and puts the value into
    /// the variable with that index. Fails where the index is that of no
    /// variable.
    pub fn write_variable<H: Host>(&mut self, host: &H) -> (r: Result<()>)
        requires
            old(self).wf(),
        ensures
            final(self).stable(old(self)),
            final(self).heap_view() == old(self).heap_view(),
            final(self).same_words(old(self)),
            final(self).budget_left() == old(self).budget_left(),
            final(self).compilations() == old(self).compilations(),
            r is Err ==> final(self).variables_view() == old(self).variables_view(),
            old(self).stack_view().len() >= 2 ==> match popped_int(old(self).stack_view().last()@) {
                Some(i) => if 0 <= i < old(self).variables_view().len() {
                    r is Ok && final(self).stack_view() == old(self).stack_view().drop_last().drop_last() && final(self).variables_view() == old(self).variables_view().update(
                        i as int,
                        old(self).stack_view()[old(self).stack_view().len() - 2],
                    )
                } else {
                    r is Err
                },
                None => true,
            },
    {
        let index = match self.pop_as_int(host) {
            Ok(index) => index,
            Err(e) => {
                return Err(e);
            },
        };
        let value = match self.pop() {
            Ok(value) => value,
            Err(e) => {
                return Err(e);
            },
        };
        if index < 0 || index as u64 >= self.variables.len() as u64 {
            return Err(
                self.error(
                    concat3(
                        "Write index ",
                        int_to_string(index).as_str(),
                        " out of range of variable set.",
                    ),
                ),
            );
        }
        self.variables.set(index as usize, value);
        Ok(())
    }

    /// Pushes a deep clone of a value. Fails where the containers of the
    /// value are nested too deep.
    pub fn push_constant_value(&mut self, value: &Value) -> (r: Result<()>)
        requires
            old(self).wf(),
        ensures
            final(self).stable(old(self)),
            final(self).variables_view() == old(self).variables_view(),
            final(self).same_words(old(self)),
            is_plain(value@) ==> r is Ok && final(self).stack_view().last()@ == value@ && final(self).heap_view() == old(self).heap_view(),
            final(self).budget_left() == old(self).budget_left(),
            final(self).compilations() == old(self).compilations(),
            final(self).heap_view().len() >= old(self).heap_view().len(),
            final(self).heap_view().take(old(self).heap_view().len() as int) == old(self).heap_view(),
            r is Ok ==> final(self).stack_view().len() == old(self).stack_view().len() + 1
                && final(self).stack_view().drop_last() == old(self).stack_view(),
            r is Err ==> final(self).stack_view() == old(self).stack_view(),
            structure(old(self).heap_view(), *value, MAX_NESTING as nat) is Some ==> r is Ok
                && structure_above(
                final(self).heap_view(),
                final(self).stack_view().last(),
                MAX_NESTING as nat,
                old(self).heap_view().len(),
            ) == structure(old(self).heap_view(), *value, MAX_NESTING as nat),
    {
        match self.heap.deep_clone(value, MAX_NESTING) {
            Some(copy) => {
                self.push(copy);
                Ok(())
            },
            None => Err(self.error(String::from_str("Containers are nested too deep to clone."))),
        }
    }
}

/// What one execution of a block keeps track of: the loops that are marked,
/// each with the index where it starts and the index after its end, the
/// handlers of the catch blocks that are marked, and the number of contexts
/// that the block has marked and not released.
pub struct ExecutionFrame {
    pub loop_locations: Vec<(usize, usize)>,
    pub catch_locations: Vec<usize>,
    pub contexts: usize,
}

/// Where a jump by `offset` from the index `pc` leads in a block of `len`
/// instructions: to the index that far away, or to the end of the block where
/// that index lies outside of it.
pub open spec fn jump_destination(pc: int, offset: int, len: int) -> int {
    if 0 <= pc + offset <= len {
        pc + offset
    } else {
        len
    }
}

/// Whether two frames keep track of the same loops, catch blocks and
/// contexts.
pub open spec fn same_frame(a: ExecutionFrame, b: ExecutionFrame) -> bool {
    &&& a.loop_locations@ == b.loop_locations@
    &&& a.catch_locations@ == b.catch_locations@
    &&& a.contexts == b.contexts
}

/// A stack without its top value; the stack itself where it is empty.
pub open spec fn without_top(stack: Seq<Value>) -> Seq<Value> {
    if stack.len() > 0 {
        stack.drop_last()
    } else {
        stack
    }
}

/// The index that a jump with the given operand leads to from the index `pc`,
/// where the operand is a number whose integer is known without the host.
pub open spec fn jump_index(operand: Value, pc: int, len: int) -> Option<int> {
    match int_of_view(operand@) {
        Some(offset) => Some(jump_destination(pc, offset as int, len)),
        None => None,
    }
}

/// What an instruction that steers the execution does, at the index `pc` of
/// a block of `len` instructions: `r` is the index to go on with, `before`
/// and `after` are the frame, `stack` and `stack_after` the value stack,
/// before and after the instruction. Of an instruction that computes, this
/// says that the execution goes on with the next one.
pub open spec fn steered(
    op: Op,
    pc: int,
    len: int,
    before: ExecutionFrame,
    after: ExecutionFrame,
    stack: Seq<Value>,
    stack_after: Seq<Value>,
    r: Result<usize>,
) -> bool {
    match op {
        Op::JumpTarget(_) => r is Ok && r->Ok_0 == pc + 1 && same_frame(after, before) && stack_after
            == stack,
        Op::Jump(operand) => {
            &&& same_frame(after, before)
            &&& stack_after == stack
            &&& r is Ok <==> is_numeric_view(operand@)
            &&& r is Ok ==> jump_index(operand, pc, len) is Some ==> r->Ok_0 == jump_index(
                operand,
                pc,
                len,
            )->0
        },
        Op::JumpIfZero(operand) => {
            &&& same_frame(after, before)
            &&& stack_after == without_top(stack)
            &&& r is Ok <==> stack.len() > 0 && has_truth(stack.last()@) && is_numeric_view(
                operand@,
            )
            &&& r is Ok ==> jump_index(operand, pc, len) is Some ==> r->Ok_0 == if !bool_of_view(
                stack.last()@,
            ) {
                jump_index(operand, pc, len)->0
            } else {
                pc + 1
            }
        },
        Op::JumpIfNotZero(operand) => {
            &&& same_frame(after, before)
            &&& stack_after == without_top(stack)
            &&& r is Ok <==> stack.len() > 0 && has_truth(stack.last()@) && is_numeric_view(
                operand@,
            )
            &&& r is Ok ==> jump_index(operand, pc, len) is Some ==> r->Ok_0 == if bool_of_view(
                stack.last()@,
            ) {
                jump_index(operand, pc, len)->0
            } else {
                pc + 1
            }
        },
        Op::MarkLoopExit(operand) => {
            &&& after.catch_locations@ == before.catch_locations@
            &&& after.contexts == before.contexts
            &&& stack_after == stack
            &&& r is Ok <==> is_numeric_view(operand@)
            &&& r is Err ==> after.loop_locations@ == before.loop_locations@
            &&& r is Ok ==> {
                &&& r->Ok_0 == pc + 1
                &&& after.loop_locations@.len() == before.loop_locations@.len() + 1
                &&& after.loop_locations@.drop_last() == before.loop_locations@
                &&& after.loop_locations@.last().0 == pc + 1
                &&& jump_index(operand, pc, len) is Some ==> after.loop_locations@.last().1
                    == jump_index(operand, pc, len)->0
            }
        },
        Op::UnmarkLoopExit => {
            &&& after.catch_locations@ == before.catch_locations@
            &&& after.contexts == before.contexts
            &&& stack_after == stack
            &&& if before.loop_locations@.len() > 0 {
                r is Ok && r->Ok_0 == pc + 1 && after.loop_locations@
                    == before.loop_locations@.drop_last()
            } else {
                r is Err && after.loop_locations@ == before.loop_locations@
            }
        },
        Op::MarkCatch(operand) => {
            &&& after.loop_locations@ == before.loop_locations@
            &&& after.contexts == before.contexts
            &&& stack_after == stack
            &&& r is Ok <==> is_numeric_view(operand@)
            &&& r is Err ==> after.catch_locations@ == before.catch_locations@
            &&& r is Ok ==> {
                &&& r->Ok_0 == pc + 1
                &&& after.catch_locations@.len() == before.catch_locations@.len() + 1
                &&& after.catch_locations@.drop_last() == before.catch_locations@
                &&& jump_index(operand, pc, len) is Some ==> after.catch_locations@.last()
                    == jump_index(operand, pc, len)->0
            }
        },
        Op::UnmarkCatch => {
            &&& after.loop_locations@ == before.loop_locations@
            &&& after.contexts == before.contexts
            &&& stack_after == stack
            &&& if before.catch_locations@.len() > 0 {
                r is Ok && r->Ok_0 == pc + 1 && after.catch_locations@
                    == before.catch_locations@.drop_last()
            } else {
                r is Err && after.catch_locations@ == before.catch_locations@
            }
        },
        Op::MarkContext => {
            &&& after.loop_locations@ == before.loop_locations@
            &&& after.catch_locations@ == before.catch_locations@
            &&& stack_after == stack
            &&& r is Ok
            &&& r->Ok_0 == pc + 1
            &&& after.contexts == before.contexts + 1
        },
        Op::ReleaseContext => {
            &&& after.loop_locations@ == before.loop_locations@
            &&& after.catch_locations@ == before.catch_locations@
            &&& stack_after == stack
            &&& if before.contexts > 0 {
                r is Ok && r->Ok_0 == pc + 1 && after.contexts == before.contexts - 1
            } else {
                r is Err && after.contexts == before.contexts
            }
        },
        Op::JumpLoopStart => {
            &&& same_frame(after, before)
            &&& stack_after == stack
            &&& if before.loop_locations@.len() > 0 {
                r is Ok && r->Ok_0 == if before.loop_locations@.last().0 <= len {
                    before.loop_locations@.last().0 as int
                } else {
                    len
                }
            } else {
                r is Err
            }
        },
        Op::JumpLoopExit => {
            &&& same_frame(after, before)
            &&& stack_after == stack
            &&& if before.loop_locations@.len() > 0 {
                r is Ok && r->Ok_0 == if before.loop_locations@.last().1 <= len {
                    before.loop_locations@.last().1 as int
                } else {
                    len
                }
            } else {
                r is Err
            }
        },
        _ => same_frame(after, before) && (r is Ok ==> r->Ok_0 == pc + 1),
    }
}

/// Whether a handler takes nothing from the budget: the handlers of variables,
/// of constants and of the indices of fields, and those of the words that work
/// on the stack alone.
pub open spec fn frugal(handler: Handler) -> bool {
    match handler {
        Handler::Native(word) => crate::runtime::built_ins::base_words::works_on_stack(word),
        Handler::Variable(_) => true,
        Handler::FieldIndex(_) => true,
        Handler::Constant(_) => true,
        _ => false,
    }
}

/// Whether a frame is that of an execution that has marked nothing yet.
pub open spec fn is_new_frame(frame: ExecutionFrame) -> bool {
    frame.loop_locations@.len() == 0 && frame.catch_locations@.len() == 0 && frame.contexts == 0
}

/// Whether one instruction of a block took the execution from the
/// interpreter `before` with the frame `frame` to the interpreter `after`
/// with the frame `frame_after`, and came to `outcome`, the index to go on
/// with or an error. The instruction took one from the budget, steered the
/// execution as `steered` says and did to the interpreter what `worked`
/// says. The frame counts the contexts that the block has marked.
pub open spec fn stepped(
    instruction: Instruction,
    pc: int,
    len: int,
    frame: ExecutionFrame,
    frame_after: ExecutionFrame,
    before: SorthInterpreter,
    after: SorthInterpreter,
    outcome: Result<usize>,
) -> bool
    decreases before.calls_left(), before.budget_left(), 4int,
{
    &&& after.steady(&before)
    &&& after.budget_left() < before.budget_left()
    &&& before.spends_one(instruction.op) ==> after.budget_left() + 1 == before.budget_left()
    &&& after.depth() + frame.contexts == before.depth() + frame_after.contexts
    &&& after.depth() > frame_after.contexts
    &&& outcome is Ok ==> outcome->Ok_0 <= len
    &&& outcome is Err ==> frame_after.contexts == frame.contexts
    &&& !(instruction.op is MarkContext || instruction.op is ReleaseContext) ==> after.same_marks(
        &before,
    )
    &&& steered(
        instruction.op,
        pc,
        len,
        frame,
        frame_after,
        before.stack_view(),
        after.stack_view(),
        outcome,
    )
    &&& after.worked(
        &before,
        (before.budget_left() - 1) as nat,
        instruction.op,
        result_of(outcome),
    )
}

/// Whether `after` is the interpreter `before` with the given number of
/// contexts released: the stack, the heap and the budget are the same, the
/// contexts that remain start where they started, and the variables, the
/// handlers and the words are those that were there before the first of the
/// released contexts was marked.
pub open spec fn released(before: SorthInterpreter, after: SorthInterpreter, contexts: nat) -> bool {
    &&& after.steady(&before)
    &&& after.depth() + contexts == before.depth()
    &&& after.stack_view() == before.stack_view()
    &&& after.heap_view() == before.heap_view()
    &&& after.budget_left() == before.budget_left()
    &&& after.variables_view().len() <= before.variables_view().len()
    &&& after.variables_view() == before.variables_view().take(
        after.variables_view().len() as int,
    )
    &&& after.handlers_view().len() <= before.handlers_view().len()
    &&& after.handlers_view() == before.handlers_view().take(after.handlers_view().len() as int)
    &&& after.dictionary_view() == before.dictionary_view().take(before.depth() - contexts)
    &&& after.variable_marks() == before.variable_marks().take(before.depth() - contexts)
    &&& after.handler_marks() == before.handler_marks().take(before.depth() - contexts)
    &&& after.variables_view().len() == kept(
        before.variable_marks(),
        before.depth() - contexts,
        before.variables_view().len(),
    )
    &&& after.handlers_view().len() == kept(
        before.handler_marks(),
        before.depth() - contexts,
        before.handlers_view().len(),
    )
}

/// The number of items that the first `keep` contexts hold, where the
/// contexts start at `marks` and hold `len` items in all.
pub open spec fn kept(marks: Seq<nat>, keep: int, len: nat) -> nat {
    if 0 <= keep < marks.len() {
        marks[keep]
    } else {
        len
    }
}

/// Whether `after` is the interpreter `before` with one more context, which
/// holds nothing yet.
pub open spec fn marked(before: SorthInterpreter, after: SorthInterpreter) -> bool {
    &&& after.wf()
    &&& after.dictionary_view() == before.dictionary_view().push(
        Map::<Seq<char>, WordInfoView>::empty(),
    )
    &&& after.stack_view() == before.stack_view()
    &&& after.variables_view() == before.variables_view()
    &&& after.heap_view() == before.heap_view()
    &&& after.handlers_view() == before.handlers_view()
    &&& after.budget_left() == before.budget_left()
    &&& after.calls_left() == before.calls_left()
    &&& after.variable_marks() == before.variable_marks().push(before.variables_view().len())
    &&& after.handler_marks() == before.handler_marks().push(before.handlers_view().len())
}

/// Whether an error was caught: the innermost catch block of `frame` is
/// unmarked in `frame_after`, and `after` is the interpreter `before` with
/// the message of the error pushed.
pub open spec fn caught(
    before: SorthInterpreter,
    after: SorthInterpreter,
    frame: ExecutionFrame,
    frame_after: ExecutionFrame,
    error: ScriptError,
) -> bool {
    &&& frame.catch_locations@.len() > 0
    &&& frame_after.catch_locations@ == frame.catch_locations@.drop_last()
    &&& frame_after.loop_locations@ == frame.loop_locations@
    &&& frame_after.contexts == frame.contexts
    &&& after.same_but_stack(&before)
    &&& after.wf()
    &&& after.stack_view().len() == before.stack_view().len() + 1
    &&& after.stack_view().drop_last() == before.stack_view()
    &&& after.stack_view().last()@ == ValueView::String(error@.error)
}

/// The index at which a block of `len` instructions goes on after an error
/// was caught: the handler of the innermost catch block, or the end of the
/// block where the handler lies behind it.
pub open spec fn handler_index(frame: ExecutionFrame, len: int) -> int {
    if frame.catch_locations@.last() <= len {
        frame.catch_locations@.last() as int
    } else {
        len
    }
}

/// Whether the execution of a block of code from the index `pc` on, with the
/// frame `frame`, takes the interpreter `before` to the interpreter `after`
/// with the result `r`.
///
/// At the end of the block the execution ends well where the block has
/// released every context that it marked, and with an error, the contexts
/// released, where it has not. With no budget left it ends with an error,
/// the contexts released. Else one instruction is executed, as `stepped`
/// says. Where it gives an index the execution goes on there. Where it fails
/// and a catch block is marked, the execution goes on at the handler of the
/// innermost one, with the message of the error pushed. Where it fails and
/// none is marked, the execution ends with that error, the contexts
/// released.
///
/// This relation, that of a step and those of a call are defined by one
/// another. A proof that follows an execution unfolds them with fuel: one
/// level for each instruction, and five more where an instruction calls a
/// word.
pub open spec fn run(
    code: Seq<Instruction>,
    pc: int,
    frame: ExecutionFrame,
    before: SorthInterpreter,
    after: SorthInterpreter,
    r: Option<ScriptError>,
) -> bool
    decreases before.calls_left(), before.budget_left(), 5int,
{
    if pc < 0 || pc >= code.len() {
        if frame.contexts > 0 {
            r is Some && r->0@.error == "Unbalanced context handling detected."@ && released(
                before,
                after,
                frame.contexts as nat,
            )
        } else {
            r is None && after == before
        }
    } else if before.budget_left() == 0 {
        r is Some && r->0@.error == "The execution budget is used up."@ && released(
            before,
            after,
            frame.contexts as nat,
        )
    } else {
        exists|middle: SorthInterpreter, frame_then: ExecutionFrame, outcome: Result<usize>|
            #[trigger] tried(middle, frame_then, outcome) && middle.calls_left()
                == before.calls_left() && middle.budget_left() < before.budget_left() && stepped(
                code[pc],
                pc,
                code.len() as int,
                frame,
                frame_then,
                before,
                middle,
                outcome,
            ) && match outcome {
                Ok(next) => run(code, next as int, frame_then, middle, after, r),
                Err(error) => if frame_then.catch_locations@.len() > 0 {
                    exists|resumed: SorthInterpreter, frame_next: ExecutionFrame|
                        resumed.calls_left() == middle.calls_left() && resumed.budget_left()
                            == middle.budget_left() && #[trigger] caught(
                            middle,
                            resumed,
                            frame_then,
                            frame_next,
                            error,
                        ) && run(
                            code,
                            handler_index(frame_then, code.len() as int),
                            frame_next,
                            resumed,
                            after,
                            r,
                        )
                } else {
                    r == Some(error) && released(
                        middle,
                        after,
                        frame_then.contexts as nat,
                    )
                },
            }
    }
}

/// An execution releases the contexts that it has marked and no other:
/// however it ends, the contexts that were marked before the block started
/// are marked after it, and start where they started, among the variables
/// and among the handlers.
pub proof fn lemma_run_keeps_contexts(
    code: Seq<Instruction>,
    pc: int,
    frame: ExecutionFrame,
    before: SorthInterpreter,
    after: SorthInterpreter,
    r: Option<ScriptError>,
)
    requires
        before.wf(),
        before.depth() > frame.contexts,
        run(code, pc, frame, before, after, r),
    ensures
        after.wf(),
        after.depth() + frame.contexts == before.depth(),
        (after.variable_marks(), after.handler_marks()) == before.outer_marks(
            frame.contexts as nat,
        ),
    decreases before.budget_left(),
{
    before.lemma_marks();
    if pc < 0 || pc >= code.len() {
        if frame.contexts == 0 {
            assert(before.variable_marks().take(before.depth() as int)
                =~= before.variable_marks());
            assert(before.handler_marks().take(before.depth() as int) =~= before.handler_marks());
        }
    } else if before.budget_left() == 0 {
    } else {
        let (middle, frame_then, outcome) = choose|
            middle: SorthInterpreter,
            frame_then: ExecutionFrame,
            outcome: Result<usize>,
        |
            #[trigger] tried(middle, frame_then, outcome) && middle.calls_left()
                == before.calls_left() && middle.budget_left() < before.budget_left() && stepped(
                code[pc],
                pc,
                code.len() as int,
                frame,
                frame_then,
                before,
                middle,
                outcome,
            ) && match outcome {
                Ok(next) => run(code, next as int, frame_then, middle, after, r),
                Err(error) => if frame_then.catch_locations@.len() > 0 {
                    exists|resumed: SorthInterpreter, frame_next: ExecutionFrame|
                        resumed.calls_left() == middle.calls_left() && resumed.budget_left()
                            == middle.budget_left() && #[trigger] caught(
                            middle,
                            resumed,
                            frame_then,
                            frame_next,
                            error,
                        ) && run(
                            code,
                            handler_index(frame_then, code.len() as int),
                            frame_next,
                            resumed,
                            after,
                            r,
                        )
                } else {
                    r == Some(error) && released(
                        middle,
                        after,
                        frame_then.contexts as nat,
                    )
                },
            };
        let kept = before.depth() - frame.contexts;
        middle.lemma_marks();
        assert(middle.depth() - frame_then.contexts == kept);
        assert(middle.variable_marks().take(kept) =~= before.variable_marks().take(kept));
        assert(middle.handler_marks().take(kept) =~= before.handler_marks().take(kept));
        match outcome {
            Ok(next) => {
                lemma_run_keeps_contexts(code, next as int, frame_then, middle, after, r);
            },
            Err(error) => {
                if frame_then.catch_locations@.len() > 0 {
                    let (resumed, frame_next) = choose|
                        resumed: SorthInterpreter,
                        frame_next: ExecutionFrame,
                    |
                        resumed.calls_left() == middle.calls_left() && resumed.budget_left()
                            == middle.budget_left() && #[trigger] caught(
                            middle,
                            resumed,
                            frame_then,
                            frame_next,
                            error,
                        ) && run(
                            code,
                            handler_index(frame_then, code.len() as int),
                            frame_next,
                            resumed,
                            after,
                            r,
                        );
                    lemma_run_keeps_contexts(
                        code,
                        handler_index(frame_then, code.len() as int),
                        frame_next,
                        resumed,
                        after,
                        r,
                    );
                }
            },
        }
    }
}

/// A word of a script releases what it has marked: after its call, however
/// it ends, the contexts are those that were marked before it, and there are
/// as many variables and handlers as before it.
pub proof fn lemma_call_releases(
    before: SorthInterpreter,
    after: SorthInterpreter,
    budget: nat,
    function: std::rc::Rc<crate::runtime::interpreter::ScriptFunction>,
    r: Result<()>,
)
    requires
        before.wf(),
        before.calls_left() > 0,
        after.called(&before, budget, Handler::Scripted(function), r),
    ensures
        after.depth() == before.depth(),
        after.same_marks(&before),
        after.variables_view().len() == before.variables_view().len(),
        after.handlers_view().len() == before.handlers_view().len(),
{
    let stack = before.stack_view();
    let (entered, left, frame) = choose|
        entered: SorthInterpreter,
        left: SorthInterpreter,
        frame: ExecutionFrame,
    |
        #[trigger] nested(entered, left, frame) && entered.calls_left() < before.calls_left()
            && is_new_frame(frame) && SorthInterpreter::entered_word(
            before,
            budget,
            stack,
            entered,
        ) && run(function.code@, 0, frame, entered, left, failure(r))
            && SorthInterpreter::left_word(left, after);
    before.lemma_marks();
    entered.lemma_marks();
    lemma_run_keeps_contexts(function.code@, 0, frame, entered, left, failure(r));
    assert(entered.variable_marks().take(entered.depth() as int) =~= entered.variable_marks());
    assert(entered.handler_marks().take(entered.depth() as int) =~= entered.handler_marks());
    assert(after.variable_marks() =~= before.variable_marks());
    assert(after.handler_marks() =~= before.handler_marks());
}

/// Names a step of an execution: the interpreter after it, the frame after
/// it and what it came to. It holds of any three.
pub open spec fn tried(middle: SorthInterpreter, frame: ExecutionFrame, outcome: Result<usize>) -> bool {
    true
}

/// Names the execution of the code of a word: the interpreter at its start,
/// the interpreter at its end and its frame. It holds of any three.
pub open spec fn nested(entered: SorthInterpreter, left: SorthInterpreter, frame: ExecutionFrame) -> bool {
    true
}

/// The error that a result is, if it is one.
pub open spec fn failure(r: Result<()>) -> Option<ScriptError> {
    match r {
        Ok(_) => None,
        Err(error) => Some(error),
    }
}

/// The result of an instruction as the result of what it did: the index to go
/// on with aside.
pub open spec fn result_of(r: Result<usize>) -> Result<()> {
    match r {
        Ok(_) => Ok(()),
        Err(error) => Err(error),
    }
}

impl SorthInterpreter {
    /// What an instruction does to the interpreter, `before` being the
    /// interpreter before it, `budget` the number of instructions that may
    /// still be executed when it starts, and `r` what it came to. An
    /// instruction that
    /// pushes a constant pushes a deep clone of it. The instructions of
    /// variables read and write the variable whose index is on the stack, and
    /// define a variable or a constant with a word of its name. `Execute`
    /// calls a word. The instructions that steer the execution leave the
    /// heap as it is, and all but those of contexts leave the variables and
    /// the words as they are.
    pub open spec fn worked(&self, before: &SorthInterpreter, budget: nat, op: Op, r: Result<()>) -> bool
        decreases before.calls_left(), before.budget_left(), 3int,
    {
        let stack = before.stack_view();
        let variables = before.variables_view();
        match op {
            Op::PushConstantValue(value) => {
                &&& self.variables_view() == variables
                &&& self.same_words(before)
                &&& extends(self.heap_view(), before.heap_view())
                &&& r is Ok ==> self.stack_view().len() == stack.len() + 1
                    && self.stack_view().drop_last() == stack
                &&& r is Err ==> self.stack_view() == stack
                &&& structure(before.heap_view(), value, MAX_NESTING as nat) is Some ==> r is Ok
                    && structure_above(
                    self.heap_view(),
                    self.stack_view().last(),
                    MAX_NESTING as nat,
                    before.heap_view().len(),
                ) == structure(before.heap_view(), value, MAX_NESTING as nat)
                &&& is_plain(value@) ==> r is Ok && self.stack_view().last()@ == value@
                    && self.heap_view() == before.heap_view()
            },
            Op::ReadVariable => {
                &&& self.heap_view() == before.heap_view()
                &&& self.variables_view() == variables
                &&& self.same_words(before)
                &&& r is Ok ==> self.stack_view().len() == stack.len()
                &&& r is Err ==> self.stack_view() == without_top(stack)
                &&& stack.len() > 0 ==> match popped_int(stack.last()@) {
                    Some(i) => if 0 <= i < variables.len() {
                        r is Ok && self.stack_view().drop_last() == stack.drop_last()
                            && self.stack_view().last()@ == variables[i as int]@
                    } else {
                        r is Err
                    },
                    None => true,
                }
            },
            Op::WriteVariable => {
                &&& self.heap_view() == before.heap_view()
                &&& self.same_words(before)
                &&& r is Err ==> self.variables_view() == variables
                &&& stack.len() >= 2 ==> match popped_int(stack.last()@) {
                    Some(i) => if 0 <= i < variables.len() {
                        r is Ok && self.stack_view() == stack.drop_last().drop_last()
                            && self.variables_view() == variables.update(
                            i as int,
                            stack[stack.len() - 2],
                        )
                    } else {
                        r is Err
                    },
                    None => true,
                }
            },
            Op::DefVariable(value) => {
                &&& self.stack_view() == stack
                &&& self.heap_view() == before.heap_view()
                &&& r is Ok <==> is_stringable_view(value@) && variables.len() < usize::MAX
                    && before.handlers_view().len() < usize::MAX
                &&& r is Err ==> self.variables_view() == variables && self.same_words(before)
                &&& r is Ok ==> self.defined(before, value) && self.variables_view()
                    == variables.push(Value::Nil) && self.handlers_view().last().spec_handler()
                    == Handler::Variable(variables.len() as usize)
            },
            Op::DefConstant(value) => {
                &&& self.heap_view() == before.heap_view()
                &&& self.variables_view() == variables
                &&& r is Ok <==> is_stringable_view(value@) && stack.len() > 0
                    && before.handlers_view().len() < usize::MAX
                &&& r is Err ==> self.stack_view() == stack && self.same_words(before)
                &&& r is Ok ==> self.defined(before, value) && self.stack_view()
                    == stack.drop_last() && self.handlers_view().last().spec_handler()
                    == Handler::Constant(stack.last())
            },
            Op::Execute(value) => self.value_executed(before, budget, value, r),
            Op::MarkContext => {
                &&& self.heap_view() == before.heap_view()
                &&& self.variables_view() == variables
                &&& self.handlers_view() == before.handlers_view()
                &&& self.dictionary_view() == before.dictionary_view().push(
                    Map::<Seq<char>, WordInfoView>::empty(),
                )
                &&& self.variable_marks() == before.variable_marks().push(variables.len())
                &&& self.handler_marks() == before.handler_marks().push(
                    before.handlers_view().len(),
                )
            },
            Op::ReleaseContext => {
                &&& self.heap_view() == before.heap_view()
                &&& self.variables_view() == variables.take(self.variables_view().len() as int)
                &&& self.variables_view().len() <= variables.len()
                &&& self.handlers_view() == before.handlers_view().take(
                    self.handlers_view().len() as int,
                )
                &&& self.handlers_view().len() <= before.handlers_view().len()
                &&& r is Ok ==> self.dictionary_view() == before.dictionary_view().drop_last()
                &&& r is Ok ==> self.variable_marks() == before.variable_marks().drop_last()
                    && self.variables_view().len() == before.variable_marks().last()
                &&& r is Ok ==> self.handler_marks() == before.handler_marks().drop_last()
                    && self.handlers_view().len() == before.handler_marks().last()
                &&& r is Err ==> self.variables_view() == variables && self.same_words(before)
                    && self.same_marks(before)
            },
            _ => self.heap_view() == before.heap_view() && self.variables_view() == variables
                && self.same_words(before),
        }
    }

    /// Whether a word was defined under the name that a value is: the word
    /// has a handler of its own after the handlers that were, and is found
    /// under the name.
    pub open spec fn defined(&self, before: &SorthInterpreter, name: Value) -> bool {
        &&& self.handlers_view().len() == before.handlers_view().len() + 1
        &&& self.handlers_view().drop_last() == before.handlers_view()
        &&& lookup(self.dictionary_view(), self.handlers_view().last().spec_name()) is Some
        &&& lookup(
            self.dictionary_view(),
            self.handlers_view().last().spec_name(),
        )->0.handler_index == before.handlers_view().len()
        &&& string_of_view(name@) is Some ==> self.handlers_view().last().spec_name()
            == string_of_view(name@)->0
    }

    /// The index that the offset of a jump at the index `pc` leads to. Fails
    /// where the operand of the jump is no number, as a label is that was not
    /// resolved.
    pub fn absolute_index<H: Host>(&self, host: &H, pc: usize, len: usize, relative_index: &Value) -> (r:
        Result<usize>)
        requires
            pc <= len,
        ensures
            r is Ok <==> is_numeric_view(relative_index@),
            r is Ok ==> r->Ok_0 <= len,
            r is Ok && int_of_view(relative_index@) is Some ==> r->Ok_0 == jump_destination(
                pc as int,
                int_of_view(relative_index@)->0 as int,
                len as int,
            ),
    {
        if !relative_index.is_numeric() {
            return Err(self.error(String::from_str("Invalid jump offset.")));
        }
        let offset = relative_index.get_int_val(host);
        let target: i128 = pc as i128 + offset as i128;
        if 0 <= target && target <= len as i128 {
            Ok(target as usize)
        } else {
            Ok(len)
        }
    }

    /// Releases the given number of contexts.
    fn cleanup_contexts(&mut self, contexts: usize)
        requires
            old(self).wf(),
            old(self).depth() > contexts,
        ensures
            final(self).steady(old(self)),
            final(self).depth() == old(self).depth() - contexts,
            final(self).stack_view() == old(self).stack_view(),
            final(self).heap_view() == old(self).heap_view(),
            released(*old(self), *final(self), contexts as nat),
    {
        let mut k: usize = 0;
        assert(self.variables_view().take(self.variables_view().len() as int)
            =~= self.variables_view());
        assert(self.handlers_view().take(self.handlers_view().len() as int)
            =~= self.handlers_view());
        assert(self.dictionary_view().take(self.depth() as int) =~= self.dictionary_view());
        proof {
            self.lemma_marks();
            assert(self.variable_marks().take(self.depth() as int) =~= self.variable_marks());
            assert(self.handler_marks().take(self.depth() as int) =~= self.handler_marks());
        }
        while k < contexts
            invariant
                k <= contexts,
                old(self).variable_marks().len() == old(self).depth(),
                old(self).handler_marks().len() == old(self).depth(),
                self.steady(old(self)),
                self.depth() == old(self).depth() - k,
                old(self).depth() > contexts,
                self.stack_view() == old(self).stack_view(),
                self.heap_view() == old(self).heap_view(),
                self.budget_left() == old(self).budget_left(),
                self.variables_view().len() <= old(self).variables_view().len(),
                self.variables_view() == old(self).variables_view().take(
                    self.variables_view().len() as int,
                ),
                self.handlers_view().len() <= old(self).handlers_view().len(),
                self.handlers_view() == old(self).handlers_view().take(
                    self.handlers_view().len() as int,
                ),
                self.dictionary_view() == old(self).dictionary_view().take(old(self).depth() - k),
                self.variable_marks() == old(self).variable_marks().take(old(self).depth() - k),
                self.handler_marks() == old(self).handler_marks().take(old(self).depth() - k),
                self.variables_view().len() == kept(
                    old(self).variable_marks(),
                    old(self).depth() - k,
                    old(self).variables_view().len(),
                ),
                self.handlers_view().len() == kept(
                    old(self).handler_marks(),
                    old(self).depth() - k,
                    old(self).handlers_view().len(),
                ),
            decreases contexts - k,
        {
            proof {
                self.lemma_marks();
            }
            self.release_context();
            assert(self.variable_marks() =~= old(self).variable_marks().take(
                old(self).depth() - k - 1,
            ));
            assert(self.handler_marks() =~= old(self).handler_marks().take(
                old(self).depth() - k - 1,
            ));
            assert(self.variables_view() =~= old(self).variables_view().take(
                self.variables_view().len() as int,
            ));
            assert(self.handlers_view() =~= old(self).handlers_view().take(
                self.handlers_view().len() as int,
            ));
            assert(self.dictionary_view() =~= old(self).dictionary_view().take(
                old(self).depth() - k - 1,
            ));
            k += 1;
        }
    }

    /// What executing a value comes to, `before` being the interpreter
    /// before and `budget` the number of instructions that may still be
    /// executed: the call of the word that a string names or that an integer
    /// is the index of, and a failure for any other value.
    pub open spec fn value_executed(
        &self,
        before: &SorthInterpreter,
        budget: nat,
        value: Value,
        r: Result<()>,
    ) -> bool
        decreases before.calls_left(), before.budget_left(), 2int,
    {
        match before.handler_of(value) {
            Some(handler) => before.calls_left() > 0 ==> self.called(before, budget, handler, r),
            None => r is Err && (!(value@ is String || value@ is Int || value@ is Token)
                ==> self.stack_view() == before.stack_view() && self.heap_view()
                == before.heap_view()),
        }
    }

    /// The handler of the word that a value names or is the index of, if
    /// there is one: a string and a word token name a word, and an integer is
    /// the index of a handler.
    pub open spec fn handler_of(&self, value: Value) -> Option<Handler> {
        match value@ {
            ValueView::String(name) => self.handler_named(name),
            ValueView::Token(TokenView::Word(_, name)) => self.handler_named(name),
            ValueView::Int(index) => if 0 <= index < self.handlers_view().len() {
                Some(self.handlers_view()[index as int].spec_handler())
            } else {
                None
            },
            _ => None,
        }
    }

    /// The handler of the word of the given name, if the word is defined.
    pub open spec fn handler_named(&self, name: Seq<char>) -> Option<Handler> {
        match lookup(self.dictionary_view(), name) {
            Some(info) => if info.handler_index < self.handlers_view().len() {
                Some(self.handlers_view()[info.handler_index as int].spec_handler())
            } else {
                None
            },
            None => None,
        }
    }

    /// Whether an instruction takes nothing from the budget but the one that
    /// every instruction takes: every instruction does but the call of a
    /// word that runs code of its own.
    pub open spec fn spends_one(&self, op: Op) -> bool {
        match op {
            Op::Execute(value) => match self.handler_of(value) {
                Some(handler) => frugal(handler),
                None => true,
            },
            _ => true,
        }
    }

    /// Executes a value: the word that a string or a word token names, or
    /// the word with the index that an integer is. Fails on any other value
    /// and where there is no such word.
    pub fn execute_value<H: Host>(&mut self, host: &mut H, value: &Value) -> (r: Result<()>)
        requires
            old(self).wf(),
        ensures
            final(self).stable(old(self)),
            final(self).value_executed(old(self), old(self).budget_left(), *value, r),
            old(self).spends_one(Op::Execute(*value)) ==> final(self).budget_left() == old(self).budget_left(),
        decreases old(self).calls_left(), 6int,
    {
        let location = match &self.current_location {
            Some(l) => Some(l.clone()),
            None => None,
        };
        match value {
            Value::String(word_name) => self.execute_word_named(host, &location, word_name),
            Value::Token(Token::Word(token_location, word_name)) => self.execute_word_named(
                host,
                &Some(token_location.clone()),
                word_name,
            ),
            Value::Int(index) => {
                let count = self.word_handlers.len();
                if *index < 0 || *index as u64 >= count as u64 {
                    Err(self.error(String::from_str("Word handler index not found.")))
                } else {
                    self.execute_word_index(host, &location, *index as usize)
                }
            },
            _ => Err(self.error(String::from_str("Value is not executable."))),
        }
    }

    /// Executes one instruction of a block of `len` instructions, which
    /// stands at the index `pc`, and gives the index of the instruction to
    /// go on with.
    #[verifier::rlimit(40)]
    pub fn execute_instruction<H: Host>(
        &mut self,
        host: &mut H,
        instruction: &Instruction,
        pc: usize,
        len: usize,
        frame: &mut ExecutionFrame,
    ) -> (r: Result<usize>)
        requires
            old(self).wf(),
            pc < len,
            old(self).depth() > old(frame).contexts,
        ensures
            final(self).steady(old(self)),
            final(self).depth() + old(frame).contexts == old(self).depth() + final(frame).contexts,
            final(self).depth() > final(frame).contexts,
            r is Ok ==> r->Ok_0 <= len,
            r is Err ==> final(frame).contexts == old(frame).contexts,
            steered(
                instruction.op,
                pc as int,
                len as int,
                *old(frame),
                *final(frame),
                old(self).stack_view(),
                final(self).stack_view(),
                r,
            ),
            final(self).worked(old(self), old(self).budget_left(), instruction.op, result_of(r)),
            !(instruction.op is MarkContext || instruction.op is ReleaseContext)
                ==> final(self).same_marks(old(self)),
            final(self).outer_marks(final(frame).contexts as nat) == old(self).outer_marks(
                old(frame).contexts as nat,
            ),
            old(self).spends_one(instruction.op) ==> final(self).budget_left() == old(self).budget_left(),
        decreases old(self).calls_left(), 7int,
    {
        match &instruction.op {
            Op::DefVariable(value) => {
                let done = self.define_variable(host, value);
                assert(self.worked(old(self), old(self).budget_left(), instruction.op, done));
                match done {
                    Ok(()) => Ok(pc + 1),
                    Err(e) => Err(e),
                }
            },
            Op::DefConstant(value) => {
                let done = self.define_constant(host, value);
                assert(self.worked(old(self), old(self).budget_left(), instruction.op, done));
                match done {
                    Ok(()) => Ok(pc + 1),
                    Err(e) => Err(e),
                }
            },
            Op::ReadVariable => {
                let done = self.read_variable(host);
                assert(self.worked(old(self), old(self).budget_left(), instruction.op, done));
                match done {
                    Ok(()) => Ok(pc + 1),
                    Err(e) => Err(e),
                }
            },
            Op::WriteVariable => {
                let done = self.write_variable(host);
                assert(self.worked(old(self), old(self).budget_left(), instruction.op, done));
                match done {
                    Ok(()) => Ok(pc + 1),
                    Err(e) => Err(e),
                }
            },
            Op::Execute(value) => {
                let done = self.execute_value(host, value);
                let out = match done {
                    Ok(()) => Ok(pc + 1),
                    Err(e) => Err(e),
                };
                proof {
                    assert(self.worked(old(self), old(self).budget_left(), instruction.op, result_of(out)));
                }
                out
            },
            Op::PushConstantValue(value) => {
                let done = self.push_constant_value(value);
                assert(self.worked(old(self), old(self).budget_left(), instruction.op, done));
                match done {
                    Ok(()) => Ok(pc + 1),
                    Err(e) => Err(e),
                }
            },
            Op::MarkLoopExit(value) => match self.absolute_index(host, pc, len, value) {
                Ok(absolute) => {
                    frame.loop_locations.push((pc + 1, absolute));
                    assert(frame.loop_locations@.drop_last() =~= old(frame).loop_locations@);
                    Ok(pc + 1)
                },
                Err(e) => Err(e),
            },
            Op::UnmarkLoopExit => match frame.loop_locations.pop() {
                Some(_) => Ok(pc + 1),
                None => Err(self.error(String::from_str("Unbalanced loop exit marker."))),
            },
            Op::MarkCatch(value) => match self.absolute_index(host, pc, len, value) {
                Ok(absolute) => {
                    frame.catch_locations.push(absolute);
                    assert(frame.catch_locations@.drop_last() =~= old(frame).catch_locations@);
                    Ok(pc + 1)
                },
                Err(e) => Err(e),
            },
            Op::UnmarkCatch => match frame.catch_locations.pop() {
                Some(_) => Ok(pc + 1),
                None => Err(self.error(String::from_str("Unbalanced catch exit marker."))),
            },
            Op::MarkContext => {
                // The frame counts fewer contexts than the dictionary has,
                // whose number fits in a `usize`.
                let _ = self.dictionary.depth();
                proof {
                    self.lemma_marks();
                }
                self.mark_context();
                frame.contexts = frame.contexts + 1;
                proof {
                    let kept = old(self).depth() - old(frame).contexts;
                    assert(self.variable_marks().take(kept) =~= old(self).variable_marks().take(
                        kept,
                    ));
                    assert(self.handler_marks().take(kept) =~= old(self).handler_marks().take(
                        kept,
                    ));
                }
                Ok(pc + 1)
            },
            Op::ReleaseContext => {
                if frame.contexts == 0 {
                    assert(self.variables_view().take(self.variables_view().len() as int)
                        =~= self.variables_view());
                    assert(self.handlers_view().take(self.handlers_view().len() as int)
                        =~= self.handlers_view());
                    Err(self.error(String::from_str("Unbalanced context release detected.")))
                } else {
                    proof {
                        self.lemma_marks();
                    }
                    self.release_context();
                    frame.contexts = frame.contexts - 1;
                    proof {
                        let kept = old(self).depth() - old(frame).contexts;
                        assert(self.variable_marks().take(kept) =~= old(
                            self,
                        ).variable_marks().take(kept));
                        assert(self.handler_marks().take(kept) =~= old(self).handler_marks().take(
                            kept,
                        ));
                    }
                    Ok(pc + 1)
                }
            },
            Op::Jump(value) => self.absolute_index(host, pc, len, value),
            Op::JumpIfZero(value) => self.jump_if_match(host, pc, len, value, false),
            Op::JumpIfNotZero(value) => self.jump_if_match(host, pc, len, value, true),
            Op::JumpLoopStart => {
                let count = frame.loop_locations.len();
                if count == 0 {
                    Err(self.error(String::from_str("JumpLoopStart outside of loop.")))
                } else {
                    let start = frame.loop_locations[count - 1].0;
                    if start <= len {
                        Ok(start)
                    } else {
                        Ok(len)
                    }
                }
            },
            Op::JumpLoopExit => {
                let count = frame.loop_locations.len();
                if count == 0 {
                    Err(self.error(String::from_str("JumpLoopExit outside of loop.")))
                } else {
                    let end = frame.loop_locations[count - 1].1;
                    if end <= len {
                        Ok(end)
                    } else {
                        Ok(len)
                    }
                }
            },
            Op::JumpTarget(_) => Ok(pc + 1),
        }
    }

    /// Takes a boolean off the stack and gives the index to go on with after
    /// a conditional jump at the index `pc`: the destination of the jump
    /// where the boolean is `test_value`, and the next index where it is not.
    pub fn jump_if_match<H: Host>(
        &mut self,
        host: &H,
        pc: usize,
        len: usize,
        relative_index: &Value,
        test_value: bool,
    ) -> (r: Result<usize>)
        requires
            pc < len,
        ensures
            final(self).same_but_stack(old(self)),
            final(self).stack_view() == old(self).popped(),
            r is Ok <==> old(self).stack_view().len() > 0 && has_truth(
                old(self).stack_view().last()@,
            ) && is_numeric_view(relative_index@),
            r is Ok ==> r->Ok_0 <= len,
            r is Ok && int_of_view(relative_index@) is Some ==> r->Ok_0 == if bool_of_view(
                old(self).stack_view().last()@,
            ) == test_value {
                jump_destination(pc as int, int_of_view(relative_index@)->0 as int, len as int)
            } else {
                pc + 1
            },
    {
        let found_value = match self.pop_as_bool() {
            Ok(found) => found,
            Err(e) => {
                return Err(e);
            },
        };
        let absolute = match self.absolute_index(host, pc, len, relative_index) {
            Ok(absolute) => absolute,
            Err(e) => {
                return Err(e);
            },
        };
        if found_value == test_value {
            Ok(absolute)
        } else {
            Ok(pc + 1)
        }
    }

    /// Executes a block of code under the given name.
    ///
    /// The instructions run in order, jumps aside. An instruction that has a
    /// location makes it the current location and stands on the call stack
    /// while it runs. Where an instruction fails and a catch block is marked,
    /// the innermost catch block is unmarked, the text of the error is pushed,
    /// and the block goes on at the handler of the catch block; where none is
    /// marked, the execution ends with the error. Each instruction takes one
    /// from the budget, and the execution ends with an error when the budget
    /// is used up.
    ///
    /// However the execution ends, the contexts that the block has marked are
    /// released: after the call the same contexts are marked as before it. A
    /// block that ends with contexts of its own still marked fails.
    #[verifier::rlimit(40)]
    pub fn execute_code<H: Host>(&mut self, host: &mut H, name: &String, code: &ByteCode) -> (r:
        Result<()>)
        requires
            old(self).wf(),
        ensures
            final(self).stable(old(self)),
            exists|frame: ExecutionFrame|
                is_new_frame(frame) && #[trigger] run(
                    code@,
                    0,
                    frame,
                    *old(self),
                    *final(self),
                    failure(r),
                ),
            code@.len() == 0 ==> r is Ok && *final(self) == *old(self),
            code@.len() > 0 && old(self).budget_left() == 0 ==> r is Err,
        decreases old(self).calls_left(), 8int,
    {
        let mut frame = ExecutionFrame {
            loop_locations: Vec::new(),
            catch_locations: Vec::new(),
            contexts: 0,
        };
        let ghost first = frame;
        let mut pc: usize = 0;
        proof {
            self.lemma_marks();
            assert(self.variable_marks().take(self.depth() as int) =~= self.variable_marks());
            assert(self.handler_marks().take(self.depth() as int) =~= self.handler_marks());
        }
        while pc < code.len()
            invariant
                pc <= code@.len(),
                self.steady(old(self)),
                old(self).depth() >= 1,
                self.depth() == old(self).depth() + frame.contexts,
                self.outer_marks(frame.contexts as nat) == old(self).outer_marks(0),
                old(self).outer_marks(0) == (old(self).variable_marks(), old(self).handler_marks()),
                old(self).budget_left() == 0 ==> pc == 0,
                code@.len() == 0 ==> frame.contexts == 0 && *self == *old(self),
                is_new_frame(first),
                forall|after: SorthInterpreter, r: Option<ScriptError>| #[trigger]
                    run(code@, pc as int, frame, *self, after, r) ==> run(
                        code@,
                        0,
                        first,
                        *old(self),
                        after,
                        r,
                    ),
            decreases self.budget_left(),
        {
            let ghost entered = *self;
            let ghost frame_before = frame;
            let ghost at = pc as int;
            if self.budget == 0 {
                self.cleanup_contexts(frame.contexts);
                let error = self.error(String::from_str("The execution budget is used up."));
                proof {
                    assert(run(
                        code@,
                        at,
                        frame_before,
                        entered,
                        *self,
                        Some(error),
                    ));
                }
                return Err(error);
            }
            self.budget = self.budget - 1;
            let instruction = &code[pc];
            let mut call_stack_pushed = false;
            match &instruction.location {
                Some(location) => {
                    self.current_location = Some(location.clone());
                    self.call_stack_push(name.clone(), location.clone());
                    call_stack_pushed = true;
                },
                None => {},
            }
            let result = self.execute_instruction(host, instruction, pc, code.len(), &mut frame);
            if call_stack_pushed {
                let _ = self.call_stack_pop();
            }
            let ghost middle = *self;
            let ghost frame_then = frame;
            proof {
                reveal_with_fuel(SorthInterpreter::worked, 2);
                reveal_with_fuel(SorthInterpreter::value_executed, 2);
                reveal_with_fuel(SorthInterpreter::called, 2);
                reveal_with_fuel(SorthInterpreter::called_on, 2);
                assert(tried(middle, frame_then, result));
                assert(middle.worked(
                    &entered,
                    (entered.budget_left() - 1) as nat,
                    code@[at].op,
                    result_of(result),
                ));
                assert(stepped(
                    code@[at],
                    at,
                    code@.len() as int,
                    frame_before,
                    frame_then,
                    entered,
                    middle,
                    result,
                ));
            }
            match result {
                Ok(next) => {
                    pc = next;
                    proof {
                        assert forall|after: SorthInterpreter, r: Option<ScriptError>| #[trigger]
                            run(code@, pc as int, frame, *self, after, r) implies run(
                            code@,
                            0,
                            first,
                            *old(self),
                            after,
                            r,
                        ) by {
                            assert(run(code@, at, frame_before, entered, after, r));
                        }
                    }
                },
                Err(error) => {
                    match frame.catch_locations.pop() {
                        Some(handler) => {
                            self.push(Value::String(error.error().clone()));
                            pc = if handler <= code.len() {
                                handler
                            } else {
                                code.len()
                            };
                            proof {
                                assert(self.stack_view().drop_last() =~= middle.stack_view());
                                assert(caught(middle, *self, frame_then, frame, error));
                                assert forall|after: SorthInterpreter, r: Option<ScriptError>| #[trigger]
                                    run(code@, pc as int, frame, *self, after, r) implies run(
                                    code@,
                                    0,
                                    first,
                                    *old(self),
                                    after,
                                    r,
                                ) by {
                                    assert(run(code@, at, frame_before, entered, after, r));
                                }
                            }
                        },
                        None => {
                            self.cleanup_contexts(frame.contexts);
                            proof {
                                assert(run(
                                    code@,
                                    at,
                                    frame_before,
                                    entered,
                                    *self,
                                    Some(error),
                                ));
                            }
                            return Err(error);
                        },
                    }
                },
            }
        }
        let ghost ended = *self;
        if frame.contexts > 0 {
            self.cleanup_contexts(frame.contexts);
            let error = self.error(String::from_str("Unbalanced context handling detected."));
            proof {
                assert(run(code@, pc as int, frame, ended, *self, Some(error)));
            }
            return Err(error);
        }
        proof {
            assert(run(code@, pc as int, frame, ended, *self, None::<ScriptError>));
            self.lemma_marks();
            assert(self.variable_marks().take(self.depth() as int) =~= self.variable_marks());
            assert(self.handler_marks().take(self.depth() as int) =~= self.handler_marks());
        }
        Ok(())
    }

    /// Runs a handler under the name of its word, on the call stack: the
    /// location becomes the current location, the word stands on the call
    /// stack while its handler runs, and one call less may be nested
    /// meanwhile. Fails where no more call may be nested.
    pub fn execute_word_handler<H: Host>(
        &mut self,
        host: &mut H,
        location: &Option<SourceLocation>,
        word_handler_info: &WordHandlerInfo,
    ) -> (r: Result<()>)
        requires
            old(self).wf(),
        ensures
            final(self).stable(old(self)),
            frugal(word_handler_info.spec_handler()) ==> final(self).budget_left() == old(self).budget_left(),
            old(self).calls_left() == 0 ==> r is Err && final(self).stack_view() == old(self).stack_view() && final(self).heap_view() == old(self).heap_view(),
            old(self).calls_left() > 0 ==> final(self).called(
                old(self),
                old(self).budget_left(),
                word_handler_info.spec_handler(),
                r,
            ),
        decreases old(self).calls_left(), 2int,
    {
        let call_location = match location {
            Some(l) => {
                self.current_location = Some(l.clone());
                l.clone()
            },
            None => {
                self.current_location = None;
                SourceLocation::new()
            },
        };
        if self.call_depth_left == 0 {
            return Err(self.error(String::from_str("Too many calls are nested.")));
        }
        self.call_stack_push(word_handler_info.name().clone(), call_location);
        self.call_depth_left = self.call_depth_left - 1;
        let ghost inside = *self;
        let result = self.run_handler(host, word_handler_info.name(), word_handler_info.handler());
        let ghost done = *self;
        self.call_depth_left = self.call_depth_left + 1;
        let _ = self.call_stack_pop();
        proof {
            match word_handler_info.spec_handler() {
                Handler::Scripted(function) => {
                    let (entered, left, frame) = choose|
                        entered: SorthInterpreter,
                        left: SorthInterpreter,
                        frame: ExecutionFrame,
                    |
                        is_new_frame(frame) && marked(inside, entered) && #[trigger] run(
                            function.code@,
                            0,
                            frame,
                            entered,
                            left,
                            failure(result),
                        ) && released(left, done, 1);
                    assert(left.dictionary_view().take(left.depth() - 1)
                        =~= left.dictionary_view().drop_last());
                    assert(SorthInterpreter::entered_word(
                        *old(self),
                        old(self).budget_left(),
                        old(self).stack_view(),
                        entered,
                    ));
                    assert(SorthInterpreter::left_word(left, *self));
                    assert(nested(entered, left, frame));
                },
                _ => {},
            }
        }
        result
    }

    /// Executes the word that the dictionary entry describes. Fails where the
    /// entry names no handler.
    pub fn execute_word<H: Host>(
        &mut self,
        host: &mut H,
        location: &Option<SourceLocation>,
        word: &WordInfo,
    ) -> (r: Result<()>)
        requires
            old(self).wf(),
        ensures
            final(self).stable(old(self)),
            word.handler_index >= old(self).handlers_view().len() || frugal(
                old(self).handlers_view()[word.handler_index as int].spec_handler(),
            ) ==> final(self).budget_left() == old(self).budget_left(),
            word.handler_index >= old(self).handlers_view().len() ==> r is Err,
            word.handler_index < old(self).handlers_view().len() && old(self).calls_left() > 0
                ==> final(self).called(
                old(self),
                old(self).budget_left(),
                old(self).handlers_view()[word.handler_index as int].spec_handler(),
                r,
            ),
            old(self).calls_left() == 0 ==> r is Err && final(self).stack_view() == old(self).stack_view() && final(self).heap_view() == old(self).heap_view(),
        decreases old(self).calls_left(), 4int,
    {
        self.execute_word_index(host, location, word.handler_index)
    }

    /// Executes the word of the given name. Fails where no such word is
    /// defined.
    pub fn execute_word_named<H: Host>(
        &mut self,
        host: &mut H,
        location: &Option<SourceLocation>,
        word: &String,
    ) -> (r: Result<()>)
        requires
            old(self).wf(),
        ensures
            final(self).stable(old(self)),
            match old(self).handler_named(word@) {
                Some(handler) => old(self).calls_left() > 0 ==> final(self).called(
                    old(self),
                    old(self).budget_left(),
                    handler,
                    r,
                ),
                None => r is Err,
            },
            match old(self).handler_named(word@) {
                Some(handler) => frugal(handler),
                None => true,
            } ==> final(self).budget_left() == old(self).budget_left(),
            lookup(old(self).dictionary_view(), word@) is None ==> r is Err,
            match lookup(old(self).dictionary_view(), word@) {
                Some(info) => info.handler_index < old(self).handlers_view().len() && old(self).calls_left() > 0 ==> final(self).called(
                    old(self),
                    old(self).budget_left(),
                    old(self).handlers_view()[info.handler_index as int].spec_handler(),
                    r,
                ),
                None => true,
            },
            old(self).calls_left() == 0 ==> r is Err && final(self).stack_view() == old(self).stack_view() && final(self).heap_view() == old(self).heap_view(),
            lookup(old(self).dictionary_view(), word@) is None ==> final(self).stack_view() == old(self).stack_view() && final(self).heap_view() == old(self).heap_view() && r->Err_0@.error == "Word "@ + word@ + " not found."@,
        decreases old(self).calls_left(), 5int,
    {
        let index = match self.dictionary.try_get(word) {
            Some(word_info) => word_info.handler_index,
            None => {
                return Err(
                    self.error(concat3("Word ", word.as_str(), " not found.")),
                );
            },
        };
        self.execute_word_index(host, location, index)
    }

    /// Executes the word whose handler has the given index. Fails where there
    /// is no such handler.
    pub fn execute_word_index<H: Host>(
        &mut self,
        host: &mut H,
        location: &Option<SourceLocation>,
        index: usize,
    ) -> (r: Result<()>)
        requires
            old(self).wf(),
        ensures
            final(self).stable(old(self)),
            index >= old(self).handlers_view().len() || frugal(
                old(self).handlers_view()[index as int].spec_handler(),
            ) ==> final(self).budget_left() == old(self).budget_left(),
            index >= old(self).handlers_view().len() ==> r is Err,
            index < old(self).handlers_view().len() && old(self).calls_left() > 0 ==> final(self).called(old(self), old(self).budget_left(), old(self).handlers_view()[index as int].spec_handler(), r),
            old(self).calls_left() == 0 ==> r is Err && final(self).stack_view() == old(self).stack_view() && final(self).heap_view() == old(self).heap_view(),
            index >= old(self).handlers_view().len() ==> final(self).stack_view() == old(self).stack_view() && final(self).heap_view() == old(self).heap_view(),
        decreases old(self).calls_left(), 3int,
    {
        let handler_info = match self.word_handler_info(index) {
            Some(info) => clone_handler_info(info),
            None => {
                return Err(self.error(String::from_str("Word handler index not found.")));
            },
        };
        proof {
            match (old(self).handlers_view()[index as int].spec_handler(), handler_info.spec_handler()) {
                (Handler::Constant(value), Handler::Constant(copy)) => {
                    crate::runtime::data_structures::heap::lemma_structure_view(
                        old(self).heap_view(),
                        value,
                        copy,
                        MAX_NESTING as nat,
                        0,
                    );
                },
                _ => {},
            }
        }
        self.execute_word_handler(host, location, &handler_info)
    }

    /// What the handlers that only move values do, `before` being the
    /// interpreter before and `self` the interpreter after such a handler
    /// ran with the result `r`. The word of a variable and the word of a
    /// field push their index. The word that reads a field takes a data
    /// object off the stack and pushes the value of the field, and the word
    /// that writes one takes a data object and a value and stores the value.
    /// Of the other handlers this says nothing.
    pub open spec fn handled(&self, before: &SorthInterpreter, handler: Handler, r: Result<()>) -> bool {
        let stack = before.stack_view();
        match handler {
            Handler::Scripted(function) => exists|
                entered: SorthInterpreter,
                left: SorthInterpreter,
                frame: ExecutionFrame,
            |
                is_new_frame(frame) && marked(*before, entered) && #[trigger] run(
                    function.code@,
                    0,
                    frame,
                    entered,
                    left,
                    failure(r),
                ) && released(left, *self, 1),
            Handler::Constant(value) => self.worked(
                before,
                before.budget_left(),
                Op::PushConstantValue(value),
                r,
            ),
            Handler::StructNew(definition) => {
                &&& self.variables_view() == before.variables_view()
                &&& self.same_words(before)
                &&& extends(self.heap_view(), before.heap_view())
                &&& r is Err ==> self.stack_view() == stack
                &&& (forall|i: int|
                    0 <= i < definition.spec_defaults().len() ==> structure(
                        before.heap_view(),
                        #[trigger] definition.spec_defaults()[i],
                        MAX_NESTING as nat,
                    ) is Some) ==> r is Ok
                &&& r is Ok ==> {
                    let made = self.heap_view().last();
                    &&& self.stack_view().len() == stack.len() + 1
                    &&& self.stack_view().drop_last() == stack
                    &&& self.heap_view().len() > before.heap_view().len()
                    &&& self.stack_view().last()@ == ValueView::DataObject(
                        (self.heap_view().len() - 1) as usize,
                    )
                    &&& made is Object
                    &&& *made->Object_0.definition_ptr == *definition
                    &&& made->Object_0.fields@.len() == definition.spec_defaults().len()
                }
            },
            Handler::External(_) => self.heap_view() == before.heap_view() && self.variables_view()
                == before.variables_view() && self.same_words(before),
            Handler::VarFieldRead(index) => {
                let variables = before.variables_view();
                let heap = before.heap_view();
                &&& self.same_but_stack(before)
                &&& stack.len() == 0 ==> r is Err
                &&& stack.len() > 0 ==> match popped_int(stack.last()@) {
                    Some(variable) => if 0 <= variable <= usize::MAX && variable < variables.len()
                        && is_data_object(heap, variables[variable as int]@) && index
                        < heap[variables[variable as int]@->DataObject_0 as int]->Object_0.fields@.len() {
                        &&& r is Ok
                        &&& self.stack_view().len() == stack.len()
                        &&& self.stack_view().drop_last() == stack.drop_last()
                        &&& self.stack_view().last()@
                            == heap[variables[variable as int]@->DataObject_0 as int]->Object_0.fields@[index as int]@
                    } else {
                        r is Err
                    },
                    None => !is_number_view(stack.last()@) ==> r is Err,
                }
            },
            Handler::VarFieldWrite(index) => {
                let variables = before.variables_view();
                let heap = before.heap_view();
                &&& self.variables_view() == variables
                &&& self.same_words(before)
                &&& self.heap_view().len() == heap.len()
                &&& r is Err ==> self.heap_view() == heap
                &&& stack.len() < 2 ==> r is Err
                &&& stack.len() >= 2 ==> match popped_int(stack.last()@) {
                    Some(variable) => if 0 <= variable <= usize::MAX && variable < variables.len()
                        && is_data_object(heap, variables[variable as int]@) && index
                        < heap[variables[variable as int]@->DataObject_0 as int]->Object_0.fields@.len() {
                        let handle = variables[variable as int]@->DataObject_0 as int;
                        &&& r is Ok
                        &&& self.stack_view() == stack.take(stack.len() - 2)
                        &&& self.heap_view()[handle] is Object
                        &&& self.heap_view()[handle]->Object_0.fields@
                            == heap[handle]->Object_0.fields@.update(
                            index as int,
                            stack[stack.len() - 2],
                        )
                        &&& forall|other: int|
                            0 <= other < heap.len() && other != handle ==> (
                            #[trigger] self.heap_view()[other]) == heap[other]
                    } else {
                        r is Err
                    },
                    None => !is_number_view(stack.last()@) ==> r is Err,
                }
            },
            Handler::Variable(index) => {
                &&& r is Ok
                &&& self.stack_view().len() == stack.len() + 1
                &&& self.stack_view().drop_last() == stack
                &&& self.stack_view().last()@ == crate::runtime::data_structures::value::index_value(index)
                &&& self.same_but_stack(before)
            },
            Handler::FieldIndex(index) => {
                &&& r is Ok
                &&& self.stack_view().len() == stack.len() + 1
                &&& self.stack_view().drop_last() == stack
                &&& self.stack_view().last()@ == crate::runtime::data_structures::value::index_value(index)
                &&& self.same_but_stack(before)
            },
            Handler::FieldRead(index) => {
                &&& self.same_but_stack(before)
                &&& r is Ok <==> stack.len() > 0 && is_data_object(before.heap_view(), stack.last()@)
                    && index < before.heap_view()[stack.last()@->DataObject_0 as int]->Object_0.fields@.len()
                &&& r is Ok ==> self.stack_view().len() == stack.len() && self.stack_view().drop_last()
                    == stack.drop_last() && self.stack_view().last()@
                    == before.heap_view()[stack.last()@->DataObject_0 as int]->Object_0.fields@[index as int]@
            },
            Handler::FieldWrite(index) => {
                &&& self.variables_view() == before.variables_view()
                &&& self.heap_view().len() == before.heap_view().len()
                &&& r is Ok <==> stack.len() > 1 && is_data_object(before.heap_view(), stack.last()@)
                    && index < before.heap_view()[stack.last()@->DataObject_0 as int]->Object_0.fields@.len()
                &&& r is Err ==> self.heap_view() == before.heap_view()
                &&& r is Ok ==> self.stack_view() == stack.take(stack.len() - 2)
                    && self.heap_view()[stack.last()@->DataObject_0 as int] is Object
                    && self.heap_view()[stack.last()@->DataObject_0 as int]->Object_0.fields@
                    == before.heap_view()[stack.last()@->DataObject_0 as int]->Object_0.fields@.update(
                    index as int,
                    stack[stack.len() - 2],
                )
            },
            Handler::Native(word) => {
                &&& match crate::runtime::built_ins::base_words::needed_depth(word) {
                    Some(depth) => r is Ok <==> stack.len() >= depth,
                    None => true,
                }
                &&& r is Ok ==> match crate::runtime::built_ins::base_words::stack_effect(word) {
                    Some((pops, pushes)) => self.stack_view().len() + pops == stack.len() + pushes,
                    None => true,
                }
                &&& crate::runtime::built_ins::base_words::native_outcome(
                    word,
                    stack,
                    self.stack_view(),
                    r,
                )
                &&& crate::runtime::built_ins::base_words::works_on_stack(word) ==> self.heap_view()
                    == before.heap_view() && self.variables_view() == before.variables_view()
                    && self.same_words(before)
            },
            Handler::Foreign(word) => {
                let taken = stack.len() - word.arg_types@.len();
                &&& self.heap_view() == before.heap_view()
                &&& self.variables_view() == before.variables_view()
                &&& !crate::runtime::built_ins::ffi_words::is_loaded(
                    before.libraries(),
                    word.library_name@,
                ) ==> r is Err && self.stack_view() == stack && r->Err_0@.error == "Library "@
                    + word.library_name@ + " is not loaded."@
                &&& stack.len() < word.arg_types@.len() ==> r is Err
                &&& r is Ok ==> self.stack_view().take(taken) == stack.take(taken)
                &&& r is Ok ==> self.stack_view().len() == taken + if word.return_type.ffi_type
                    == crate::runtime::built_ins::ffi_words::FfiType::Void {
                    0int
                } else {
                    1int
                }
            },
        }
    }

    /// What a call of a word comes to, `before` being the interpreter before
    /// the call, `budget` the number of instructions that may still be
    /// executed, and `r` the result: the word of a variable and the word of a
    /// field push their index, the word of a constant pushes a deep clone of
    /// it, a word that is built in does what its name stands for, and a word
    /// of a script is the execution of its code in a context of its own.
    pub open spec fn called(&self, before: &SorthInterpreter, budget: nat, handler: Handler, r: Result<()>) -> bool
        decreases before.calls_left(), before.budget_left(), 1int,
    {
        self.called_on(before, budget, before.stack_view(), handler, r)
    }

    /// Whether `entered` is the interpreter at the start of the code of a
    /// word that was called in the interpreter `before` on the values
    /// `stack`, with `budget` instructions still to execute: it has a context
    /// of its own, which holds nothing yet, one call less may be nested, and
    /// all else is as before.
    pub open spec fn entered_word(
        before: SorthInterpreter,
        budget: nat,
        stack: Seq<Value>,
        entered: SorthInterpreter,
    ) -> bool {
        &&& entered.wf()
        &&& entered.calls_left() + 1 == before.calls_left()
        &&& entered.budget_left() == budget
        &&& entered.stack_view() == stack
        &&& entered.heap_view() == before.heap_view()
        &&& entered.variables_view() == before.variables_view()
        &&& entered.handlers_view() == before.handlers_view()
        &&& entered.variable_marks() == before.variable_marks().push(
            before.variables_view().len(),
        )
        &&& entered.handler_marks() == before.handler_marks().push(before.handlers_view().len())
        &&& entered.dictionary_view() == before.dictionary_view().push(
            Map::<Seq<char>, WordInfoView>::empty(),
        )
    }

    /// Whether `after` is the interpreter after the code of a word has
    /// ended in the interpreter `left`: the context of the word is released,
    /// with the variables and the words that were defined in it, and one call
    /// more may be nested again.
    pub open spec fn left_word(left: SorthInterpreter, after: SorthInterpreter) -> bool {
        &&& after.calls_left() == left.calls_left() + 1
        &&& after.budget_left() == left.budget_left()
        &&& after.depth() + 1 == left.depth()
        &&& after.stack_view() == left.stack_view()
        &&& after.heap_view() == left.heap_view()
        &&& after.variables_view().len() <= left.variables_view().len()
        &&& after.variables_view() == left.variables_view().take(
            after.variables_view().len() as int,
        )
        &&& after.handlers_view().len() <= left.handlers_view().len()
        &&& after.handlers_view() == left.handlers_view().take(after.handlers_view().len() as int)
        &&& after.dictionary_view() == left.dictionary_view().drop_last()
        &&& after.variable_marks() == left.variable_marks().take(left.depth() - 1)
        &&& after.handler_marks() == left.handler_marks().take(left.depth() - 1)
        &&& after.variables_view().len() == kept(
            left.variable_marks(),
            left.depth() - 1,
            left.variables_view().len(),
        )
        &&& after.handlers_view().len() == kept(
            left.handler_marks(),
            left.depth() - 1,
            left.handlers_view().len(),
        )
    }

    /// What a call of a word comes to where the call finds the values
    /// `stack` on the stack, may still execute `budget` instructions, and
    /// finds all else as it is in `before`.
    pub open spec fn called_on(
        &self,
        before: &SorthInterpreter,
        budget: nat,
        stack: Seq<Value>,
        handler: Handler,
        r: Result<()>,
    ) -> bool
        decreases before.calls_left(), before.budget_left(), 0int,
    {
        match handler {
            Handler::Scripted(function) => before.calls_left() > 0 ==> exists|
                entered: SorthInterpreter,
                left: SorthInterpreter,
                frame: ExecutionFrame,
            |
                #[trigger] nested(entered, left, frame) && entered.calls_left()
                    < before.calls_left() && is_new_frame(frame)
                    && SorthInterpreter::entered_word(*before, budget, stack, entered) && run(
                    function.code@,
                    0,
                    frame,
                    entered,
                    left,
                    failure(r),
                ) && SorthInterpreter::left_word(left, *self),
            Handler::External(_) => self.heap_view() == before.heap_view() && self.variables_view()
                == before.variables_view() && self.same_words(before),
            Handler::Variable(index) => {
                &&& r is Ok
                &&& self.stack_view().len() == stack.len() + 1
                &&& self.stack_view().drop_last() == stack
                &&& self.stack_view().last()@ == crate::runtime::data_structures::value::index_value(
                    index,
                )
                &&& self.heap_view() == before.heap_view()
                &&& self.variables_view() == before.variables_view()
            },
            Handler::FieldIndex(index) => {
                &&& r is Ok
                &&& self.stack_view().len() == stack.len() + 1
                &&& self.stack_view().drop_last() == stack
                &&& self.stack_view().last()@ == crate::runtime::data_structures::value::index_value(
                    index,
                )
                &&& self.heap_view() == before.heap_view()
                &&& self.variables_view() == before.variables_view()
            },
            Handler::Constant(value) => {
                &&& self.variables_view() == before.variables_view()
                &&& self.same_words(before)
                &&& extends(self.heap_view(), before.heap_view())
                &&& r is Ok ==> self.stack_view().len() == stack.len() + 1
                    && self.stack_view().drop_last() == stack
                &&& r is Err ==> self.stack_view() == stack
                &&& structure(before.heap_view(), value, MAX_NESTING as nat) is Some ==> r is Ok
                    && structure_above(
                    self.heap_view(),
                    self.stack_view().last(),
                    MAX_NESTING as nat,
                    before.heap_view().len(),
                ) == structure(before.heap_view(), value, MAX_NESTING as nat)
                &&& is_plain(value@) ==> r is Ok && self.stack_view().last()@ == value@
                    && self.heap_view() == before.heap_view()
            },
            Handler::Native(word) => {
                &&& match crate::runtime::built_ins::base_words::needed_depth(word) {
                    Some(depth) => r is Ok <==> stack.len() >= depth,
                    None => true,
                }
                &&& r is Ok ==> match crate::runtime::built_ins::base_words::stack_effect(word) {
                    Some((pops, pushes)) => self.stack_view().len() + pops == stack.len() + pushes,
                    None => true,
                }
                &&& crate::runtime::built_ins::base_words::native_outcome(
                    word,
                    stack,
                    self.stack_view(),
                    r,
                )
                &&& crate::runtime::built_ins::base_words::works_on_stack(word) ==> self.heap_view()
                    == before.heap_view() && self.variables_view() == before.variables_view()
                    && self.same_words(before)
            },
            Handler::StructNew(definition) => {
                &&& self.variables_view() == before.variables_view()
                &&& self.same_words(before)
                &&& extends(self.heap_view(), before.heap_view())
                &&& r is Err ==> self.stack_view() == stack
                &&& (forall|i: int|
                    0 <= i < definition.spec_defaults().len() ==> structure(
                        before.heap_view(),
                        #[trigger] definition.spec_defaults()[i],
                        MAX_NESTING as nat,
                    ) is Some) ==> r is Ok
                &&& r is Ok ==> {
                    let made = self.heap_view().last();
                    &&& self.stack_view().len() == stack.len() + 1
                    &&& self.stack_view().drop_last() == stack
                    &&& self.heap_view().len() > before.heap_view().len()
                    &&& self.stack_view().last()@ == ValueView::DataObject(
                        (self.heap_view().len() - 1) as usize,
                    )
                    &&& made is Object
                    &&& *made->Object_0.definition_ptr == *definition
                    &&& made->Object_0.fields@.len() == definition.spec_defaults().len()
                }
            },
            Handler::VarFieldRead(index) => {
                let variables = before.variables_view();
                let heap = before.heap_view();
                &&& self.heap_view() == before.heap_view() && self.variables_view()
                    == before.variables_view() && self.same_words(before)
                &&& stack.len() == 0 ==> r is Err
                &&& stack.len() > 0 ==> match popped_int(stack.last()@) {
                    Some(variable) => if 0 <= variable <= usize::MAX && variable < variables.len()
                        && is_data_object(heap, variables[variable as int]@) && index
                        < heap[variables[variable as int]@->DataObject_0 as int]->Object_0.fields@.len() {
                        &&& r is Ok
                        &&& self.stack_view().len() == stack.len()
                        &&& self.stack_view().drop_last() == stack.drop_last()
                        &&& self.stack_view().last()@
                            == heap[variables[variable as int]@->DataObject_0 as int]->Object_0.fields@[index as int]@
                    } else {
                        r is Err
                    },
                    None => !is_number_view(stack.last()@) ==> r is Err,
                }
            },
            Handler::VarFieldWrite(index) => {
                let variables = before.variables_view();
                let heap = before.heap_view();
                &&& self.variables_view() == variables
                &&& self.same_words(before)
                &&& self.heap_view().len() == heap.len()
                &&& r is Err ==> self.heap_view() == heap
                &&& stack.len() < 2 ==> r is Err
                &&& stack.len() >= 2 ==> match popped_int(stack.last()@) {
                    Some(variable) => if 0 <= variable <= usize::MAX && variable < variables.len()
                        && is_data_object(heap, variables[variable as int]@) && index
                        < heap[variables[variable as int]@->DataObject_0 as int]->Object_0.fields@.len() {
                        let handle = variables[variable as int]@->DataObject_0 as int;
                        &&& r is Ok
                        &&& self.stack_view() == stack.take(stack.len() - 2)
                        &&& self.heap_view()[handle] is Object
                        &&& self.heap_view()[handle]->Object_0.fields@
                            == heap[handle]->Object_0.fields@.update(
                            index as int,
                            stack[stack.len() - 2],
                        )
                        &&& forall|other: int|
                            0 <= other < heap.len() && other != handle ==> (
                            #[trigger] self.heap_view()[other]) == heap[other]
                    } else {
                        r is Err
                    },
                    None => !is_number_view(stack.last()@) ==> r is Err,
                }
            },
            Handler::FieldRead(index) => {
                &&& self.heap_view() == before.heap_view() && self.variables_view()
                    == before.variables_view() && self.same_words(before)
                &&& r is Ok <==> stack.len() > 0 && is_data_object(before.heap_view(), stack.last()@)
                    && index < before.heap_view()[stack.last()@->DataObject_0 as int]->Object_0.fields@.len()
                &&& r is Ok ==> self.stack_view().len() == stack.len() && self.stack_view().drop_last()
                    == stack.drop_last() && self.stack_view().last()@
                    == before.heap_view()[stack.last()@->DataObject_0 as int]->Object_0.fields@[index as int]@
            },
            Handler::FieldWrite(index) => {
                &&& self.variables_view() == before.variables_view()
                &&& self.heap_view().len() == before.heap_view().len()
                &&& r is Ok <==> stack.len() > 1 && is_data_object(before.heap_view(), stack.last()@)
                    && index < before.heap_view()[stack.last()@->DataObject_0 as int]->Object_0.fields@.len()
                &&& r is Err ==> self.heap_view() == before.heap_view()
                &&& r is Ok ==> self.stack_view() == stack.take(stack.len() - 2)
                    && self.heap_view()[stack.last()@->DataObject_0 as int] is Object
                    && self.heap_view()[stack.last()@->DataObject_0 as int]->Object_0.fields@
                    == before.heap_view()[stack.last()@->DataObject_0 as int]->Object_0.fields@.update(
                    index as int,
                    stack[stack.len() - 2],
                )
            },
            Handler::Foreign(word) => {
                let taken = stack.len() - word.arg_types@.len();
                &&& self.heap_view() == before.heap_view()
                &&& self.variables_view() == before.variables_view()
                &&& !crate::runtime::built_ins::ffi_words::is_loaded(
                    before.libraries(),
                    word.library_name@,
                ) ==> r is Err && self.stack_view() == stack && r->Err_0@.error == "Library "@
                    + word.library_name@ + " is not loaded."@
                &&& stack.len() < word.arg_types@.len() ==> r is Err
                &&& r is Ok ==> self.stack_view().take(taken) == stack.take(taken)
                &&& r is Ok ==> self.stack_view().len() == taken + if word.return_type.ffi_type
                    == crate::runtime::built_ins::ffi_words::FfiType::Void {
                    0int
                } else {
                    1int
                }
            },
        }
    }

    /// Does what a handler says.
    #[verifier::rlimit(40)]
    pub fn run_handler<H: Host>(&mut self, host: &mut H, name: &String, handler: &Handler) -> (r:
        Result<()>)
        requires
            old(self).wf(),
        ensures
            final(self).stable(old(self)),
            final(self).handled(old(self), *handler, r),
            frugal(*handler) ==> final(self).budget_left() == old(self).budget_left(),
        decreases old(self).calls_left(), 20int,
    {
        match handler {
            Handler::Native(word) => run_native(self, host, *word),
            Handler::Scripted(function) => {
                self.mark_context();
                let result = self.execute_code(host, &function.name, &function.code);
                let ghost left = *self;
                proof {
                    self.lemma_marks();
                }
                self.release_context();
                proof {
                    assert(self.variable_marks() =~= old(self).variable_marks());
                    assert(self.handler_marks() =~= old(self).handler_marks());
                    assert(self.variable_marks() =~= left.variable_marks().take(
                        left.depth() - 1,
                    ));
                    assert(self.handler_marks() =~= left.handler_marks().take(left.depth() - 1));
                    assert(released(left, *self, 1));
                }
                result
            },
            Handler::Variable(index) => {
                self.push(count_value(*index));
                assert(self.stack_view().drop_last() =~= old(self).stack_view());
                Ok(())
            },
            Handler::Constant(value) => self.push_constant_value(value),
            Handler::StructNew(definition) => {
                match DataObject::new(definition, &mut self.heap) {
                    Some(object) => {
                        let ghost cloned = self.heap_view();
                        let handle = self.heap.allocate(HeapCell::Object(object));
                        self.push(Value::DataObject(handle));
                        proof {
                            assert(self.stack_view().drop_last() =~= old(self).stack_view());
                            assert(self.heap_view().take(old(self).heap_view().len() as int)
                                =~= cloned.take(old(self).heap_view().len() as int));
                        }
                        Ok(())
                    },
                    None => Err(
                        self.error(String::from_str("Containers are nested too deep to clone.")),
                    ),
                }
            },
            Handler::FieldIndex(index) => {
                self.push(count_value(*index));
                assert(self.stack_view().drop_last() =~= old(self).stack_view());
                Ok(())
            },
            Handler::FieldWrite(index) => {
                let handle = match self.pop_as_data_object() {
                    Ok(handle) => handle,
                    Err(e) => {
                        return Err(e);
                    },
                };
                let value = match self.pop() {
                    Ok(value) => value,
                    Err(e) => {
                        return Err(e);
                    },
                };
                assert(self.stack_view() =~= old(self).stack_view().take(
                    old(self).stack_view().len() - 2,
                ));
                self.write_field(handle, *index, value)
            },
            Handler::FieldRead(index) => {
                let handle = match self.pop_as_data_object() {
                    Ok(handle) => handle,
                    Err(e) => {
                        return Err(e);
                    },
                };
                self.read_field(handle, *index)
            },
            Handler::VarFieldWrite(index) => {
                proof {
                    let stack = old(self).stack_view();
                    if stack.len() >= 2 {
                        assert(stack.drop_last().last() == stack[stack.len() - 2]);
                        assert(stack.drop_last().drop_last() =~= stack.take(stack.len() - 2));
                    }
                }
                let variable = match self.pop_as_usize(host) {
                    Ok(variable) => variable,
                    Err(e) => {
                        return Err(e);
                    },
                };
                let value = match self.pop() {
                    Ok(value) => value,
                    Err(e) => {
                        return Err(e);
                    },
                };
                let handle = match self.variable_object(variable) {
                    Ok(handle) => handle,
                    Err(e) => {
                        return Err(e);
                    },
                };
                self.write_field(handle, *index, value)
            },
            Handler::VarFieldRead(index) => {
                let variable = match self.pop_as_usize(host) {
                    Ok(variable) => variable,
                    Err(e) => {
                        return Err(e);
                    },
                };
                let handle = match self.variable_object(variable) {
                    Ok(handle) => handle,
                    Err(e) => {
                        return Err(e);
                    },
                };
                let ghost popped = self.stack_view();
                let done = self.read_field(handle, *index);
                proof {
                    if done is Ok {
                        assert(self.stack_view().drop_last() =~= old(self).stack_view().drop_last());
                    }
                }
                done
            },
            Handler::Foreign(word) => handle_word(self, host, word),
            Handler::External(word) => {
                let outcome = host.execute_external(*word, &mut self.stack, &self.heap);
                self.external_done(outcome)
            },
        }
    }

    /// Ends the call of a word of the host, given what the host made of it:
    /// the call ends as the host says, with the reason of the host as the
    /// message of the error where it failed, and the stack is as the host
    /// left it.
    pub fn external_done(&mut self, outcome: core::result::Result<(), String>) -> (r: Result<()>)
        ensures
            final(self).same_but_stack(old(self)),
            final(self).stack_view() == old(self).stack_view(),
            final(self).deepest() == if old(self).deepest() < old(self).stack_view().len() {
                old(self).stack_view().len()
            } else {
                old(self).deepest()
            },
            match outcome {
                Ok(()) => r is Ok,
                Err(message) => r is Err && r->Err_0@ == (ErrorView {
                    location: old(self).location_view(),
                    error: message@,
                    call_stack: Some(old(self).calls_view()),
                }),
            },
    {
        if self.stack.len() > self.max_depth {
            self.max_depth = self.stack.len();
        }
        match outcome {
            Ok(()) => Ok(()),
            Err(message) => Err(self.error(message)),
        }
    }

    /// The handle of the data object that the variable with the given index
    /// holds. Fails where there is no such variable or it holds no data
    /// object of the heap.
    pub fn variable_object(&self, variable: usize) -> (r: Result<usize>)
        requires
            self.wf(),
        ensures
            r is Ok <==> variable < self.variables_view().len() && is_data_object(
                self.heap_view(),
                self.variables_view()[variable as int]@,
            ),
            r is Ok ==> self.variables_view()[variable as int]@ == ValueView::DataObject(r->Ok_0),
    {
        if variable >= self.variables.len() {
            return Err(self.error(String::from_str("Index out of range for variable list.")));
        }
        match self.variables.index(variable) {
            Value::DataObject(handle) => {
                if self.heap.object(*handle).is_some() {
                    Ok(*handle)
                } else {
                    Err(self.error(String::from_str("Expected a data object.")))
                }
            },
            _ => Err(self.error(String::from_str("Expected a data object."))),
        }
    }

    /// Puts a value into the field with the given index of the data object
    /// with the given handle. Fails where the object has no such field.
    pub fn write_field(&mut self, handle: usize, index: usize, value: Value) -> (r: Result<()>)
        requires
            old(self).wf(),
            handle < old(self).heap_view().len(),
            old(self).heap_view()[handle as int] is Object,
        ensures
            final(self).stable(old(self)),
            final(self).same_words(old(self)),
            final(self).stack_view() == old(self).stack_view(),
            final(self).variables_view() == old(self).variables_view(),
            final(self).heap_view().len() == old(self).heap_view().len(),
            r is Ok <==> index < old(self).heap_view()[handle as int]->Object_0.fields@.len(),
            r is Err ==> final(self).heap_view() == old(self).heap_view(),
            r is Ok ==> final(self).heap_view()[handle as int] is Object && final(self).heap_view()[handle as int]->Object_0.fields@ == old(self).heap_view()[handle as int]->Object_0.fields@.update(index as int, value)
                && forall|other: int|
                0 <= other < old(self).heap_view().len() && other != handle ==> final(self).heap_view()[other] == old(self).heap_view()[other],
    {
        let in_range = match &self.heap.cells[handle] {
            HeapCell::Object(object) => index < object.fields.len(),
            _ => false,
        };
        if !in_range {
            return Err(self.error(String::from_str("Field index is out of range for structure.")));
        }
        match &mut self.heap.cells[handle] {
            HeapCell::Object(object) => {
                object.fields.set(index, value);
            },
            _ => {},
        }
        assert forall|i: int| 0 <= i < self.heap@.len() implies crate::runtime::data_structures::heap::cell_wf(
            #[trigger] self.heap@[i],
        ) by {
            if i != handle {
                assert(self.heap@[i] == old(self).heap@[i]);
            }
        }
        Ok(())
    }

    /// Pushes a copy of the field with the given index of the data object
    /// with the given handle. Fails where the object has no such field.
    pub fn read_field(&mut self, handle: usize, index: usize) -> (r: Result<()>)
        requires
            old(self).wf(),
            handle < old(self).heap_view().len(),
            old(self).heap_view()[handle as int] is Object,
        ensures
            final(self).stable(old(self)),
            final(self).same_but_stack(old(self)),
            r is Ok <==> index < old(self).heap_view()[handle as int]->Object_0.fields@.len(),
            r is Err ==> final(self).stack_view() == old(self).stack_view(),
            r is Ok ==> final(self).stack_view().drop_last() == old(self).stack_view() && final(self).stack_view().len() == old(self).stack_view().len() + 1 && final(self).stack_view().last()@ == old(self).heap_view()[handle as int]->Object_0.fields@[index as int]@,
    {
        let value = match &self.heap.cells[handle] {
            HeapCell::Object(object) => {
                if index < object.fields.len() {
                    Some(clone_value(&object.fields[index]))
                } else {
                    None
                }
            },
            _ => None,
        };
        match value {
            Some(value) => {
                self.push(value);
                assert(self.stack_view().drop_last() =~= old(self).stack_view());
                Ok(())
            },
            None => Err(self.error(String::from_str("Field index is out of range for structure."))),
        }
    }

    /// Puts a directory on the stack of search paths. Fails where the host
    /// finds no such directory.
    pub fn add_search_path<H: Host>(&mut self, host: &H, path: &String) -> (r: Result<()>)
        ensures
            final(self).same_but_paths(old(self)),
            r is Ok ==> final(self).paths_view() == old(self).paths_view().push(*path),
            r is Err ==> final(self).paths_view() == old(self).paths_view(),
            r is Err ==> r->Err_0@.error == "Could not append search path "@ + path@ + "."@,
    {
        let found = host.canonical_path(path);
        self.add_found_path(path, found.is_some())
    }

    /// Puts a directory on the stack of search paths, given whether the host
    /// has found it: where it has not, the call fails and names the path.
    pub fn add_found_path(&mut self, path: &String, found: bool) -> (r: Result<()>)
        ensures
            final(self).same_but_paths(old(self)),
            r is Ok <==> found,
            r is Ok ==> final(self).paths_view() == old(self).paths_view().push(*path),
            r is Err ==> final(self).paths_view() == old(self).paths_view() && r->Err_0@ == (ErrorView {
                location: old(self).location_view(),
                error: "Could not append search path "@ + path@ + "."@,
                call_stack: Some(old(self).calls_view()),
            }),
    {
        if found {
            self.search_paths.push(path.clone());
            assert(self.search_paths@ =~= old(self).search_paths@.push(*path));
            Ok(())
        } else {
            Err(self.error(concat3("Could not append search path ", path.as_str(), ".")))
        }
    }

    /// Everything but the search paths is as in `before`.
    pub open(crate) spec fn same_but_paths(&self, before: &SorthInterpreter) -> bool {
        &&& self.max_depth == before.max_depth
        &&& self.stack == before.stack
        &&& self.current_location == before.current_location
        &&& self.call_stack == before.call_stack
        &&& self.data_definitions == before.data_definitions
        &&& self.dictionary == before.dictionary
        &&& self.word_handlers == before.word_handlers
        &&& self.variables == before.variables
        &&& self.constructors == before.constructors
        &&& self.heap == before.heap
        &&& self.ffi == before.ffi
        &&& self.budget == before.budget
        &&& self.call_depth_left == before.call_depth_left
        &&& self.unique_index == before.unique_index
    }

    /// The search paths, the one that was added last at the end.
    pub open(crate) spec fn paths_view(&self) -> Seq<String> {
        self.search_paths@
    }

    /// Puts the directory of a file on the stack of search paths: the
    /// parent of the absolute path that the host gives for the file. Fails
    /// where the host finds no such file or no such directory, and where the
    /// path has no parent.
    pub fn add_search_path_for_file<H: Host>(&mut self, host: &H, file_path: &String) -> (r:
        Result<()>)
        ensures
            final(self).same_but_paths(old(self)),
            r is Ok ==> final(self).paths_view().len() == old(self).paths_view().len() + 1
                && final(self).paths_view().drop_last() == old(self).paths_view(),
            r is Ok ==> exists|canonical: Seq<char>| #[trigger]
                parent(canonical) == Some(final(self).paths_view().last()@),
            r is Err ==> final(self).paths_view() == old(self).paths_view(),
    {
        let canonical = host.canonical_path(file_path);
        let directory = match &canonical {
            Some(canonical) => parent_directory(canonical),
            None => None,
        };
        proof {
            if canonical is Some && directory is Some {
                assert(parent(canonical->0@) == Some(directory->0@));
            }
        }
        let found = match &directory {
            Some(directory) => host.canonical_path(directory).is_some(),
            None => false,
        };
        self.add_directory_of(file_path, canonical.is_some(), directory, found)
    }

    /// Puts the directory of a file on the stack of search paths, given what
    /// the host found: whether there is such a file, the directory that
    /// holds it, if it has one, and whether there is such a directory. Fails,
    /// and says what is missing, where one of the three is.
    pub fn add_directory_of(
        &mut self,
        file_path: &String,
        file_exists: bool,
        directory: Option<String>,
        directory_exists: bool,
    ) -> (r: Result<()>)
        ensures
            final(self).same_but_paths(old(self)),
            r is Ok <==> file_exists && directory is Some && directory_exists,
            r is Ok ==> final(self).paths_view() == old(self).paths_view().push(directory->0),
            r is Err ==> final(self).paths_view() == old(self).paths_view() && r->Err_0@.error
                == if !file_exists {
                "Path "@ + file_path@ + " does not exist."@
            } else if directory is None {
                "Could not get parent directory for file "@ + file_path@ + "."@
            } else {
                "Could not append search path "@ + directory->0@ + "."@
            },
    {
        if !file_exists {
            return Err(self.error(concat3("Path ", file_path.as_str(), " does not exist.")));
        }
        match directory {
            Some(directory) => self.add_found_path(&directory, directory_exists),
            None => Err(
                self.error(
                    concat3("Could not get parent directory for file ", file_path.as_str(), "."),
                ),
            ),
        }
    }

    /// Takes the directory that was added last off the stack of search
    /// paths. Fails where the stack is empty.
    pub fn drop_search_path(&mut self) -> (r: Result<()>)
        ensures
            final(self).same_but_paths(old(self)),
            old(self).paths_view().len() > 0 ==> r is Ok && final(self).paths_view() == old(self).paths_view().drop_last(),
            old(self).paths_view().len() == 0 ==> r is Err && final(self).paths_view() == old(self).paths_view(),
    {
        if self.search_paths.len() == 0 {
            return Err(self.error(String::from_str("Search path stack underflow.")));
        }
        let _ = self.search_paths.pop();
        Ok(())
    }

    /// The search path that is tried after `tried` others: the one that was
    /// added last comes first. There is none once all have been tried.
    pub fn search_candidate(&self, tried: usize) -> (r: Option<&String>)
        ensures
            r == if tried < self.paths_view().len() {
                Some(&self.paths_view()[self.paths_view().len() - 1 - tried])
            } else {
                None
            },
    {
        if tried < self.search_paths.len() {
            Some(&self.search_paths[self.search_paths.len() - 1 - tried])
        } else {
            None
        }
    }

    /// The place where a file is looked for after `tried` other places: the
    /// path as it is first, and then the path taken relative to each search
    /// path, from the one that was added last on. There is none once all
    /// have been tried.
    pub open spec fn place(paths: Seq<String>, path: Seq<char>, tried: nat) -> Option<Seq<char>> {
        if tried == 0 {
            Some(path)
        } else if tried <= paths.len() {
            Some(joined(paths[paths.len() - tried]@, path))
        } else {
            None
        }
    }

    /// The place where a file is looked for after `tried` other places.
    pub fn search_place(&self, path: &String, tried: usize) -> (r: Option<String>)
        ensures
            match r {
                Some(place) => SorthInterpreter::place(self.paths_view(), path@, tried as nat)
                    == Some(place@),
                None => SorthInterpreter::place(self.paths_view(), path@, tried as nat) is None,
            },
    {
        if tried == 0 {
            Some(path.clone())
        } else {
            match self.search_candidate(tried - 1) {
                Some(directory) => Some(join_path(directory, path)),
                None => None,
            }
        }
    }

    /// The absolute path of a file: that of the first place where the host
    /// finds a file, the places taken in the order of `place`. Fails where
    /// the host finds none in any of them.
    pub fn find_file<H: Host>(&self, host: &H, path: &String) -> (r: Result<String>)
        ensures
            r is Err ==> r->Err_0@ == (ErrorView {
                location: self.location_view(),
                error: "File "@ + path@ + " not found."@,
                call_stack: Some(self.calls_view()),
            }),
    {
        let mut found: Option<String> = None;
        let mut tried: usize = 0;
        let mut more = true;
        while more
            invariant
                tried <= self.search_paths@.len() + 1,
                tried > self.search_paths@.len() ==> !more,
            decreases self.search_paths@.len() + 1 - tried + if more { 1int } else { 0int },
        {
            match self.search_place(path, tried) {
                Some(place) => {
                    found = host.canonical_path(&place);
                    if found.is_some() || tried == self.search_paths.len() {
                        more = false;
                    } else {
                        tried += 1;
                    }
                },
                None => {
                    more = false;
                },
            }
        }
        self.file_found(path, found)
    }

    /// The outcome of a search for a file, given what the host found: the
    /// path that it found, or the failure that names the file that was
    /// looked for.
    pub fn file_found(&self, path: &String, found: Option<String>) -> (r: Result<String>)
        ensures
            match found {
                Some(full_path) => r == Ok::<String, ScriptError>(full_path),
                None => r is Err && r->Err_0@ == (ErrorView {
                    location: self.location_view(),
                    error: "File "@ + path@ + " not found."@,
                    call_stack: Some(self.calls_view()),
                }),
            },
    {
        match found {
            Some(full_path) => Ok(full_path),
            None => Err(self.error(concat3("File ", path.as_str(), " not found."))),
        }
    }

    /// Compiles and executes a source file. While the file is processed, its
    /// directory is the first of the search paths.
    pub fn process_source_file<H: Host>(&mut self, host: &mut H, path: &String) -> (r: Result<()>)
        requires
            old(self).wf(),
        ensures
            final(self).stable(old(self)),
            SorthInterpreter::file_found_and_processed(path@, *old(self), *final(self), r),
        decreases old(self).calls_left(), 13int,
    {
        let full_path = match self.find_file(host, path) {
            Ok(full_path) => full_path,
            Err(e) => {
                return Err(e);
            },
        };
        let read = host.read_file(&full_path);
        self.process_file_text(host, &full_path, read)
    }

    /// What processing a source file comes to: either the host finds no such
    /// file, and the call fails and changes nothing, or the text of a file is
    /// processed, whatever reading it came to.
    pub open spec fn file_found_and_processed(
        path: Seq<char>,
        before: SorthInterpreter,
        after: SorthInterpreter,
        r: Result<()>,
    ) -> bool {
        ||| r is Err && after == before && r->Err_0@.error == "File "@ + path + " not found."@
        ||| exists|full_path: String, read: core::result::Result<String, String>| #[trigger]
            SorthInterpreter::file_processed(full_path@, read, before, after, r)
    }

    /// What processing the text of a file comes to, given what reading the
    /// file came to, `before` and `after` being the interpreter before and
    /// after. A file that could not be read gives the error that names it,
    /// and an unclosed string an error too; the interpreter is as it was
    /// then. Else either the host refuses the directory of the file, or the
    /// tokens of the text are processed while that directory is the first of
    /// the search paths.
    pub open spec fn file_processed(
        full_path: Seq<char>,
        read: core::result::Result<String, String>,
        before: SorthInterpreter,
        after: SorthInterpreter,
        r: Result<()>,
    ) -> bool {
        &&& match read {
                Ok(source) => lexemes(source@, start_of(full_path), 0) is None ==> r is Err && after.same_but_paths(&before) && after.paths_view() == before.paths_view(),
                Err(message) => r is Err && r->Err_0@ == (ErrorView {
                    location: None,
                    error: "Could not read file "@ + full_path + ": "@ + message@,
                    call_stack: None,
                }) && after.same_but_paths(&before) && after.paths_view() == before.paths_view(),
            }
        &&& read is Ok && lexemes(read->Ok_0@, start_of(full_path), 0) is Some ==> {
                ||| r is Err && after.same_but_paths(&before) && after.paths_view()
                    == before.paths_view()
                ||| exists|tokens: TokenList, entered: SorthInterpreter, left: SorthInterpreter|
                    {
                        &&& tokenized(
                            full_path,
                            read->Ok_0@,
                            Ok::<TokenList, ScriptError>(tokens),
                        )
                        &&& entered.same_but_paths(&before)
                        &&& entered.paths_view().len() == before.paths_view().len() + 1
                        &&& entered.paths_view().drop_last() == before.paths_view()
                        &&& #[trigger] processed(tokens@, entered, left, r)
                        &&& after.same_but_paths(&left)
                        &&& after.paths_view() == if left.paths_view().len() > 0 {
                            left.paths_view().drop_last()
                        } else {
                            left.paths_view()
                        }
                    }
            }
    }

    /// Compiles and executes the text of a source file, given what reading
    /// the file came to. Where the file could not be read the call fails with
    /// the reason, and where a string of the text is not closed it fails too;
    /// nothing is executed then. While the text is processed, the directory
    /// of the file is the first of the search paths.
    pub fn process_file_text<H: Host>(
        &mut self,
        host: &mut H,
        full_path: &String,
        read: core::result::Result<String, String>,
    ) -> (r: Result<()>)
        requires
            old(self).wf(),
        ensures
            final(self).stable(old(self)),
            SorthInterpreter::file_processed(full_path@, read, *old(self), *final(self), r),
        decreases old(self).calls_left(), 12int,
    {
        let ghost source = read;
        let tokens = match tokenize_file_text(host, full_path, read) {
            Ok(tokens) => tokens,
            Err(e) => {
                return Err(e);
            },
        };
        match self.add_search_path_for_file(host, full_path) {
            Ok(()) => {},
            Err(e) => {
                return Err(e);
            },
        }
        let ghost list = tokens;
        let ghost entered = *self;
        let result = process_source_from_tokens(tokens, self, host);
        let ghost left = *self;
        let _ = self.drop_search_path();
        proof {
            if source is Ok {
                assert(tokenized(full_path@, source->Ok_0@, Ok::<TokenList, ScriptError>(list)));
                assert(processed(list@, entered, left, result));
            }
        }
        result
    }

    /// Resets the interpreter: the stack is emptied, and the words and
    /// variables of the innermost context are dropped, unless it is the
    /// first context.
    pub fn reset(&mut self) -> (r: Result<()>)
        requires
            old(self).wf(),
        ensures
            final(self).stable(old(self)),
            r is Ok,
            final(self).stack_view().len() == 0,
            final(self).heap_view() == old(self).heap_view(),
            final(self).budget_left() == old(self).budget_left(),
    {
        if self.dictionary.depth() > 1 {
            proof {
                self.lemma_marks();
            }
            self.release_context();
            self.mark_context();
            proof {
                assert(self.variable_marks() =~= old(self).variable_marks());
                assert(self.handler_marks() =~= old(self).handler_marks());
            }
        }
        self.stack.clear();
        Ok(())
    }

    /// The foreign function interface: the libraries that are loaded and the
    /// types that can be used with them.
    pub fn ffi(&self) -> (r: &FfiInterface)
        ensures
            r.libs@ == self.libraries(),
    {
        &self.ffi
    }

    /// Forgets the libraries that are loaded. A word that was bound to a
    /// function of one of them fails from then on.
    pub fn reset_ffi(&mut self)
        requires
            old(self).wf(),
        ensures
            final(self).stable(old(self)),
            final(self).libraries().len() == 0,
            final(self).stack_view() == old(self).stack_view(),
            final(self).heap_view() == old(self).heap_view(),
            final(self).handlers_view() == old(self).handlers_view(),
    {
        self.ffi.reset();
    }

    /// Puts a new array of the given values on the heap and gives the value
    /// that holds it.
    pub fn new_array(&mut self, values: Vec<Value>) -> (r: Value)
        requires
            old(self).wf(),
        ensures
            final(self).stable(old(self)),
            final(self).same_but_heap(old(self)),
            final(self).heap_view() == old(self).heap_view().push(final(self).heap_view().last()),
            r@ == ValueView::Vec(old(self).heap_view().len() as usize),
            final(self).heap_view().last() is Vec,
            final(self).heap_view().last()->Vec_0@ == values@,
    {
        let handle = self.heap.allocate(
            HeapCell::Vec(crate::runtime::data_structures::value_vec::ValueVec::from_vec(values)),
        );
        Value::Vec(handle)
    }

    /// A deep clone of a value, in containers of its own on the heap. Fails
    /// where the containers of the value are nested too deep.
    pub fn deep_clone_value(&mut self, value: &Value) -> (r: Result<Value>)
        requires
            old(self).wf(),
        ensures
            final(self).stable(old(self)),
            final(self).same_but_heap(old(self)),
            extends(final(self).heap_view(), old(self).heap_view()),
            structure(old(self).heap_view(), *value, MAX_NESTING as nat) is Some ==> r is Ok
                && structure_above(
                final(self).heap_view(),
                r->Ok_0,
                MAX_NESTING as nat,
                old(self).heap_view().len(),
            ) == structure(old(self).heap_view(), *value, MAX_NESTING as nat),
    {
        match self.heap.deep_clone(value, MAX_NESTING) {
            Some(copy) => Ok(copy),
            None => Err(self.error(String::from_str("Containers are nested too deep to clone."))),
        }
    }

    /// Defines a word of the host: one that the host runs, under the number
    /// that the host gave it.
    pub fn add_external_word(
        &mut self,
        name: String,
        word: usize,
        description: String,
        signature: String,
    )
        requires
            old(self).wf(),
            old(self).handlers_view().len() < usize::MAX,
        ensures
            final(self).stable(old(self)),
            final(self).same_but_words(old(self)),
            final(self).handlers_view().len() == old(self).handlers_view().len() + 1,
            final(self).handlers_view().drop_last() == old(self).handlers_view(),
            final(self).handlers_view().last().spec_handler() == Handler::External(word),
            lookup(final(self).dictionary_view(), name@) is Some,
            lookup(final(self).dictionary_view(), name@)->0.handler_index == old(self).handlers_view().len(),
    {
        self.add_word(
            String::from_str("<host>"),
            1,
            1,
            name,
            Handler::External(word),
            description,
            signature,
            WordRuntime::Normal,
            WordVisibility::Visible,
            WordType::Native,
        );
    }

    /// Compiles a source text and executes what it compiles to. The path
    /// names the text in locations.
    pub fn process_source<H: Host>(&mut self, host: &mut H, path: &String, source: &String) -> (r:
        Result<()>)
        requires
            old(self).wf(),
        ensures
            final(self).stable(old(self)),
            match lexemes(source@, start_of(path@), 0) {
                Some(pieces) => {
                    &&& pieces.len() == 0 ==> r is Ok && final(self).stack_view() == old(self).stack_view() && final(self).variables_view() == old(self).variables_view()
                        && final(self).heap_view() == old(self).heap_view()
                    &&& pieces.len() > 0 && old(self).budget_left() == 0 ==> r is Err
                },
                None => r is Err && final(self).stack_view() == old(self).stack_view() && final(self).variables_view() == old(self).variables_view() && final(self).heap_view() == old(self).heap_view(),
            },
            lexemes(source@, start_of(path@), 0) is Some ==> exists|tokens: TokenList|
                tokenized(path@, source@, Ok::<TokenList, ScriptError>(tokens))
                    && #[trigger] processed(tokens@, *old(self), *final(self), r),
        decreases old(self).calls_left(), 11int,
    {
        let tokens = match tokenize_from_source(host, path, source) {
            Ok(tokens) => tokens,
            Err(e) => {
                return Err(e);
            },
        };
        let ghost list = tokens;
        let result = process_source_from_tokens(tokens, self, host);
        proof {
            assert(tokenized(path@, source@, Ok::<TokenList, ScriptError>(list)));
            assert(processed(list@, *old(self), *self, result));
        }
        result
    }
}

/// Whether a value has a truth: `Nil`, a number, a boolean or a string.
pub open spec fn has_truth(value: ValueView) -> bool {
    match value {
        ValueView::Nil => true,
        ValueView::Int(_) => true,
        ValueView::Float(_) => true,
        ValueView::Bool(_) => true,
        ValueView::String(_) => true,
        _ => false,
    }
}

impl ThreadManagement for SorthInterpreter {
}

impl ContextualData for SorthInterpreter {
    open spec fn contextual_wf(&self) -> bool {
        self.wf()
    }

    open spec fn context_depth(&self) -> nat {
        self.depth()
    }

    /// Opens a new context for words, handlers, data definitions and
    /// variables.
    fn mark_context(&mut self)
        ensures
            final(self).dictionary_view() == old(self).dictionary_view().push(
                Map::<Seq<char>, WordInfoView>::empty(),
            ),
            final(self).stack_view() == old(self).stack_view(),
            final(self).variables_view() == old(self).variables_view(),
            final(self).heap_view() == old(self).heap_view(),
            final(self).handlers_view() == old(self).handlers_view(),
            final(self).budget_left() == old(self).budget_left(),
            final(self).calls_left() == old(self).calls_left(),
            final(self).call_stack_len() == old(self).call_stack_len(),
            final(self).compilations() == old(self).compilations(),
            final(self).variable_marks() == old(self).variable_marks().push(
                old(self).variables_view().len(),
            ),
            final(self).handler_marks() == old(self).handler_marks().push(
                old(self).handlers_view().len(),
            ),
    {
        self.dictionary.mark_context();
        self.word_handlers.mark_context();
        self.data_definitions.mark_context();
        self.variables.mark_context();
    }

    /// Closes the innermost context: the words, handlers, data definitions
    /// and variables that were defined in it are gone.
    fn release_context(&mut self)
        ensures
            final(self).dictionary_view() == old(self).dictionary_view().drop_last(),
            final(self).handlers_view().len() <= old(self).handlers_view().len(),
            final(self).handlers_view() == old(self).handlers_view().take(
                final(self).handlers_view().len() as int,
            ),
            final(self).stack_view() == old(self).stack_view(),
            final(self).heap_view() == old(self).heap_view(),
            final(self).budget_left() == old(self).budget_left(),
            final(self).calls_left() == old(self).calls_left(),
            final(self).call_stack_len() == old(self).call_stack_len(),
            final(self).compilations() == old(self).compilations(),
            final(self).variables_view() == old(self).variables_view().take(
                final(self).variables_view().len() as int,
            ),
            final(self).variables_view().len() <= old(self).variables_view().len(),
            final(self).variable_marks() == old(self).variable_marks().drop_last(),
            final(self).handler_marks() == old(self).handler_marks().drop_last(),
            final(self).variables_view().len() == old(self).variable_marks().last(),
            final(self).handlers_view().len() == old(self).handler_marks().last(),
    {
        proof {
            self.variables.lemma_context_start();
            self.word_handlers.lemma_context_start();
            self.variables.lemma_starts();
            self.word_handlers.lemma_starts();
        }
        self.dictionary.release_context();
        self.word_handlers.release_context();
        self.data_definitions.release_context();
        self.variables.release_context();
    }
}

} // verus!
