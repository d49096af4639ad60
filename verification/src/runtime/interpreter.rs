//! The interpreter: its call stack, its word handlers and its execution loop.

pub mod sorth_interpreter;

use std::rc::Rc;
use vstd::prelude::*;
use crate::lang::code::ByteCode;
use crate::lang::source_buffer::location_text;
use crate::lang::source_buffer::LocationView;
use vstd::string::StringExecFns;
use crate::lang::source_buffer::SourceLocation;
use crate::runtime::built_ins::ffi_words::FfiWord;
use crate::runtime::data_structures::data_object::share;
use crate::runtime::data_structures::data_object::DataObjectDefinitionPtr;
use crate::runtime::data_structures::value::clone_value;
use crate::runtime::data_structures::value::Value;

verus! {

/// One entry of the call stack: the word that is running and the place it was
/// called from.
#[derive(Debug)]
pub struct CallItem {
    location: SourceLocation,
    word: String,
}

impl View for CallItem {
    type V = (LocationView, Seq<char>);

    closed spec fn view(&self) -> (LocationView, Seq<char>) {
        (self.location@, self.word@)
    }
}

impl Clone for CallItem {
    fn clone(&self) -> (r: Self)
        ensures
            r@ == self@,
    {
        CallItem { location: self.location.clone(), word: self.word.clone() }
    }
}

impl CallItem {
    pub fn new(word: String, location: SourceLocation) -> (r: CallItem)
        ensures
            r@ == (location@, word@),
    {
        CallItem { location, word }
    }

    pub fn location(&self) -> (r: &SourceLocation)
        ensures
            r@ == self@.0,
    {
        &self.location
    }

    pub fn word(&self) -> (r: &String)
        ensures
            r@ == self@.1,
    {
        &self.word
    }
}

/// The text of an entry of the call stack: the location, a colon and the
/// word.
pub open spec fn call_item_text(item: (LocationView, Seq<char>)) -> Seq<char> {
    location_text(item.0) + ": "@ + item.1
}

impl CallItem {
    /// The text of the entry.
    pub fn to_string(&self) -> (r: String)
        ensures
            r@ == call_item_text(self@),
    {
        let mut out = self.location.to_string();
        out.append(": ");
        out.append(self.word.as_str());
        out
    }
}

/// The text of a call stack: one line for each entry, the innermost first.
pub open spec fn call_stack_text(stack: Seq<(LocationView, Seq<char>)>) -> Seq<char>
    decreases stack.len(),
{
    if stack.len() == 0 {
        Seq::empty()
    } else {
        "  "@ + call_item_text(stack.last()) + "\n"@ + call_stack_text(stack.drop_last())
    }
}

/// The words that are running, the outermost first.
pub type CallStack = Vec<CallItem>;

/// The views of the entries of a call stack.
pub open spec fn call_stack_view(stack: Seq<CallItem>) -> Seq<(LocationView, Seq<char>)> {
    stack.map_values(|item: CallItem| item@)
}

/// A copy of a call stack.
pub fn clone_call_stack(stack: &CallStack) -> (r: CallStack)
    ensures
        call_stack_view(r@) == call_stack_view(stack@),
{
    let mut out: Vec<CallItem> = Vec::new();
    let mut i: usize = 0;
    while i < stack.len()
        invariant
            i <= stack@.len(),
            out@.len() == i,
            forall|k: int| 0 <= k < i ==> out@[k]@ == stack@[k]@,
        decreases stack@.len() - i,
    {
        out.push(stack[i].clone());
        i += 1;
    }
    assert(call_stack_view(out@) =~= call_stack_view(stack@));
    out
}

/// A word that was defined by a script: its name, the place of its
/// definition, and its code.
#[derive(Debug)]
pub struct ScriptFunction {
    pub name: String,
    pub location: SourceLocation,
    pub code: ByteCode,
}

impl ScriptFunction {
    pub fn new(name: String, location: SourceLocation, code: ByteCode) -> (r: ScriptFunction)
        ensures
            r.name == name,
            r.location == location,
            r.code == code,
    {
        ScriptFunction { name, location, code }
    }
}

/// What a word does when it runs.
#[derive(Debug)]
pub enum Handler {
    /// A word that is built into the interpreter.
    Native(NativeWord),
    /// A word that was defined by a script. Its code runs in a context of its
    /// own.
    Scripted(Rc<ScriptFunction>),
    /// The word of a variable: it pushes the index of the variable.
    Variable(usize),
    /// The word of a constant: it pushes a deep clone of the value.
    Constant(Value),
    /// The word that makes a new object of a data definition.
    StructNew(DataObjectDefinitionPtr),
    /// The word of a field of a data definition: it pushes the index of the
    /// field.
    FieldIndex(usize),
    /// Writes the field with this index of the data object on the stack.
    FieldWrite(usize),
    /// Reads the field with this index of the data object on the stack.
    FieldRead(usize),
    /// Writes the field with this index of the data object in a variable.
    VarFieldWrite(usize),
    /// Reads the field with this index of the data object in a variable.
    VarFieldRead(usize),
    /// A call of a function of a native library.
    Foreign(Rc<FfiWord>),
    /// A word of the host, by the number that the host gave it.
    External(usize),
}

/// Whether two handlers do the same: they are of the same kind, and hold the
/// same word, index, code or definition, or constants that hold the same.
pub open spec fn does_the_same(a: Handler, b: Handler) -> bool {
    match (a, b) {
        (Handler::Native(a), Handler::Native(b)) => a == b,
        (Handler::Scripted(a), Handler::Scripted(b)) => *a == *b,
        (Handler::Variable(a), Handler::Variable(b)) => a == b,
        (Handler::Constant(a), Handler::Constant(b)) => a@ == b@,
        (Handler::StructNew(a), Handler::StructNew(b)) => *a == *b,
        (Handler::FieldIndex(a), Handler::FieldIndex(b)) => a == b,
        (Handler::FieldWrite(a), Handler::FieldWrite(b)) => a == b,
        (Handler::FieldRead(a), Handler::FieldRead(b)) => a == b,
        (Handler::VarFieldWrite(a), Handler::VarFieldWrite(b)) => a == b,
        (Handler::VarFieldRead(a), Handler::VarFieldRead(b)) => a == b,
        (Handler::Foreign(a), Handler::Foreign(b)) => *a == *b,
        (Handler::External(a), Handler::External(b)) => a == b,
        _ => false,
    }
}

/// A copy of a handler. Code, definitions and foreign words are shared with
/// the copy.
pub fn clone_handler(handler: &Handler) -> (r: Handler)
    ensures
        does_the_same(*handler, r),
{
    match handler {
        Handler::Native(word) => Handler::Native(*word),
        Handler::Scripted(function) => Handler::Scripted(share(function)),
        Handler::Variable(index) => Handler::Variable(*index),
        Handler::Constant(value) => Handler::Constant(clone_value(value)),
        Handler::StructNew(definition) => Handler::StructNew(share(definition)),
        Handler::FieldIndex(index) => Handler::FieldIndex(*index),
        Handler::FieldWrite(index) => Handler::FieldWrite(*index),
        Handler::FieldRead(index) => Handler::FieldRead(*index),
        Handler::VarFieldWrite(index) => Handler::VarFieldWrite(*index),
        Handler::VarFieldRead(index) => Handler::VarFieldRead(*index),
        Handler::Foreign(word) => Handler::Foreign(share(word)),
        Handler::External(word) => Handler::External(*word),
    }
}

/// A handler, with the name of its word and the place where the word was
/// defined.
#[derive(Debug)]
pub struct WordHandlerInfo {
    name: String,
    location: SourceLocation,
    handler: Handler,
}

impl WordHandlerInfo {
    pub closed spec fn spec_name(&self) -> Seq<char> {
        self.name@
    }

    pub closed spec fn spec_location(&self) -> LocationView {
        self.location@
    }

    pub closed spec fn spec_handler(&self) -> Handler {
        self.handler
    }

    pub fn new(name: String, location: SourceLocation, handler: Handler) -> (r: WordHandlerInfo)
        ensures
            r.spec_name() == name@,
            r.spec_location() == location@,
            r.spec_handler() == handler,
    {
        WordHandlerInfo { name, location, handler }
    }

    pub fn name(&self) -> (r: &String)
        ensures
            r@ == self.spec_name(),
    {
        &self.name
    }

    pub fn location(&self) -> (r: &SourceLocation)
        ensures
            r@ == self.spec_location(),
    {
        &self.location
    }

    pub fn handler(&self) -> (r: &Handler)
        ensures
            *r == self.spec_handler(),
    {
        &self.handler
    }
}

/// A copy of a handler with its name and location.
pub fn clone_handler_info(info: &WordHandlerInfo) -> (r: WordHandlerInfo)
    ensures
        r.spec_name() == info.spec_name(),
        r.spec_location() == info.spec_location(),
        does_the_same(info.spec_handler(), r.spec_handler()),
{
    WordHandlerInfo {
        name: info.name.clone(),
        location: info.location.clone(),
        handler: clone_handler(&info.handler),
    }
}

/// What is known of a thread of the interpreter. The core runs no threads.
pub struct SubThreadInfo {
}

/// The management of the threads of an interpreter. The core runs no
/// threads, so there is nothing to manage.
pub trait ThreadManagement {
}

/// The words that are built into the interpreter.
#[derive(Clone, Copy, Debug, PartialEq, Eq, Structural)]
pub enum NativeWord {
    // Stack words.
    Dup,
    Drop,
    Swap,
    Over,
    Rot,
    StackDepth,
    Pick,
    PushTo,
    // Math, logic and bit words.
    Add,
    Subtract,
    Multiply,
    Divide,
    Mod,
    LogicAnd,
    LogicOr,
    LogicNot,
    BitAnd,
    BitOr,
    BitXor,
    BitNot,
    BitLeftShift,
    BitRightShift,
    Equal,
    GreaterEqual,
    LessEqual,
    Greater,
    Less,
    // Array words.
    ArrayNew,
    ArraySize,
    ArrayWriteIndex,
    ArrayReadIndex,
    ArrayResize,
    ArrayInsert,
    ArrayDelete,
    ArrayPlus,
    ArrayCompare,
    ArrayPushFront,
    ArrayPushBack,
    ArrayPopFront,
    ArrayPopBack,
    // Byte buffer words.
    BufferNew,
    BufferSize,
    BufferResize,
    BufferWriteInt,
    BufferReadInt,
    BufferWriteFloat,
    BufferReadFloat,
    BufferWriteString,
    BufferReadString,
    BufferSetPosition,
    BufferGetPosition,
    // Hash table words.
    HashNew,
    HashInsert,
    HashFind,
    HashExists,
    HashPlus,
    HashCompare,
    HashSize,
    HashIterate,
    // Data structure words.
    DataDefinition,
    ReadField,
    WriteField,
    StructureIterate,
    StructureFieldExists,
    StructureCompare,
    // Bytecode words.
    OpDefVariable,
    OpDefConstant,
    OpReadVariable,
    OpWriteVariable,
    OpExecute,
    OpPushConstantValue,
    OpMarkLoopExit,
    OpUnmarkLoopExit,
    OpMarkCatch,
    OpUnmarkCatch,
    OpJump,
    OpJumpIfZero,
    OpJumpIfNotZero,
    OpJumpLoopStart,
    OpJumpLoopExit,
    OpJumpTarget,
    CodeNewBlock,
    CodeMergeStackBlock,
    CodePopStackBlock,
    CodePushStackBlock,
    CodeStackBlockSize,
    CodeResolveJumps,
    CodeCompileUntilWords,
    CodeInsertAtFront,
    CodeExecuteSource,
    // Words that work with words.
    Word,
    GetWordTable,
    WordIndex,
    Execute,
    IsDefined,
    IsDefinedIm,
    IsUndefinedIm,
    // Words that create words.
    StartWord,
    EndWord,
    Immediate,
    Hidden,
    Description,
    Signature,
    // String words.
    Hex,
    UniqueStr,
    // Words of the interpreter itself.
    Reset,
    Include,
    IncludeIm,
    SorthVersion,
    SorthSearchPath,
    SorthFindFile,
    SorthMemory,
    TermIsPrintable,
    Throw,
    PrintStack,
    PrintDictionary,
    TermWrite,
    // Words of the foreign function interface.
    FfiLoad,
    FfiFn,
    FfiStruct,
    FfiArray,
}

} // verus!
