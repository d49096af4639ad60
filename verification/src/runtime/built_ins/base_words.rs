//! The core words of the language.

pub mod array_words;
pub mod byte_buffer_words;
pub mod bytecode_words;
pub mod data_structure_words;
pub mod hash_table_words;
pub mod math_logic_and_bit_words;
pub mod sorth_words;
pub mod stack_words;
pub mod string_words;
pub mod word_creation_words;
pub mod word_names;
pub mod word_words;

use vstd::prelude::*;
use crate::runtime::data_structures::dictionary::lookup;
use crate::runtime::built_ins::base_words::word_names::lemma_native_names_differ;
use crate::runtime::data_structures::dictionary::WordInfoView;
use crate::runtime::built_ins::base_words::array_words::word_array_compare;
use crate::runtime::built_ins::base_words::array_words::word_array_delete;
use crate::runtime::built_ins::base_words::array_words::word_array_insert;
use crate::runtime::built_ins::base_words::array_words::word_array_new;
use crate::runtime::built_ins::base_words::array_words::word_array_plus;
use crate::runtime::built_ins::base_words::array_words::word_array_pop;
use crate::runtime::built_ins::base_words::array_words::word_array_push;
use crate::runtime::built_ins::base_words::array_words::word_array_read_index;
use crate::runtime::built_ins::base_words::array_words::word_array_resize;
use crate::runtime::built_ins::base_words::array_words::word_array_size;
use crate::runtime::built_ins::base_words::array_words::word_array_write_index;
use crate::runtime::built_ins::base_words::byte_buffer_words::word_buffer_get_position;
use crate::runtime::built_ins::base_words::byte_buffer_words::word_buffer_new;
use crate::runtime::built_ins::base_words::byte_buffer_words::word_buffer_read_float;
use crate::runtime::built_ins::base_words::byte_buffer_words::word_buffer_read_int;
use crate::runtime::built_ins::base_words::byte_buffer_words::word_buffer_read_string;
use crate::runtime::built_ins::base_words::byte_buffer_words::word_buffer_resize;
use crate::runtime::built_ins::base_words::byte_buffer_words::word_buffer_set_position;
use crate::runtime::built_ins::base_words::byte_buffer_words::word_buffer_size;
use crate::runtime::built_ins::base_words::byte_buffer_words::word_buffer_write_float;
use crate::runtime::built_ins::base_words::byte_buffer_words::word_buffer_write_int;
use crate::runtime::built_ins::base_words::byte_buffer_words::word_buffer_write_string;
use crate::runtime::built_ins::base_words::bytecode_words::word_code_compile_until_words;
use crate::runtime::built_ins::base_words::bytecode_words::word_code_execute_source;
use crate::runtime::built_ins::base_words::bytecode_words::word_code_insert_at_front;
use crate::runtime::built_ins::base_words::bytecode_words::word_code_merge_stack_block;
use crate::runtime::built_ins::base_words::bytecode_words::word_code_new_block;
use crate::runtime::built_ins::base_words::bytecode_words::word_code_pop_stack_block;
use crate::runtime::built_ins::base_words::bytecode_words::word_code_push_stack_block;
use crate::runtime::built_ins::base_words::bytecode_words::word_code_resolve_jumps;
use crate::runtime::built_ins::base_words::bytecode_words::word_code_stack_block_size;
use crate::runtime::built_ins::base_words::bytecode_words::word_op_plain;
use crate::runtime::built_ins::base_words::bytecode_words::word_op_with_operand;
use crate::runtime::built_ins::base_words::bytecode_words::OperandOp;
use crate::runtime::built_ins::base_words::bytecode_words::PlainOp;
use crate::runtime::built_ins::base_words::string_words::word_hex;
use crate::runtime::built_ins::base_words::string_words::word_unique_str;
use crate::runtime::built_ins::base_words::word_creation_words::word_describe;
use crate::runtime::built_ins::base_words::word_creation_words::word_end_word;
use crate::runtime::built_ins::base_words::word_creation_words::word_hidden;
use crate::runtime::built_ins::base_words::word_creation_words::word_immediate;
use crate::runtime::built_ins::base_words::word_creation_words::word_start_word;
use crate::runtime::built_ins::base_words::word_words::word_execute;
use crate::runtime::built_ins::base_words::word_words::word_get_word_table;
use crate::runtime::built_ins::base_words::word_words::word_is_defined;
use crate::runtime::built_ins::base_words::word_words::word_is_defined_im;
use crate::runtime::built_ins::base_words::word_words::word_word;
use crate::runtime::built_ins::base_words::word_words::word_word_index;
use crate::runtime::built_ins::ffi_words::word_ffi_array;
use crate::runtime::built_ins::terminal_words::word_term_is_printable;
use crate::runtime::built_ins::ffi_words::word_ffi_fn;
use crate::runtime::built_ins::ffi_words::word_ffi_open;
use crate::runtime::built_ins::ffi_words::word_ffi_struct;
use crate::runtime::built_ins::base_words::data_structure_words::word_data_definition;
use crate::runtime::built_ins::base_words::data_structure_words::word_read_field;
use crate::runtime::built_ins::base_words::data_structure_words::word_structure_compare;
use crate::runtime::built_ins::base_words::data_structure_words::word_structure_field_exists;
use crate::runtime::built_ins::base_words::data_structure_words::word_structure_iterate;
use crate::runtime::built_ins::base_words::data_structure_words::word_write_field;
use crate::runtime::built_ins::base_words::hash_table_words::word_hash_compare;
use crate::runtime::built_ins::base_words::hash_table_words::word_hash_plus;
use crate::runtime::built_ins::base_words::hash_table_words::word_hash_table_find;
use crate::runtime::built_ins::base_words::hash_table_words::word_hash_table_insert;
use crate::runtime::built_ins::base_words::hash_table_words::word_hash_table_iterate;
use crate::runtime::built_ins::base_words::hash_table_words::word_hash_table_new;
use crate::runtime::built_ins::base_words::hash_table_words::word_hash_table_size;
use crate::runtime::built_ins::base_words::math_logic_and_bit_words::computed;
use crate::runtime::built_ins::base_words::math_logic_and_bit_words::order_holds;
use crate::runtime::built_ins::base_words::math_logic_and_bit_words::plain_order;
use crate::runtime::built_ins::base_words::math_logic_and_bit_words::plainly_equal;
use crate::runtime::data_structures::value::is_stringable_view;
use crate::runtime::data_structures::value::is_text_view;
use crate::runtime::data_structures::value::string_of_view;
use crate::runtime::data_structures::value::Value;
use crate::runtime::data_structures::value::ValueView;
use crate::runtime::interpreter::sorth_interpreter::without_top;
use crate::runtime::built_ins::base_words::math_logic_and_bit_words::logic_bit_op;
use crate::runtime::built_ins::base_words::math_logic_and_bit_words::logic_op;
use crate::runtime::built_ins::base_words::math_logic_and_bit_words::math_op;
use crate::runtime::built_ins::base_words::math_logic_and_bit_words::order_op;
use crate::runtime::built_ins::base_words::math_logic_and_bit_words::word_add;
use crate::runtime::built_ins::base_words::math_logic_and_bit_words::word_bit_not;
use crate::runtime::built_ins::base_words::math_logic_and_bit_words::word_equal;
use crate::runtime::built_ins::base_words::math_logic_and_bit_words::word_logic_not;
use crate::runtime::built_ins::base_words::math_logic_and_bit_words::BitOp;
use crate::runtime::built_ins::base_words::math_logic_and_bit_words::MathOp;
use crate::runtime::built_ins::base_words::math_logic_and_bit_words::OrderOp;
use crate::runtime::built_ins::base_words::sorth_words::word_include;
use crate::runtime::built_ins::base_words::sorth_words::word_include_im;
use crate::runtime::built_ins::base_words::sorth_words::word_print_dictionary;
use crate::runtime::built_ins::base_words::sorth_words::word_print_stack;
use crate::runtime::built_ins::base_words::sorth_words::word_reset;
use crate::runtime::built_ins::base_words::sorth_words::word_sorth_find_file;
use crate::runtime::built_ins::base_words::sorth_words::word_sorth_memory;
use crate::runtime::built_ins::base_words::sorth_words::word_sorth_search_path;
use crate::runtime::built_ins::base_words::sorth_words::word_sorth_version;
use crate::runtime::built_ins::base_words::sorth_words::word_term_write;
use crate::runtime::built_ins::base_words::sorth_words::word_throw;
use crate::runtime::built_ins::base_words::stack_words::word_drop;
use crate::runtime::built_ins::base_words::stack_words::word_dup;
use crate::runtime::built_ins::base_words::stack_words::word_over;
use crate::runtime::built_ins::base_words::stack_words::word_pick;
use crate::runtime::built_ins::base_words::stack_words::word_push_to;
use crate::runtime::built_ins::base_words::stack_words::word_rot;
use crate::runtime::built_ins::base_words::stack_words::word_stack_depth;
use crate::runtime::built_ins::base_words::stack_words::word_swap;
use crate::runtime::error::Result;
use crate::runtime::host::Host;
use crate::runtime::interpreter::sorth_interpreter::SorthInterpreter;
use crate::runtime::data_structures::dictionary::WordRuntime;
use crate::runtime::data_structures::dictionary::WordType;
use crate::runtime::data_structures::dictionary::WordVisibility;
use crate::runtime::interpreter::Handler;
use crate::runtime::interpreter::NativeWord;
use vstd::string::StringExecFns;

verus! {

/// The number of values that the stack has to hold for a word to succeed,
/// for the words that ask no more than that of what they find: the words
/// that move values on the stack, the words of logic and comparison, and the
/// words that only push.
pub open spec fn needed_depth(word: NativeWord) -> Option<nat> {
    match word {
        NativeWord::Dup => Some(1nat),
        NativeWord::Drop => Some(1nat),
        NativeWord::Swap => Some(2nat),
        NativeWord::Over => Some(2nat),
        NativeWord::Rot => Some(3nat),
        NativeWord::StackDepth => Some(0nat),
        NativeWord::LogicAnd => Some(2nat),
        NativeWord::LogicOr => Some(2nat),
        NativeWord::Equal => Some(2nat),
        NativeWord::GreaterEqual => Some(2nat),
        NativeWord::LessEqual => Some(2nat),
        NativeWord::Greater => Some(2nat),
        NativeWord::Less => Some(2nat),
        NativeWord::HashNew => Some(0nat),
        NativeWord::GetWordTable => Some(0nat),
        NativeWord::SorthVersion => Some(0nat),
        NativeWord::SorthSearchPath => Some(0nat),
        NativeWord::PrintStack => Some(0nat),
        NativeWord::PrintDictionary => Some(0nat),
        NativeWord::Reset => Some(0nat),
        NativeWord::TermWrite => Some(1nat),
        _ => None,
    }
}

/// The words that work on the value stack and on nothing else.
pub open spec fn works_on_stack(word: NativeWord) -> bool {
    match word {
        NativeWord::Dup => true,
        NativeWord::Drop => true,
        NativeWord::Swap => true,
        NativeWord::Over => true,
        NativeWord::Rot => true,
        NativeWord::Add => true,
        NativeWord::Subtract => true,
        NativeWord::Multiply => true,
        NativeWord::Divide => true,
        NativeWord::Mod => true,
        NativeWord::LogicAnd => true,
        NativeWord::LogicOr => true,
        NativeWord::Equal => true,
        NativeWord::GreaterEqual => true,
        NativeWord::LessEqual => true,
        NativeWord::Greater => true,
        NativeWord::Less => true,
        NativeWord::Throw => true,
        _ => false,
    }
}

/// What a comparison makes of the two values on top of the stack `before`.
pub open spec fn ordered(op: OrderOp, before: Seq<Value>, after: Seq<Value>, r: Result<()>) -> bool {
    let n = before.len() as int;
    &&& r is Ok <==> n >= 2
    &&& r is Ok ==> {
        &&& after.len() == n - 1
        &&& after.take(n - 2) == before.take(n - 2)
        &&& after.last()@ is Bool
        &&& match plain_order(before[n - 2]@, before[n - 1]@) {
            Some(order) => after.last()@ == ValueView::Bool(order_holds(op, order)),
            None => true,
        }
    }
}

/// What the words of the stack, of arithmetic, of logic and of comparison,
/// and `throw`, make of the stack `before`: `after` is the stack that they
/// leave and `r` is their result. Of the other words this says nothing; each
/// of them says what it does where it is defined.
pub open spec fn native_outcome(
    word: NativeWord,
    before: Seq<Value>,
    after: Seq<Value>,
    r: Result<()>,
) -> bool {
    let n = before.len() as int;
    match word {
        NativeWord::Dup => {
            &&& r is Ok <==> n >= 1
            &&& r is Ok ==> after.len() == n + 1 && after.drop_last() == before && after.last()@
                == before.last()@
            &&& r is Err ==> after == before
        },
        NativeWord::Drop => (r is Ok <==> n >= 1) && after == without_top(before),
        NativeWord::Swap => {
            &&& r is Ok <==> n >= 2
            &&& r is Ok ==> after == before.take(n - 2).push(before[n - 1]).push(before[n - 2])
        },
        NativeWord::Over => {
            &&& r is Ok <==> n >= 2
            &&& r is Ok ==> after.len() == n + 1 && after.take(n) == before && after[n]@
                == before[n - 2]@
        },
        NativeWord::Rot => {
            &&& r is Ok <==> n >= 3
            &&& r is Ok ==> after == before.take(n - 3).push(before[n - 1]).push(
                before[n - 3],
            ).push(before[n - 2])
        },
        NativeWord::Add => if n < 2 {
            r is Err
        } else if !is_text_view(before[n - 2]@) && !is_text_view(before[n - 1]@) {
            computed(MathOp::Add, before, after, r)
        } else if !is_stringable_view(before[n - 2]@) || !is_stringable_view(before[n - 1]@) {
            r is Err
        } else {
            &&& r is Ok
            &&& after.take(n - 2) == before.take(n - 2)
            &&& after.len() == n - 1
            &&& after.last()@ is String
            &&& string_of_view(before[n - 2]@) is Some && string_of_view(before[n - 1]@) is Some
                ==> after.last()@ == ValueView::String(
                string_of_view(before[n - 2]@)->0 + string_of_view(before[n - 1]@)->0,
            )
        },
        NativeWord::Subtract => if n < 2 {
            r is Err
        } else {
            computed(MathOp::Subtract, before, after, r)
        },
        NativeWord::Multiply => if n < 2 {
            r is Err
        } else {
            computed(MathOp::Multiply, before, after, r)
        },
        NativeWord::Divide => if n < 2 {
            r is Err
        } else {
            computed(MathOp::Divide, before, after, r)
        },
        NativeWord::Mod => if n < 2 {
            r is Err
        } else {
            computed(MathOp::Modulo, before, after, r)
        },
        NativeWord::Equal => {
            &&& r is Ok <==> n >= 2
            &&& r is Ok ==> {
                &&& after.len() == n - 1
                &&& after.take(n - 2) == before.take(n - 2)
                &&& after.last()@ is Bool
                &&& match plainly_equal(before[n - 2]@, before[n - 1]@) {
                    Some(equal) => after.last()@ == ValueView::Bool(equal),
                    None => true,
                }
            }
        },
        NativeWord::GreaterEqual => ordered(OrderOp::GreaterEqual, before, after, r),
        NativeWord::LessEqual => ordered(OrderOp::LessEqual, before, after, r),
        NativeWord::Greater => ordered(OrderOp::Greater, before, after, r),
        NativeWord::Less => ordered(OrderOp::Less, before, after, r),
        NativeWord::Throw => {
            &&& r is Err
            &&& after == without_top(before)
            &&& n > 0 && string_of_view(before.last()@) is Some ==> r->Err_0@.error
                == string_of_view(before.last()@)->0
        },
        _ => true,
    }
}

/// Runs a word that is built into the interpreter.
pub fn run_native<H: Host>(interpreter: &mut SorthInterpreter, host: &mut H, word: NativeWord) -> (r:
    Result<()>)
    requires
        old(interpreter).wf(),
    ensures
        final(interpreter).stable(old(interpreter)),
        r is Ok ==> match stack_effect(word) {
            Some((pops, pushes)) => final(interpreter).stack_view().len() + pops == old(interpreter).stack_view().len() + pushes,
            None => true,
        },
        match needed_depth(word) {
            Some(depth) => r is Ok <==> old(interpreter).stack_view().len() >= depth,
            None => true,
        },
        native_outcome(word, old(interpreter).stack_view(), final(interpreter).stack_view(), r),
        works_on_stack(word) ==> final(interpreter).same_but_stack(old(interpreter)),
    decreases old(interpreter).calls_left(), 19int,
{
    match word {
        NativeWord::Dup => word_dup(interpreter),
        NativeWord::Drop => word_drop(interpreter),
        NativeWord::Swap => word_swap(interpreter),
        NativeWord::Over => word_over(interpreter),
        NativeWord::Rot => word_rot(interpreter),
        NativeWord::StackDepth => word_stack_depth(interpreter),
        NativeWord::Pick => word_pick(interpreter, host),
        NativeWord::PushTo => word_push_to(interpreter, host),
        NativeWord::ArrayNew => word_array_new(interpreter, host),
        NativeWord::ArraySize => word_array_size(interpreter),
        NativeWord::ArrayWriteIndex => word_array_write_index(interpreter, host),
        NativeWord::ArrayReadIndex => word_array_read_index(interpreter, host),
        NativeWord::ArrayResize => word_array_resize(interpreter, host),
        NativeWord::ArrayInsert => word_array_insert(interpreter, host),
        NativeWord::ArrayDelete => word_array_delete(interpreter, host),
        NativeWord::ArrayPlus => word_array_plus(interpreter),
        NativeWord::ArrayCompare => word_array_compare(interpreter, host),
        NativeWord::ArrayPushFront => word_array_push(interpreter, true),
        NativeWord::ArrayPushBack => word_array_push(interpreter, false),
        NativeWord::ArrayPopFront => word_array_pop(interpreter, true),
        NativeWord::ArrayPopBack => word_array_pop(interpreter, false),
        NativeWord::BufferNew => word_buffer_new(interpreter, host),
        NativeWord::BufferSize => word_buffer_size(interpreter),
        NativeWord::BufferResize => word_buffer_resize(interpreter, host),
        NativeWord::BufferWriteInt => word_buffer_write_int(interpreter, host),
        NativeWord::BufferReadInt => word_buffer_read_int(interpreter, host),
        NativeWord::BufferWriteFloat => word_buffer_write_float(interpreter, host),
        NativeWord::BufferReadFloat => word_buffer_read_float(interpreter, host),
        NativeWord::BufferWriteString => word_buffer_write_string(interpreter, host),
        NativeWord::BufferReadString => word_buffer_read_string(interpreter, host),
        NativeWord::BufferSetPosition => word_buffer_set_position(interpreter, host),
        NativeWord::BufferGetPosition => word_buffer_get_position(interpreter),
        NativeWord::HashNew => word_hash_table_new(interpreter),
        NativeWord::HashInsert => word_hash_table_insert(interpreter),
        NativeWord::HashFind => word_hash_table_find(interpreter, host, false),
        NativeWord::HashExists => word_hash_table_find(interpreter, host, true),
        NativeWord::HashPlus => word_hash_plus(interpreter),
        NativeWord::HashCompare => word_hash_compare(interpreter, host),
        NativeWord::HashSize => word_hash_table_size(interpreter),
        NativeWord::HashIterate => word_hash_table_iterate(interpreter, host),
        NativeWord::DataDefinition => word_data_definition(interpreter, host),
        NativeWord::ReadField => word_read_field(interpreter, host),
        NativeWord::WriteField => word_write_field(interpreter, host),
        NativeWord::StructureIterate => word_structure_iterate(interpreter, host),
        NativeWord::StructureFieldExists => word_structure_field_exists(interpreter, host),
        NativeWord::StructureCompare => word_structure_compare(interpreter, host),
        NativeWord::OpDefVariable => word_op_with_operand(interpreter, OperandOp::DefVariable),
        NativeWord::OpDefConstant => word_op_with_operand(interpreter, OperandOp::DefConstant),
        NativeWord::OpReadVariable => word_op_plain(interpreter, PlainOp::ReadVariable),
        NativeWord::OpWriteVariable => word_op_plain(interpreter, PlainOp::WriteVariable),
        NativeWord::OpExecute => word_op_with_operand(interpreter, OperandOp::Execute),
        NativeWord::OpPushConstantValue => word_op_with_operand(
            interpreter,
            OperandOp::PushConstantValue,
        ),
        NativeWord::OpMarkLoopExit => word_op_with_operand(interpreter, OperandOp::MarkLoopExit),
        NativeWord::OpUnmarkLoopExit => word_op_plain(interpreter, PlainOp::UnmarkLoopExit),
        NativeWord::OpMarkCatch => word_op_with_operand(interpreter, OperandOp::MarkCatch),
        NativeWord::OpUnmarkCatch => word_op_plain(interpreter, PlainOp::UnmarkCatch),
        NativeWord::OpJump => word_op_with_operand(interpreter, OperandOp::Jump),
        NativeWord::OpJumpIfZero => word_op_with_operand(interpreter, OperandOp::JumpIfZero),
        NativeWord::OpJumpIfNotZero => word_op_with_operand(interpreter, OperandOp::JumpIfNotZero),
        NativeWord::OpJumpLoopStart => word_op_plain(interpreter, PlainOp::JumpLoopStart),
        NativeWord::OpJumpLoopExit => word_op_plain(interpreter, PlainOp::JumpLoopExit),
        NativeWord::OpJumpTarget => word_op_with_operand(interpreter, OperandOp::JumpTarget),
        NativeWord::CodeNewBlock => word_code_new_block(interpreter),
        NativeWord::CodeMergeStackBlock => word_code_merge_stack_block(interpreter),
        NativeWord::CodePopStackBlock => word_code_pop_stack_block(interpreter),
        NativeWord::CodePushStackBlock => word_code_push_stack_block(interpreter),
        NativeWord::CodeStackBlockSize => word_code_stack_block_size(interpreter),
        NativeWord::CodeResolveJumps => word_code_resolve_jumps(interpreter),
        NativeWord::CodeCompileUntilWords => word_code_compile_until_words(interpreter, host),
        NativeWord::CodeInsertAtFront => word_code_insert_at_front(interpreter),
        NativeWord::CodeExecuteSource => word_code_execute_source(interpreter, host),
        NativeWord::Word => word_word(interpreter),
        NativeWord::GetWordTable => word_get_word_table(interpreter),
        NativeWord::WordIndex => word_word_index(interpreter),
        NativeWord::Execute => word_execute(interpreter, host),
        NativeWord::IsDefined => word_is_defined(interpreter, host),
        NativeWord::IsDefinedIm => word_is_defined_im(interpreter, false),
        NativeWord::IsUndefinedIm => word_is_defined_im(interpreter, true),
        NativeWord::StartWord => word_start_word(interpreter, host),
        NativeWord::EndWord => word_end_word(interpreter),
        NativeWord::Immediate => word_immediate(interpreter),
        NativeWord::Hidden => word_hidden(interpreter),
        NativeWord::Description => word_describe(interpreter, false),
        NativeWord::Signature => word_describe(interpreter, true),
        NativeWord::Hex => word_hex(interpreter, host),
        NativeWord::UniqueStr => word_unique_str(interpreter),
        NativeWord::FfiLoad => word_ffi_open(interpreter, host),
        NativeWord::FfiFn => word_ffi_fn(interpreter, host),
        NativeWord::FfiStruct => word_ffi_struct(interpreter),
        NativeWord::FfiArray => word_ffi_array(interpreter),
        NativeWord::Reset => word_reset(interpreter),
        NativeWord::Include => word_include(interpreter, host),
        NativeWord::IncludeIm => word_include_im(interpreter, host),
        NativeWord::SorthVersion => word_sorth_version(interpreter),
        NativeWord::SorthSearchPath => word_sorth_search_path(interpreter),
        NativeWord::SorthFindFile => word_sorth_find_file(interpreter, host),
        NativeWord::SorthMemory => word_sorth_memory(interpreter),
        NativeWord::TermIsPrintable => word_term_is_printable(interpreter, host),
        NativeWord::Throw => word_throw(interpreter, host),
        NativeWord::PrintStack => word_print_stack(interpreter, host),
        NativeWord::PrintDictionary => word_print_dictionary(interpreter, host),
        NativeWord::TermWrite => word_term_write(interpreter, host),
        NativeWord::Add => word_add(interpreter, host),
        NativeWord::Subtract => math_op(interpreter, host, MathOp::Subtract),
        NativeWord::Multiply => math_op(interpreter, host, MathOp::Multiply),
        NativeWord::Divide => math_op(interpreter, host, MathOp::Divide),
        NativeWord::Mod => math_op(interpreter, host, MathOp::Modulo),
        NativeWord::LogicAnd => logic_op(interpreter, true),
        NativeWord::LogicOr => logic_op(interpreter, false),
        NativeWord::LogicNot => word_logic_not(interpreter),
        NativeWord::BitAnd => logic_bit_op(interpreter, host, BitOp::And),
        NativeWord::BitOr => logic_bit_op(interpreter, host, BitOp::Or),
        NativeWord::BitXor => logic_bit_op(interpreter, host, BitOp::Xor),
        NativeWord::BitNot => word_bit_not(interpreter, host),
        NativeWord::BitLeftShift => logic_bit_op(interpreter, host, BitOp::LeftShift),
        NativeWord::BitRightShift => logic_bit_op(interpreter, host, BitOp::RightShift),
        NativeWord::Equal => word_equal(interpreter, host),
        NativeWord::GreaterEqual => order_op(interpreter, host, OrderOp::GreaterEqual),
        NativeWord::LessEqual => order_op(interpreter, host, OrderOp::LessEqual),
        NativeWord::Greater => order_op(interpreter, host, OrderOp::Greater),
        NativeWord::Less => order_op(interpreter, host, OrderOp::Less),
    }
}


/// The name that a word has in the language.
pub open spec fn native_name(word: NativeWord) -> Seq<char> {
    match word {
        NativeWord::ArrayNew => "[].new"@,
        NativeWord::ArraySize => "[].size@"@,
        NativeWord::ArrayWriteIndex => "[]!"@,
        NativeWord::ArrayReadIndex => "[]@"@,
        NativeWord::ArrayResize => "[].size!"@,
        NativeWord::ArrayInsert => "[].insert"@,
        NativeWord::ArrayDelete => "[].delete"@,
        NativeWord::ArrayPlus => "[].+"@,
        NativeWord::ArrayCompare => "[].="@,
        NativeWord::ArrayPushFront => "[].push_front!"@,
        NativeWord::ArrayPushBack => "[].push_back!"@,
        NativeWord::ArrayPopFront => "[].pop_front!"@,
        NativeWord::ArrayPopBack => "[].pop_back!"@,
        NativeWord::BufferNew => "buffer.new"@,
        NativeWord::BufferSize => "buffer.size@"@,
        NativeWord::BufferResize => "buffer.size!"@,
        NativeWord::BufferWriteInt => "buffer.int!"@,
        NativeWord::BufferReadInt => "buffer.int@"@,
        NativeWord::BufferWriteFloat => "buffer.float!"@,
        NativeWord::BufferReadFloat => "buffer.float@"@,
        NativeWord::BufferWriteString => "buffer.string!"@,
        NativeWord::BufferReadString => "buffer.string@"@,
        NativeWord::BufferSetPosition => "buffer.position!"@,
        NativeWord::BufferGetPosition => "buffer.position@"@,
        NativeWord::OpDefVariable => "op.def_variable"@,
        NativeWord::OpDefConstant => "op.def_constant"@,
        NativeWord::OpReadVariable => "op.read_variable"@,
        NativeWord::OpWriteVariable => "op.write_variable"@,
        NativeWord::OpExecute => "op.execute"@,
        NativeWord::OpPushConstantValue => "op.push_constant_value"@,
        NativeWord::OpMarkLoopExit => "op.mark_loop_exit"@,
        NativeWord::OpUnmarkLoopExit => "op.unmark_loop_exit"@,
        NativeWord::OpMarkCatch => "op.mark_catch"@,
        NativeWord::OpUnmarkCatch => "op.unmark_catch"@,
        NativeWord::OpJump => "op.jump"@,
        NativeWord::OpJumpIfZero => "op.jump_if_zero"@,
        NativeWord::OpJumpIfNotZero => "op.jump_if_not_zero"@,
        NativeWord::OpJumpLoopStart => "op.jump_loop_start"@,
        NativeWord::OpJumpLoopExit => "op.jump_loop_exit"@,
        NativeWord::OpJumpTarget => "op.jump_target"@,
        NativeWord::CodeNewBlock => "code.new_block"@,
        NativeWord::CodeMergeStackBlock => "code.merge_stack_block"@,
        NativeWord::CodePopStackBlock => "code.pop_stack_block"@,
        NativeWord::CodePushStackBlock => "code.push_stack_block"@,
        NativeWord::CodeStackBlockSize => "code.stack_block_size@"@,
        NativeWord::CodeResolveJumps => "code.resolve_jumps"@,
        NativeWord::CodeCompileUntilWords => "code.compile_until_words"@,
        NativeWord::CodeInsertAtFront => "code.insert_at_front"@,
        NativeWord::CodeExecuteSource => "code.execute_source"@,
        NativeWord::DataDefinition => "#"@,
        NativeWord::ReadField => "#@"@,
        NativeWord::WriteField => "#!"@,
        NativeWord::StructureIterate => "#.iterate"@,
        NativeWord::StructureFieldExists => "#.field-exists?"@,
        NativeWord::StructureCompare => "#.="@,
        NativeWord::HashNew => "{}.new"@,
        NativeWord::HashInsert => "{}!"@,
        NativeWord::HashFind => "{}@"@,
        NativeWord::HashExists => "{}?"@,
        NativeWord::HashPlus => "{}.+"@,
        NativeWord::HashCompare => "{}.="@,
        NativeWord::HashSize => "{}.size@"@,
        NativeWord::HashIterate => "{}.iterate"@,
        NativeWord::Add => "+"@,
        NativeWord::Subtract => "-"@,
        NativeWord::Multiply => "*"@,
        NativeWord::Divide => "/"@,
        NativeWord::Mod => "%"@,
        NativeWord::LogicAnd => "&&"@,
        NativeWord::LogicOr => "||"@,
        NativeWord::LogicNot => "'"@,
        NativeWord::BitAnd => "&"@,
        NativeWord::BitOr => "|"@,
        NativeWord::BitXor => "^"@,
        NativeWord::BitNot => "~"@,
        NativeWord::BitLeftShift => "<<"@,
        NativeWord::BitRightShift => ">>"@,
        NativeWord::Equal => "="@,
        NativeWord::GreaterEqual => ">="@,
        NativeWord::LessEqual => "<="@,
        NativeWord::Greater => ">"@,
        NativeWord::Less => "<"@,
        NativeWord::Reset => "reset"@,
        NativeWord::Include => "include"@,
        NativeWord::IncludeIm => "[include]"@,
        NativeWord::PrintStack => ".s"@,
        NativeWord::PrintDictionary => ".w"@,
        NativeWord::SorthVersion => "sorth.version"@,
        NativeWord::SorthSearchPath => "sorth.search-path"@,
        NativeWord::SorthFindFile => "sorth.find-file"@,
        NativeWord::SorthMemory => "sorth.memory"@,
        NativeWord::TermIsPrintable => "term.is_printable?"@,
        NativeWord::Throw => "throw"@,
        NativeWord::Dup => "dup"@,
        NativeWord::Drop => "drop"@,
        NativeWord::Swap => "swap"@,
        NativeWord::Over => "over"@,
        NativeWord::Rot => "rot"@,
        NativeWord::StackDepth => "stack.depth"@,
        NativeWord::Pick => "pick"@,
        NativeWord::PushTo => "push-to"@,
        NativeWord::Hex => "hex"@,
        NativeWord::UniqueStr => "unique_str"@,
        NativeWord::StartWord => ":"@,
        NativeWord::EndWord => ";"@,
        NativeWord::Immediate => "immediate"@,
        NativeWord::Hidden => "hidden"@,
        NativeWord::Description => "description:"@,
        NativeWord::Signature => "signature:"@,
        NativeWord::Word => "word"@,
        NativeWord::GetWordTable => "words.get{}"@,
        NativeWord::WordIndex => "`"@,
        NativeWord::Execute => "execute"@,
        NativeWord::IsDefined => "defined?"@,
        NativeWord::IsDefinedIm => "[defined?]"@,
        NativeWord::IsUndefinedIm => "[undefined?]"@,
        NativeWord::FfiLoad => "ffi.load"@,
        NativeWord::FfiFn => "ffi.fn"@,
        NativeWord::FfiStruct => "ffi.#"@,
        NativeWord::FfiArray => "ffi.[]"@,
        NativeWord::TermWrite => "term.!"@,
    }
}

/// The name of a word in the language.
pub fn word_name(word: NativeWord) -> (r: &'static str)
    ensures
        r@ == native_name(word),
{
    match word {
        NativeWord::ArrayNew => "[].new",
        NativeWord::ArraySize => "[].size@",
        NativeWord::ArrayWriteIndex => "[]!",
        NativeWord::ArrayReadIndex => "[]@",
        NativeWord::ArrayResize => "[].size!",
        NativeWord::ArrayInsert => "[].insert",
        NativeWord::ArrayDelete => "[].delete",
        NativeWord::ArrayPlus => "[].+",
        NativeWord::ArrayCompare => "[].=",
        NativeWord::ArrayPushFront => "[].push_front!",
        NativeWord::ArrayPushBack => "[].push_back!",
        NativeWord::ArrayPopFront => "[].pop_front!",
        NativeWord::ArrayPopBack => "[].pop_back!",
        NativeWord::BufferNew => "buffer.new",
        NativeWord::BufferSize => "buffer.size@",
        NativeWord::BufferResize => "buffer.size!",
        NativeWord::BufferWriteInt => "buffer.int!",
        NativeWord::BufferReadInt => "buffer.int@",
        NativeWord::BufferWriteFloat => "buffer.float!",
        NativeWord::BufferReadFloat => "buffer.float@",
        NativeWord::BufferWriteString => "buffer.string!",
        NativeWord::BufferReadString => "buffer.string@",
        NativeWord::BufferSetPosition => "buffer.position!",
        NativeWord::BufferGetPosition => "buffer.position@",
        NativeWord::OpDefVariable => "op.def_variable",
        NativeWord::OpDefConstant => "op.def_constant",
        NativeWord::OpReadVariable => "op.read_variable",
        NativeWord::OpWriteVariable => "op.write_variable",
        NativeWord::OpExecute => "op.execute",
        NativeWord::OpPushConstantValue => "op.push_constant_value",
        NativeWord::OpMarkLoopExit => "op.mark_loop_exit",
        NativeWord::OpUnmarkLoopExit => "op.unmark_loop_exit",
        NativeWord::OpMarkCatch => "op.mark_catch",
        NativeWord::OpUnmarkCatch => "op.unmark_catch",
        NativeWord::OpJump => "op.jump",
        NativeWord::OpJumpIfZero => "op.jump_if_zero",
        NativeWord::OpJumpIfNotZero => "op.jump_if_not_zero",
        NativeWord::OpJumpLoopStart => "op.jump_loop_start",
        NativeWord::OpJumpLoopExit => "op.jump_loop_exit",
        NativeWord::OpJumpTarget => "op.jump_target",
        NativeWord::CodeNewBlock => "code.new_block",
        NativeWord::CodeMergeStackBlock => "code.merge_stack_block",
        NativeWord::CodePopStackBlock => "code.pop_stack_block",
        NativeWord::CodePushStackBlock => "code.push_stack_block",
        NativeWord::CodeStackBlockSize => "code.stack_block_size@",
        NativeWord::CodeResolveJumps => "code.resolve_jumps",
        NativeWord::CodeCompileUntilWords => "code.compile_until_words",
        NativeWord::CodeInsertAtFront => "code.insert_at_front",
        NativeWord::CodeExecuteSource => "code.execute_source",
        NativeWord::DataDefinition => "#",
        NativeWord::ReadField => "#@",
        NativeWord::WriteField => "#!",
        NativeWord::StructureIterate => "#.iterate",
        NativeWord::StructureFieldExists => "#.field-exists?",
        NativeWord::StructureCompare => "#.=",
        NativeWord::HashNew => "{}.new",
        NativeWord::HashInsert => "{}!",
        NativeWord::HashFind => "{}@",
        NativeWord::HashExists => "{}?",
        NativeWord::HashPlus => "{}.+",
        NativeWord::HashCompare => "{}.=",
        NativeWord::HashSize => "{}.size@",
        NativeWord::HashIterate => "{}.iterate",
        NativeWord::Add => "+",
        NativeWord::Subtract => "-",
        NativeWord::Multiply => "*",
        NativeWord::Divide => "/",
        NativeWord::Mod => "%",
        NativeWord::LogicAnd => "&&",
        NativeWord::LogicOr => "||",
        NativeWord::LogicNot => "'",
        NativeWord::BitAnd => "&",
        NativeWord::BitOr => "|",
        NativeWord::BitXor => "^",
        NativeWord::BitNot => "~",
        NativeWord::BitLeftShift => "<<",
        NativeWord::BitRightShift => ">>",
        NativeWord::Equal => "=",
        NativeWord::GreaterEqual => ">=",
        NativeWord::LessEqual => "<=",
        NativeWord::Greater => ">",
        NativeWord::Less => "<",
        NativeWord::Reset => "reset",
        NativeWord::Include => "include",
        NativeWord::IncludeIm => "[include]",
        NativeWord::PrintStack => ".s",
        NativeWord::PrintDictionary => ".w",
        NativeWord::SorthVersion => "sorth.version",
        NativeWord::SorthSearchPath => "sorth.search-path",
        NativeWord::SorthFindFile => "sorth.find-file",
        NativeWord::SorthMemory => "sorth.memory",
        NativeWord::TermIsPrintable => "term.is_printable?",
        NativeWord::Throw => "throw",
        NativeWord::Dup => "dup",
        NativeWord::Drop => "drop",
        NativeWord::Swap => "swap",
        NativeWord::Over => "over",
        NativeWord::Rot => "rot",
        NativeWord::StackDepth => "stack.depth",
        NativeWord::Pick => "pick",
        NativeWord::PushTo => "push-to",
        NativeWord::Hex => "hex",
        NativeWord::UniqueStr => "unique_str",
        NativeWord::StartWord => ":",
        NativeWord::EndWord => ";",
        NativeWord::Immediate => "immediate",
        NativeWord::Hidden => "hidden",
        NativeWord::Description => "description:",
        NativeWord::Signature => "signature:",
        NativeWord::Word => "word",
        NativeWord::GetWordTable => "words.get{}",
        NativeWord::WordIndex => "`",
        NativeWord::Execute => "execute",
        NativeWord::IsDefined => "defined?",
        NativeWord::IsDefinedIm => "[defined?]",
        NativeWord::IsUndefinedIm => "[undefined?]",
        NativeWord::FfiLoad => "ffi.load",
        NativeWord::FfiFn => "ffi.fn",
        NativeWord::FfiStruct => "ffi.#",
        NativeWord::FfiArray => "ffi.[]",
        NativeWord::TermWrite => "term.!",
    }
}

/// What a word does, as the listing of the dictionary says it.
pub open spec fn native_description(word: NativeWord) -> Seq<char> {
    match word {
        NativeWord::ArrayNew => "Create a new array with the given default size."@,
        NativeWord::ArraySize => "Read the size of the array object."@,
        NativeWord::ArrayWriteIndex => "Write to a value in the array."@,
        NativeWord::ArrayReadIndex => "Read a value from the array."@,
        NativeWord::ArrayResize => "Grow or shrink the array to the new size."@,
        NativeWord::ArrayInsert => "Grow an array by inserting a value at the given location."@,
        NativeWord::ArrayDelete => "Shrink an array by removing the value at the given location."@,
        NativeWord::ArrayPlus => "Take two arrays and deep copy the contents from the second into the first."@,
        NativeWord::ArrayCompare => "Take two arrays and compare the contents to each other."@,
        NativeWord::ArrayPushFront => "Push a value to the front of an array."@,
        NativeWord::ArrayPushBack => "Push a value to the end of an array."@,
        NativeWord::ArrayPopFront => "Pop a value from the front of an array."@,
        NativeWord::ArrayPopBack => "Pop a value from the back of an array."@,
        NativeWord::BufferNew => "Create a new byte buffer."@,
        NativeWord::BufferSize => "Get the size of a byte buffer."@,
        NativeWord::BufferResize => "Resize an existing byte buffer."@,
        NativeWord::BufferWriteInt => "Write an integer of a given size to the buffer."@,
        NativeWord::BufferReadInt => "Read an integer of a given size from the buffer."@,
        NativeWord::BufferWriteFloat => "Write a float of a given size to the buffer."@,
        NativeWord::BufferReadFloat => "read a float of a given size from the buffer."@,
        NativeWord::BufferWriteString => "Write a string of given size to the buffer.  Padded with 0s if needed."@,
        NativeWord::BufferReadString => "Read a string of a given max size from the buffer."@,
        NativeWord::BufferSetPosition => "Set the position of the buffer pointer."@,
        NativeWord::BufferGetPosition => "Get the position of the buffer pointer."@,
        NativeWord::OpDefVariable => "Insert this instruction into the byte stream."@,
        NativeWord::OpDefConstant => "Insert this instruction into the byte stream."@,
        NativeWord::OpReadVariable => "Insert this instruction into the byte stream."@,
        NativeWord::OpWriteVariable => "Insert this instruction into the byte stream."@,
        NativeWord::OpExecute => "Insert this instruction into the byte stream."@,
        NativeWord::OpPushConstantValue => "Insert this instruction into the byte stream."@,
        NativeWord::OpMarkLoopExit => "Insert this instruction into the byte stream."@,
        NativeWord::OpUnmarkLoopExit => "Insert this instruction into the byte stream."@,
        NativeWord::OpMarkCatch => "Insert this instruction into the byte stream."@,
        NativeWord::OpUnmarkCatch => "Insert this instruction into the byte stream."@,
        NativeWord::OpJump => "Insert this instruction into the byte stream."@,
        NativeWord::OpJumpIfZero => "Insert this instruction into the byte stream."@,
        NativeWord::OpJumpIfNotZero => "Insert this instruction into the byte stream."@,
        NativeWord::OpJumpLoopStart => "Insert this instruction into the byte stream."@,
        NativeWord::OpJumpLoopExit => "Insert this instruction into the byte stream."@,
        NativeWord::OpJumpTarget => "Insert this instruction into the byte stream."@,
        NativeWord::CodeNewBlock => "Create a new sub-block on the code generation stack."@,
        NativeWord::CodeMergeStackBlock => "Merge the top code block into the one below."@,
        NativeWord::CodePopStackBlock => "Pop a code block off of the code stack and onto the data stack."@,
        NativeWord::CodePushStackBlock => "Pop a block from the data stack and back onto the code stack."@,
        NativeWord::CodeStackBlockSize => "Read the size of the code block at the top of the stack."@,
        NativeWord::CodeResolveJumps => "Resolve all of the jumps in the top code block."@,
        NativeWord::CodeCompileUntilWords => "Compile words until one of the given words is found."@,
        NativeWord::CodeInsertAtFront => "When true new instructions are added beginning of the block."@,
        NativeWord::CodeExecuteSource => "Interpret and execute a string like it is source code."@,
        NativeWord::DataDefinition => "Beginning of a structure definition."@,
        NativeWord::ReadField => "Read a field from a structure."@,
        NativeWord::WriteField => "Write to a field of a structure."@,
        NativeWord::StructureIterate => "Call an iterator for each member of a structure."@,
        NativeWord::StructureFieldExists => "Check if the named structure field exits."@,
        NativeWord::StructureCompare => "Check if two structures are the same."@,
        NativeWord::HashNew => "Create a new hash table."@,
        NativeWord::HashInsert => "Write a value to a given key in the table."@,
        NativeWord::HashFind => "Read a value from a given key in the table."@,
        NativeWord::HashExists => "Check if a given key exists in the table."@,
        NativeWord::HashPlus => "Take two hashes and deep copy the contents from the second into the first."@,
        NativeWord::HashCompare => "Take two hashes and compare their contents."@,
        NativeWord::HashSize => "Get the size of the hash table."@,
        NativeWord::HashIterate => "Iterate through a hash table and call a word for each item."@,
        NativeWord::Add => "Add 2 numbers or strings together."@,
        NativeWord::Subtract => "Subtract 2 numbers."@,
        NativeWord::Multiply => "Multiply 2 numbers."@,
        NativeWord::Divide => "Divide 2 numbers."@,
        NativeWord::Mod => "Mod 2 numbers."@,
        NativeWord::LogicAnd => "Logically compare 2 values."@,
        NativeWord::LogicOr => "Logically compare 2 values."@,
        NativeWord::LogicNot => "Logically invert a boolean value."@,
        NativeWord::BitAnd => "Bitwise AND two numbers together."@,
        NativeWord::BitOr => "Bitwise OR two numbers together."@,
        NativeWord::BitXor => "Bitwise XOR two numbers together."@,
        NativeWord::BitNot => "Bitwise NOT a number."@,
        NativeWord::BitLeftShift => "Shift a numbers bits to the left."@,
        NativeWord::BitRightShift => "Shift a numbers bits to the right."@,
        NativeWord::Equal => "Are 2 values equal?"@,
        NativeWord::GreaterEqual => "Is one value greater or equal to another?"@,
        NativeWord::LessEqual => "Is one value less than or equal to another?"@,
        NativeWord::Greater => "Is one value greater than another?"@,
        NativeWord::Less => "Is one value less than another?"@,
        NativeWord::Reset => "Reset the interpreter to it's default state."@,
        NativeWord::Include => "Include and execute another source file."@,
        NativeWord::IncludeIm => "Include and execute another source file."@,
        NativeWord::PrintStack => "Print out the data stack without changing it."@,
        NativeWord::PrintDictionary => "Print out the current word dictionary."@,
        NativeWord::SorthVersion => "Get the current version of the interpreter."@,
        NativeWord::SorthSearchPath => "Get the search path being used by the interpreter."@,
        NativeWord::SorthFindFile => "Search for a file within the given search paths."@,
        NativeWord::SorthMemory => "Get the size of the process's working set."@,
        NativeWord::TermIsPrintable => "Is the given character printable?"@,
        NativeWord::Throw => "Throw an exception with the given message."@,
        NativeWord::Dup => "Duplicate the top value on the data stack."@,
        NativeWord::Drop => "Discard the top value on the data stack."@,
        NativeWord::Swap => "Swap the top 2 values on the data stack."@,
        NativeWord::Over => "Make a copy of the top value and place the copy under the second."@,
        NativeWord::Rot => "Rotate the top 3 values on the stack."@,
        NativeWord::StackDepth => "Get the current depth of the stack."@,
        NativeWord::Pick => "Pick the value n locations down in the stack and push it on the top."@,
        NativeWord::PushTo => "Pop the top value and push it back into the stack a position from the top."@,
        NativeWord::Hex => "Convert a number into a hex string."@,
        NativeWord::UniqueStr => "Generate a unique string and push it onto the data stack."@,
        NativeWord::StartWord => "Start a new word definition."@,
        NativeWord::EndWord => "End the definition of the newly created word."@,
        NativeWord::Immediate => "Mark the new word as immediate."@,
        NativeWord::Hidden => "Mark the new word as hidden from the directory."@,
        NativeWord::Description => "Give a description for the new word."@,
        NativeWord::Signature => "Document the word's signature."@,
        NativeWord::Word => "Get the next word in the token stream."@,
        NativeWord::GetWordTable => "Get a copy of the word table as it exists at time of calling."@,
        NativeWord::WordIndex => "Get the index of the next word."@,
        NativeWord::Execute => "Execute a word name or index."@,
        NativeWord::IsDefined => "Is the given word defined?"@,
        NativeWord::IsDefinedIm => "Evaluate at compile time, is the given word defined?"@,
        NativeWord::IsUndefinedIm => "Evaluate at compile time, is the given word not defined?"@,
        NativeWord::FfiLoad => "Load an binary library and register it with the ffi interface."@,
        NativeWord::FfiFn => "Bind to an external function."@,
        NativeWord::FfiStruct => "Create a structure compatible with the ffi interface."@,
        NativeWord::FfiArray => "Register a new ffi array type for the existing ffi type."@,
        NativeWord::TermWrite => "Write a value to the console."@,
    }
}

/// What a word does, in a sentence.
pub fn word_description(word: NativeWord) -> (r: &'static str)
    ensures
        r@ == native_description(word),
{
    match word {
        NativeWord::ArrayNew => "Create a new array with the given default size.",
        NativeWord::ArraySize => "Read the size of the array object.",
        NativeWord::ArrayWriteIndex => "Write to a value in the array.",
        NativeWord::ArrayReadIndex => "Read a value from the array.",
        NativeWord::ArrayResize => "Grow or shrink the array to the new size.",
        NativeWord::ArrayInsert => "Grow an array by inserting a value at the given location.",
        NativeWord::ArrayDelete => "Shrink an array by removing the value at the given location.",
        NativeWord::ArrayPlus => "Take two arrays and deep copy the contents from the second into the first.",
        NativeWord::ArrayCompare => "Take two arrays and compare the contents to each other.",
        NativeWord::ArrayPushFront => "Push a value to the front of an array.",
        NativeWord::ArrayPushBack => "Push a value to the end of an array.",
        NativeWord::ArrayPopFront => "Pop a value from the front of an array.",
        NativeWord::ArrayPopBack => "Pop a value from the back of an array.",
        NativeWord::BufferNew => "Create a new byte buffer.",
        NativeWord::BufferSize => "Get the size of a byte buffer.",
        NativeWord::BufferResize => "Resize an existing byte buffer.",
        NativeWord::BufferWriteInt => "Write an integer of a given size to the buffer.",
        NativeWord::BufferReadInt => "Read an integer of a given size from the buffer.",
        NativeWord::BufferWriteFloat => "Write a float of a given size to the buffer.",
        NativeWord::BufferReadFloat => "read a float of a given size from the buffer.",
        NativeWord::BufferWriteString => "Write a string of given size to the buffer.  Padded with 0s if needed.",
        NativeWord::BufferReadString => "Read a string of a given max size from the buffer.",
        NativeWord::BufferSetPosition => "Set the position of the buffer pointer.",
        NativeWord::BufferGetPosition => "Get the position of the buffer pointer.",
        NativeWord::OpDefVariable => "Insert this instruction into the byte stream.",
        NativeWord::OpDefConstant => "Insert this instruction into the byte stream.",
        NativeWord::OpReadVariable => "Insert this instruction into the byte stream.",
        NativeWord::OpWriteVariable => "Insert this instruction into the byte stream.",
        NativeWord::OpExecute => "Insert this instruction into the byte stream.",
        NativeWord::OpPushConstantValue => "Insert this instruction into the byte stream.",
        NativeWord::OpMarkLoopExit => "Insert this instruction into the byte stream.",
        NativeWord::OpUnmarkLoopExit => "Insert this instruction into the byte stream.",
        NativeWord::OpMarkCatch => "Insert this instruction into the byte stream.",
        NativeWord::OpUnmarkCatch => "Insert this instruction into the byte stream.",
        NativeWord::OpJump => "Insert this instruction into the byte stream.",
        NativeWord::OpJumpIfZero => "Insert this instruction into the byte stream.",
        NativeWord::OpJumpIfNotZero => "Insert this instruction into the byte stream.",
        NativeWord::OpJumpLoopStart => "Insert this instruction into the byte stream.",
        NativeWord::OpJumpLoopExit => "Insert this instruction into the byte stream.",
        NativeWord::OpJumpTarget => "Insert this instruction into the byte stream.",
        NativeWord::CodeNewBlock => "Create a new sub-block on the code generation stack.",
        NativeWord::CodeMergeStackBlock => "Merge the top code block into the one below.",
        NativeWord::CodePopStackBlock => "Pop a code block off of the code stack and onto the data stack.",
        NativeWord::CodePushStackBlock => "Pop a block from the data stack and back onto the code stack.",
        NativeWord::CodeStackBlockSize => "Read the size of the code block at the top of the stack.",
        NativeWord::CodeResolveJumps => "Resolve all of the jumps in the top code block.",
        NativeWord::CodeCompileUntilWords => "Compile words until one of the given words is found.",
        NativeWord::CodeInsertAtFront => "When true new instructions are added beginning of the block.",
        NativeWord::CodeExecuteSource => "Interpret and execute a string like it is source code.",
        NativeWord::DataDefinition => "Beginning of a structure definition.",
        NativeWord::ReadField => "Read a field from a structure.",
        NativeWord::WriteField => "Write to a field of a structure.",
        NativeWord::StructureIterate => "Call an iterator for each member of a structure.",
        NativeWord::StructureFieldExists => "Check if the named structure field exits.",
        NativeWord::StructureCompare => "Check if two structures are the same.",
        NativeWord::HashNew => "Create a new hash table.",
        NativeWord::HashInsert => "Write a value to a given key in the table.",
        NativeWord::HashFind => "Read a value from a given key in the table.",
        NativeWord::HashExists => "Check if a given key exists in the table.",
        NativeWord::HashPlus => "Take two hashes and deep copy the contents from the second into the first.",
        NativeWord::HashCompare => "Take two hashes and compare their contents.",
        NativeWord::HashSize => "Get the size of the hash table.",
        NativeWord::HashIterate => "Iterate through a hash table and call a word for each item.",
        NativeWord::Add => "Add 2 numbers or strings together.",
        NativeWord::Subtract => "Subtract 2 numbers.",
        NativeWord::Multiply => "Multiply 2 numbers.",
        NativeWord::Divide => "Divide 2 numbers.",
        NativeWord::Mod => "Mod 2 numbers.",
        NativeWord::LogicAnd => "Logically compare 2 values.",
        NativeWord::LogicOr => "Logically compare 2 values.",
        NativeWord::LogicNot => "Logically invert a boolean value.",
        NativeWord::BitAnd => "Bitwise AND two numbers together.",
        NativeWord::BitOr => "Bitwise OR two numbers together.",
        NativeWord::BitXor => "Bitwise XOR two numbers together.",
        NativeWord::BitNot => "Bitwise NOT a number.",
        NativeWord::BitLeftShift => "Shift a numbers bits to the left.",
        NativeWord::BitRightShift => "Shift a numbers bits to the right.",
        NativeWord::Equal => "Are 2 values equal?",
        NativeWord::GreaterEqual => "Is one value greater or equal to another?",
        NativeWord::LessEqual => "Is one value less than or equal to another?",
        NativeWord::Greater => "Is one value greater than another?",
        NativeWord::Less => "Is one value less than another?",
        NativeWord::Reset => "Reset the interpreter to it's default state.",
        NativeWord::Include => "Include and execute another source file.",
        NativeWord::IncludeIm => "Include and execute another source file.",
        NativeWord::PrintStack => "Print out the data stack without changing it.",
        NativeWord::PrintDictionary => "Print out the current word dictionary.",
        NativeWord::SorthVersion => "Get the current version of the interpreter.",
        NativeWord::SorthSearchPath => "Get the search path being used by the interpreter.",
        NativeWord::SorthFindFile => "Search for a file within the given search paths.",
        NativeWord::SorthMemory => "Get the size of the process's working set.",
        NativeWord::TermIsPrintable => "Is the given character printable?",
        NativeWord::Throw => "Throw an exception with the given message.",
        NativeWord::Dup => "Duplicate the top value on the data stack.",
        NativeWord::Drop => "Discard the top value on the data stack.",
        NativeWord::Swap => "Swap the top 2 values on the data stack.",
        NativeWord::Over => "Make a copy of the top value and place the copy under the second.",
        NativeWord::Rot => "Rotate the top 3 values on the stack.",
        NativeWord::StackDepth => "Get the current depth of the stack.",
        NativeWord::Pick => "Pick the value n locations down in the stack and push it on the top.",
        NativeWord::PushTo => "Pop the top value and push it back into the stack a position from the top.",
        NativeWord::Hex => "Convert a number into a hex string.",
        NativeWord::UniqueStr => "Generate a unique string and push it onto the data stack.",
        NativeWord::StartWord => "Start a new word definition.",
        NativeWord::EndWord => "End the definition of the newly created word.",
        NativeWord::Immediate => "Mark the new word as immediate.",
        NativeWord::Hidden => "Mark the new word as hidden from the directory.",
        NativeWord::Description => "Give a description for the new word.",
        NativeWord::Signature => "Document the word's signature.",
        NativeWord::Word => "Get the next word in the token stream.",
        NativeWord::GetWordTable => "Get a copy of the word table as it exists at time of calling.",
        NativeWord::WordIndex => "Get the index of the next word.",
        NativeWord::Execute => "Execute a word name or index.",
        NativeWord::IsDefined => "Is the given word defined?",
        NativeWord::IsDefinedIm => "Evaluate at compile time, is the given word defined?",
        NativeWord::IsUndefinedIm => "Evaluate at compile time, is the given word not defined?",
        NativeWord::FfiLoad => "Load an binary library and register it with the ffi interface.",
        NativeWord::FfiFn => "Bind to an external function.",
        NativeWord::FfiStruct => "Create a structure compatible with the ffi interface.",
        NativeWord::FfiArray => "Register a new ffi array type for the existing ffi type.",
        NativeWord::TermWrite => "Write a value to the console.",
    }
}

/// The values that a word takes and gives, as the listing of the dictionary
/// says it.
pub open spec fn native_signature(word: NativeWord) -> Seq<char> {
    match word {
        NativeWord::ArrayNew => " -- array"@,
        NativeWord::ArraySize => "array -- size"@,
        NativeWord::ArrayWriteIndex => "value index array -- "@,
        NativeWord::ArrayReadIndex => "index array -- value"@,
        NativeWord::ArrayResize => "array -- size"@,
        NativeWord::ArrayInsert => "value index array -- "@,
        NativeWord::ArrayDelete => "index array -- "@,
        NativeWord::ArrayPlus => "dest source -- dest"@,
        NativeWord::ArrayCompare => "dest source -- dest"@,
        NativeWord::ArrayPushFront => "value array -- "@,
        NativeWord::ArrayPushBack => "value array -- "@,
        NativeWord::ArrayPopFront => "array -- value"@,
        NativeWord::ArrayPopBack => "array -- value"@,
        NativeWord::BufferNew => "size -- buffer"@,
        NativeWord::BufferSize => " -- size"@,
        NativeWord::BufferResize => "size buffer -- "@,
        NativeWord::BufferWriteInt => "value buffer byte_size -- "@,
        NativeWord::BufferReadInt => "buffer byte_size is_signed -- value"@,
        NativeWord::BufferWriteFloat => "value buffer byte_size -- "@,
        NativeWord::BufferReadFloat => "buffer byte_size -- value"@,
        NativeWord::BufferWriteString => "value buffer size -- "@,
        NativeWord::BufferReadString => "size buffer -- value"@,
        NativeWord::BufferSetPosition => "position buffer -- "@,
        NativeWord::BufferGetPosition => "buffer -- position"@,
        NativeWord::OpDefVariable => "new-name -- "@,
        NativeWord::OpDefConstant => "new-name -- "@,
        NativeWord::OpReadVariable => " -- "@,
        NativeWord::OpWriteVariable => " -- "@,
        NativeWord::OpExecute => "index -- "@,
        NativeWord::OpPushConstantValue => "value -- "@,
        NativeWord::OpMarkLoopExit => "identifier -- "@,
        NativeWord::OpUnmarkLoopExit => " -- "@,
        NativeWord::OpMarkCatch => "identifier -- "@,
        NativeWord::OpUnmarkCatch => " -- "@,
        NativeWord::OpJump => "identifier -- "@,
        NativeWord::OpJumpIfZero => "identifier -- "@,
        NativeWord::OpJumpIfNotZero => "identifier -- "@,
        NativeWord::OpJumpLoopStart => " -- "@,
        NativeWord::OpJumpLoopExit => " -- "@,
        NativeWord::OpJumpTarget => "identifier -- "@,
        NativeWord::CodeNewBlock => " -- "@,
        NativeWord::CodeMergeStackBlock => " -- "@,
        NativeWord::CodePopStackBlock => " -- code_block"@,
        NativeWord::CodePushStackBlock => "code_block -- "@,
        NativeWord::CodeStackBlockSize => " -- code_size"@,
        NativeWord::CodeResolveJumps => " -- "@,
        NativeWord::CodeCompileUntilWords => "words... word_count -- found_word"@,
        NativeWord::CodeInsertAtFront => "bool -- "@,
        NativeWord::CodeExecuteSource => "string_to_execute -- ???"@,
        NativeWord::DataDefinition => " -- "@,
        NativeWord::ReadField => "field_index structure -- value"@,
        NativeWord::WriteField => "value field_index structure -- "@,
        NativeWord::StructureIterate => "word_or_index -- "@,
        NativeWord::StructureFieldExists => "field_name structure -- boolean"@,
        NativeWord::StructureCompare => "a b -- boolean"@,
        NativeWord::HashNew => " -- new_hash_table"@,
        NativeWord::HashInsert => "value key table -- "@,
        NativeWord::HashFind => "key table -- value"@,
        NativeWord::HashExists => "key table -- bool"@,
        NativeWord::HashPlus => "dest source -- dest"@,
        NativeWord::HashCompare => "a b -- was-match"@,
        NativeWord::HashSize => "table -- size"@,
        NativeWord::HashIterate => "word_index hash_table -- "@,
        NativeWord::Add => "a b -- result"@,
        NativeWord::Subtract => "a b -- result"@,
        NativeWord::Multiply => "a b -- result"@,
        NativeWord::Divide => "a b -- result"@,
        NativeWord::Mod => "a b -- result"@,
        NativeWord::LogicAnd => "a b -- bool"@,
        NativeWord::LogicOr => "a b -- bool"@,
        NativeWord::LogicNot => "bool -- bool"@,
        NativeWord::BitAnd => "a b -- result"@,
        NativeWord::BitOr => "a b -- result"@,
        NativeWord::BitXor => "a b -- result"@,
        NativeWord::BitNot => "number -- result"@,
        NativeWord::BitLeftShift => "value amount -- result"@,
        NativeWord::BitRightShift => "value amount -- result"@,
        NativeWord::Equal => "a b -- bool"@,
        NativeWord::GreaterEqual => "a b -- bool"@,
        NativeWord::LessEqual => "a b -- bool"@,
        NativeWord::Greater => "a b -- bool"@,
        NativeWord::Less => "a b -- bool"@,
        NativeWord::Reset => " -- "@,
        NativeWord::Include => "source_path -- "@,
        NativeWord::IncludeIm => "[include] file/to/include.f"@,
        NativeWord::PrintStack => " -- "@,
        NativeWord::PrintDictionary => " -- "@,
        NativeWord::SorthVersion => " -- version_string"@,
        NativeWord::SorthSearchPath => " -- search-paths"@,
        NativeWord::SorthFindFile => " -- full-file-path"@,
        NativeWord::SorthMemory => " -- memory-size"@,
        NativeWord::TermIsPrintable => "character -- bool"@,
        NativeWord::Throw => "message -- "@,
        NativeWord::Dup => "value -- value value"@,
        NativeWord::Drop => "value -- "@,
        NativeWord::Swap => "a b -- b a"@,
        NativeWord::Over => "a b -- b a b"@,
        NativeWord::Rot => "a b c -- c a b"@,
        NativeWord::StackDepth => " -- depth"@,
        NativeWord::Pick => "n -- value"@,
        NativeWord::PushTo => "n -- <updated-stack>>"@,
        NativeWord::Hex => "number -- hex_string"@,
        NativeWord::UniqueStr => " -- string"@,
        NativeWord::StartWord => " -- "@,
        NativeWord::EndWord => " -- "@,
        NativeWord::Immediate => " -- "@,
        NativeWord::Hidden => " -- "@,
        NativeWord::Description => " -- "@,
        NativeWord::Signature => " -- "@,
        NativeWord::Word => " -- next_word"@,
        NativeWord::GetWordTable => " -- all_defined_words"@,
        NativeWord::WordIndex => " -- index"@,
        NativeWord::Execute => "word_name_or_index -- ???"@,
        NativeWord::IsDefined => " -- bool"@,
        NativeWord::IsDefinedIm => " -- bool"@,
        NativeWord::IsUndefinedIm => " -- bool"@,
        NativeWord::FfiLoad => "lib-name -- "@,
        NativeWord::FfiFn => "lib-name fn-name fn-alias fn-params ret-name -- "@,
        NativeWord::FfiStruct => "found_initializers is_hidden types fields packing name [defaults] -- "@,
        NativeWord::FfiArray => "struct-name -- "@,
        NativeWord::TermWrite => "value -- "@,
    }
}

/// What a word takes off the stack and what it pushes, as the dictionary
/// shows it.
pub fn word_signature(word: NativeWord) -> (r: &'static str)
    ensures
        r@ == native_signature(word),
{
    match word {
        NativeWord::ArrayNew => " -- array",
        NativeWord::ArraySize => "array -- size",
        NativeWord::ArrayWriteIndex => "value index array -- ",
        NativeWord::ArrayReadIndex => "index array -- value",
        NativeWord::ArrayResize => "array -- size",
        NativeWord::ArrayInsert => "value index array -- ",
        NativeWord::ArrayDelete => "index array -- ",
        NativeWord::ArrayPlus => "dest source -- dest",
        NativeWord::ArrayCompare => "dest source -- dest",
        NativeWord::ArrayPushFront => "value array -- ",
        NativeWord::ArrayPushBack => "value array -- ",
        NativeWord::ArrayPopFront => "array -- value",
        NativeWord::ArrayPopBack => "array -- value",
        NativeWord::BufferNew => "size -- buffer",
        NativeWord::BufferSize => " -- size",
        NativeWord::BufferResize => "size buffer -- ",
        NativeWord::BufferWriteInt => "value buffer byte_size -- ",
        NativeWord::BufferReadInt => "buffer byte_size is_signed -- value",
        NativeWord::BufferWriteFloat => "value buffer byte_size -- ",
        NativeWord::BufferReadFloat => "buffer byte_size -- value",
        NativeWord::BufferWriteString => "value buffer size -- ",
        NativeWord::BufferReadString => "size buffer -- value",
        NativeWord::BufferSetPosition => "position buffer -- ",
        NativeWord::BufferGetPosition => "buffer -- position",
        NativeWord::OpDefVariable => "new-name -- ",
        NativeWord::OpDefConstant => "new-name -- ",
        NativeWord::OpReadVariable => " -- ",
        NativeWord::OpWriteVariable => " -- ",
        NativeWord::OpExecute => "index -- ",
        NativeWord::OpPushConstantValue => "value -- ",
        NativeWord::OpMarkLoopExit => "identifier -- ",
        NativeWord::OpUnmarkLoopExit => " -- ",
        NativeWord::OpMarkCatch => "identifier -- ",
        NativeWord::OpUnmarkCatch => " -- ",
        NativeWord::OpJump => "identifier -- ",
        NativeWord::OpJumpIfZero => "identifier -- ",
        NativeWord::OpJumpIfNotZero => "identifier -- ",
        NativeWord::OpJumpLoopStart => " -- ",
        NativeWord::OpJumpLoopExit => " -- ",
        NativeWord::OpJumpTarget => "identifier -- ",
        NativeWord::CodeNewBlock => " -- ",
        NativeWord::CodeMergeStackBlock => " -- ",
        NativeWord::CodePopStackBlock => " -- code_block",
        NativeWord::CodePushStackBlock => "code_block -- ",
        NativeWord::CodeStackBlockSize => " -- code_size",
        NativeWord::CodeResolveJumps => " -- ",
        NativeWord::CodeCompileUntilWords => "words... word_count -- found_word",
        NativeWord::CodeInsertAtFront => "bool -- ",
        NativeWord::CodeExecuteSource => "string_to_execute -- ???",
        NativeWord::DataDefinition => " -- ",
        NativeWord::ReadField => "field_index structure -- value",
        NativeWord::WriteField => "value field_index structure -- ",
        NativeWord::StructureIterate => "word_or_index -- ",
        NativeWord::StructureFieldExists => "field_name structure -- boolean",
        NativeWord::StructureCompare => "a b -- boolean",
        NativeWord::HashNew => " -- new_hash_table",
        NativeWord::HashInsert => "value key table -- ",
        NativeWord::HashFind => "key table -- value",
        NativeWord::HashExists => "key table -- bool",
        NativeWord::HashPlus => "dest source -- dest",
        NativeWord::HashCompare => "a b -- was-match",
        NativeWord::HashSize => "table -- size",
        NativeWord::HashIterate => "word_index hash_table -- ",
        NativeWord::Add => "a b -- result",
        NativeWord::Subtract => "a b -- result",
        NativeWord::Multiply => "a b -- result",
        NativeWord::Divide => "a b -- result",
        NativeWord::Mod => "a b -- result",
        NativeWord::LogicAnd => "a b -- bool",
        NativeWord::LogicOr => "a b -- bool",
        NativeWord::LogicNot => "bool -- bool",
        NativeWord::BitAnd => "a b -- result",
        NativeWord::BitOr => "a b -- result",
        NativeWord::BitXor => "a b -- result",
        NativeWord::BitNot => "number -- result",
        NativeWord::BitLeftShift => "value amount -- result",
        NativeWord::BitRightShift => "value amount -- result",
        NativeWord::Equal => "a b -- bool",
        NativeWord::GreaterEqual => "a b -- bool",
        NativeWord::LessEqual => "a b -- bool",
        NativeWord::Greater => "a b -- bool",
        NativeWord::Less => "a b -- bool",
        NativeWord::Reset => " -- ",
        NativeWord::Include => "source_path -- ",
        NativeWord::IncludeIm => "[include] file/to/include.f",
        NativeWord::PrintStack => " -- ",
        NativeWord::PrintDictionary => " -- ",
        NativeWord::SorthVersion => " -- version_string",
        NativeWord::SorthSearchPath => " -- search-paths",
        NativeWord::SorthFindFile => " -- full-file-path",
        NativeWord::SorthMemory => " -- memory-size",
        NativeWord::TermIsPrintable => "character -- bool",
        NativeWord::Throw => "message -- ",
        NativeWord::Dup => "value -- value value",
        NativeWord::Drop => "value -- ",
        NativeWord::Swap => "a b -- b a",
        NativeWord::Over => "a b -- b a b",
        NativeWord::Rot => "a b c -- c a b",
        NativeWord::StackDepth => " -- depth",
        NativeWord::Pick => "n -- value",
        NativeWord::PushTo => "n -- <updated-stack>>",
        NativeWord::Hex => "number -- hex_string",
        NativeWord::UniqueStr => " -- string",
        NativeWord::StartWord => " -- ",
        NativeWord::EndWord => " -- ",
        NativeWord::Immediate => " -- ",
        NativeWord::Hidden => " -- ",
        NativeWord::Description => " -- ",
        NativeWord::Signature => " -- ",
        NativeWord::Word => " -- next_word",
        NativeWord::GetWordTable => " -- all_defined_words",
        NativeWord::WordIndex => " -- index",
        NativeWord::Execute => "word_name_or_index -- ???",
        NativeWord::IsDefined => " -- bool",
        NativeWord::IsDefinedIm => " -- bool",
        NativeWord::IsUndefinedIm => " -- bool",
        NativeWord::FfiLoad => "lib-name -- ",
        NativeWord::FfiFn => "lib-name fn-name fn-alias fn-params ret-name -- ",
        NativeWord::FfiStruct => "found_initializers is_hidden types fields packing name [defaults] -- ",
        NativeWord::FfiArray => "struct-name -- ",
        NativeWord::TermWrite => "value -- ",
    }
}

/// Whether a word runs as soon as the compiler meets it.
pub open spec fn is_immediate(word: NativeWord) -> bool {
    match word {
        NativeWord::IncludeIm => true,
        NativeWord::StartWord => true,
        NativeWord::EndWord => true,
        NativeWord::Immediate => true,
        NativeWord::Hidden => true,
        NativeWord::Description => true,
        NativeWord::Signature => true,
        NativeWord::WordIndex => true,
        NativeWord::IsDefinedIm => true,
        NativeWord::IsUndefinedIm => true,
        _ => false,
    }
}

/// Whether a word runs as soon as the compiler meets it.
pub fn is_immediate_word(word: NativeWord) -> (r: bool)
    ensures
        r == is_immediate(word),
{
    match word {
        NativeWord::IncludeIm => true,
        NativeWord::StartWord => true,
        NativeWord::EndWord => true,
        NativeWord::Immediate => true,
        NativeWord::Hidden => true,
        NativeWord::Description => true,
        NativeWord::Signature => true,
        NativeWord::WordIndex => true,
        NativeWord::IsDefinedIm => true,
        NativeWord::IsUndefinedIm => true,
        _ => false,
    }
}

/// The number of values that a word takes off the stack and the number that
/// it pushes, for the words of which these numbers are fixed. The other
/// words move values within the stack, or run words or code of their own.
pub open spec fn stack_effect(word: NativeWord) -> Option<(nat, nat)> {
    match word {
        NativeWord::ArrayNew => Some((1nat, 1nat)),
        NativeWord::ArraySize => Some((1nat, 1nat)),
        NativeWord::ArrayWriteIndex => Some((3nat, 0nat)),
        NativeWord::ArrayReadIndex => Some((2nat, 1nat)),
        NativeWord::ArrayResize => Some((2nat, 0nat)),
        NativeWord::ArrayInsert => Some((3nat, 0nat)),
        NativeWord::ArrayDelete => Some((2nat, 0nat)),
        NativeWord::ArrayPlus => Some((2nat, 1nat)),
        NativeWord::ArrayCompare => Some((2nat, 1nat)),
        NativeWord::ArrayPushFront => Some((2nat, 0nat)),
        NativeWord::ArrayPushBack => Some((2nat, 0nat)),
        NativeWord::ArrayPopFront => Some((1nat, 1nat)),
        NativeWord::ArrayPopBack => Some((1nat, 1nat)),
        NativeWord::BufferNew => Some((1nat, 1nat)),
        NativeWord::BufferSize => Some((1nat, 1nat)),
        NativeWord::BufferResize => Some((2nat, 0nat)),
        NativeWord::BufferWriteInt => Some((3nat, 0nat)),
        NativeWord::BufferReadInt => Some((3nat, 1nat)),
        NativeWord::BufferWriteFloat => Some((3nat, 0nat)),
        NativeWord::BufferReadFloat => Some((2nat, 1nat)),
        NativeWord::BufferWriteString => Some((3nat, 0nat)),
        NativeWord::BufferReadString => Some((2nat, 1nat)),
        NativeWord::BufferSetPosition => Some((2nat, 0nat)),
        NativeWord::BufferGetPosition => Some((1nat, 1nat)),
        NativeWord::OpDefVariable => Some((1nat, 0nat)),
        NativeWord::OpDefConstant => Some((1nat, 0nat)),
        NativeWord::OpReadVariable => Some((0nat, 0nat)),
        NativeWord::OpWriteVariable => Some((0nat, 0nat)),
        NativeWord::OpExecute => Some((1nat, 0nat)),
        NativeWord::OpPushConstantValue => Some((1nat, 0nat)),
        NativeWord::OpMarkLoopExit => Some((1nat, 0nat)),
        NativeWord::OpUnmarkLoopExit => Some((0nat, 0nat)),
        NativeWord::OpMarkCatch => Some((1nat, 0nat)),
        NativeWord::OpUnmarkCatch => Some((0nat, 0nat)),
        NativeWord::OpJump => Some((1nat, 0nat)),
        NativeWord::OpJumpIfZero => Some((1nat, 0nat)),
        NativeWord::OpJumpIfNotZero => Some((1nat, 0nat)),
        NativeWord::OpJumpLoopStart => Some((0nat, 0nat)),
        NativeWord::OpJumpLoopExit => Some((0nat, 0nat)),
        NativeWord::OpJumpTarget => Some((1nat, 0nat)),
        NativeWord::CodeNewBlock => Some((0nat, 0nat)),
        NativeWord::CodeMergeStackBlock => Some((0nat, 0nat)),
        NativeWord::CodePopStackBlock => Some((0nat, 1nat)),
        NativeWord::CodePushStackBlock => Some((1nat, 0nat)),
        NativeWord::CodeStackBlockSize => Some((0nat, 1nat)),
        NativeWord::CodeResolveJumps => Some((0nat, 0nat)),
        NativeWord::CodeInsertAtFront => Some((1nat, 0nat)),
        NativeWord::ReadField => Some((2nat, 1nat)),
        NativeWord::WriteField => Some((3nat, 0nat)),
        NativeWord::StructureFieldExists => Some((2nat, 1nat)),
        NativeWord::StructureCompare => Some((2nat, 1nat)),
        NativeWord::HashNew => Some((0nat, 1nat)),
        NativeWord::HashInsert => Some((3nat, 0nat)),
        NativeWord::HashFind => Some((2nat, 1nat)),
        NativeWord::HashExists => Some((2nat, 1nat)),
        NativeWord::HashPlus => Some((2nat, 1nat)),
        NativeWord::HashCompare => Some((2nat, 1nat)),
        NativeWord::HashSize => Some((1nat, 1nat)),
        NativeWord::Add => Some((2nat, 1nat)),
        NativeWord::Subtract => Some((2nat, 1nat)),
        NativeWord::Multiply => Some((2nat, 1nat)),
        NativeWord::Divide => Some((2nat, 1nat)),
        NativeWord::Mod => Some((2nat, 1nat)),
        NativeWord::LogicAnd => Some((2nat, 1nat)),
        NativeWord::LogicOr => Some((2nat, 1nat)),
        NativeWord::LogicNot => Some((1nat, 1nat)),
        NativeWord::BitAnd => Some((2nat, 1nat)),
        NativeWord::BitOr => Some((2nat, 1nat)),
        NativeWord::BitXor => Some((2nat, 1nat)),
        NativeWord::BitNot => Some((1nat, 1nat)),
        NativeWord::BitLeftShift => Some((2nat, 1nat)),
        NativeWord::BitRightShift => Some((2nat, 1nat)),
        NativeWord::Equal => Some((2nat, 1nat)),
        NativeWord::GreaterEqual => Some((2nat, 1nat)),
        NativeWord::LessEqual => Some((2nat, 1nat)),
        NativeWord::Greater => Some((2nat, 1nat)),
        NativeWord::Less => Some((2nat, 1nat)),
        NativeWord::PrintStack => Some((0nat, 0nat)),
        NativeWord::PrintDictionary => Some((0nat, 0nat)),
        NativeWord::SorthVersion => Some((0nat, 1nat)),
        NativeWord::SorthMemory => Some((0nat, 1nat)),
        NativeWord::TermIsPrintable => Some((1nat, 1nat)),
        NativeWord::SorthSearchPath => Some((0nat, 1nat)),
        NativeWord::SorthFindFile => Some((1nat, 1nat)),
        NativeWord::Dup => Some((1nat, 2nat)),
        NativeWord::Drop => Some((1nat, 0nat)),
        NativeWord::Swap => Some((2nat, 2nat)),
        NativeWord::Over => Some((2nat, 3nat)),
        NativeWord::Rot => Some((3nat, 3nat)),
        NativeWord::StackDepth => Some((0nat, 1nat)),
        NativeWord::Hex => Some((1nat, 1nat)),
        NativeWord::UniqueStr => Some((0nat, 1nat)),
        NativeWord::StartWord => Some((0nat, 0nat)),
        NativeWord::EndWord => Some((0nat, 0nat)),
        NativeWord::Immediate => Some((0nat, 0nat)),
        NativeWord::Hidden => Some((0nat, 0nat)),
        NativeWord::Description => Some((0nat, 0nat)),
        NativeWord::Signature => Some((0nat, 0nat)),
        NativeWord::Word => Some((0nat, 1nat)),
        NativeWord::GetWordTable => Some((0nat, 1nat)),
        NativeWord::WordIndex => Some((0nat, 0nat)),
        NativeWord::IsDefined => Some((1nat, 1nat)),
        NativeWord::IsDefinedIm => Some((0nat, 1nat)),
        NativeWord::IsUndefinedIm => Some((0nat, 1nat)),
        NativeWord::FfiLoad => Some((2nat, 0nat)),
        NativeWord::FfiFn => Some((5nat, 0nat)),
        NativeWord::FfiStruct => Some((0nat, 0nat)),
        NativeWord::FfiArray => Some((0nat, 0nat)),
        NativeWord::TermWrite => Some((1nat, 0nat)),
        _ => None,
    }
}

/// The words of the interpreter itself, in the order in which they are registered.
pub open spec fn sorth_word_list() -> Seq<NativeWord> {
    seq![
        NativeWord::Reset,
        NativeWord::Include,
        NativeWord::IncludeIm,
        NativeWord::PrintStack,
        NativeWord::PrintDictionary,
        NativeWord::SorthVersion,
        NativeWord::SorthSearchPath,
        NativeWord::SorthFindFile,
        NativeWord::SorthMemory,
        NativeWord::TermIsPrintable,
        NativeWord::Throw,
        NativeWord::TermWrite,
    ]
}

/// Registers the words of the interpreter itself.
pub fn register_sorth_words(interpreter: &mut SorthInterpreter)
    requires
        old(interpreter).wf(),
    ensures
        final(interpreter).stable(old(interpreter)),
        final(interpreter).same_but_words(old(interpreter)),
        registered(old(interpreter), final(interpreter), sorth_word_list()),
{
    let words = vec![
        NativeWord::Reset,
        NativeWord::Include,
        NativeWord::IncludeIm,
        NativeWord::PrintStack,
        NativeWord::PrintDictionary,
        NativeWord::SorthVersion,
        NativeWord::SorthSearchPath,
        NativeWord::SorthFindFile,
        NativeWord::SorthMemory,
        NativeWord::TermIsPrintable,
        NativeWord::Throw,
        NativeWord::TermWrite,
    ];
    assert(words@ =~= sorth_word_list());
    register_words(interpreter, &words);
}

/// The words of the value stack, in the order in which they are registered.
pub open spec fn stack_word_list() -> Seq<NativeWord> {
    seq![
        NativeWord::Dup,
        NativeWord::Drop,
        NativeWord::Swap,
        NativeWord::Over,
        NativeWord::Rot,
        NativeWord::StackDepth,
        NativeWord::Pick,
        NativeWord::PushTo,
    ]
}

/// Registers the words of the value stack.
pub fn register_stack_words(interpreter: &mut SorthInterpreter)
    requires
        old(interpreter).wf(),
    ensures
        final(interpreter).stable(old(interpreter)),
        final(interpreter).same_but_words(old(interpreter)),
        registered(old(interpreter), final(interpreter), stack_word_list()),
{
    let words = vec![
        NativeWord::Dup,
        NativeWord::Drop,
        NativeWord::Swap,
        NativeWord::Over,
        NativeWord::Rot,
        NativeWord::StackDepth,
        NativeWord::Pick,
        NativeWord::PushTo,
    ];
    assert(words@ =~= stack_word_list());
    register_words(interpreter, &words);
}

/// The words of bytecode, in the order in which they are registered.
pub open spec fn bytecode_word_list() -> Seq<NativeWord> {
    seq![
        NativeWord::OpDefVariable,
        NativeWord::OpDefConstant,
        NativeWord::OpReadVariable,
        NativeWord::OpWriteVariable,
        NativeWord::OpExecute,
        NativeWord::OpPushConstantValue,
        NativeWord::OpMarkLoopExit,
        NativeWord::OpUnmarkLoopExit,
        NativeWord::OpMarkCatch,
        NativeWord::OpUnmarkCatch,
        NativeWord::OpJump,
        NativeWord::OpJumpIfZero,
        NativeWord::OpJumpIfNotZero,
        NativeWord::OpJumpLoopStart,
        NativeWord::OpJumpLoopExit,
        NativeWord::OpJumpTarget,
        NativeWord::CodeNewBlock,
        NativeWord::CodeMergeStackBlock,
        NativeWord::CodePopStackBlock,
        NativeWord::CodePushStackBlock,
        NativeWord::CodeStackBlockSize,
        NativeWord::CodeResolveJumps,
        NativeWord::CodeCompileUntilWords,
        NativeWord::CodeInsertAtFront,
        NativeWord::CodeExecuteSource,
    ]
}

/// Registers the words of bytecode.
pub fn register_bytecode_words(interpreter: &mut SorthInterpreter)
    requires
        old(interpreter).wf(),
    ensures
        final(interpreter).stable(old(interpreter)),
        final(interpreter).same_but_words(old(interpreter)),
        registered(old(interpreter), final(interpreter), bytecode_word_list()),
{
    let words = vec![
        NativeWord::OpDefVariable,
        NativeWord::OpDefConstant,
        NativeWord::OpReadVariable,
        NativeWord::OpWriteVariable,
        NativeWord::OpExecute,
        NativeWord::OpPushConstantValue,
        NativeWord::OpMarkLoopExit,
        NativeWord::OpUnmarkLoopExit,
        NativeWord::OpMarkCatch,
        NativeWord::OpUnmarkCatch,
        NativeWord::OpJump,
        NativeWord::OpJumpIfZero,
        NativeWord::OpJumpIfNotZero,
        NativeWord::OpJumpLoopStart,
        NativeWord::OpJumpLoopExit,
        NativeWord::OpJumpTarget,
        NativeWord::CodeNewBlock,
        NativeWord::CodeMergeStackBlock,
        NativeWord::CodePopStackBlock,
        NativeWord::CodePushStackBlock,
        NativeWord::CodeStackBlockSize,
        NativeWord::CodeResolveJumps,
        NativeWord::CodeCompileUntilWords,
        NativeWord::CodeInsertAtFront,
        NativeWord::CodeExecuteSource,
    ];
    assert(words@ =~= bytecode_word_list());
    register_words(interpreter, &words);
}

/// The words of words, in the order in which they are registered.
pub open spec fn word_word_list() -> Seq<NativeWord> {
    seq![
        NativeWord::Word,
        NativeWord::GetWordTable,
        NativeWord::WordIndex,
        NativeWord::Execute,
        NativeWord::IsDefined,
        NativeWord::IsDefinedIm,
        NativeWord::IsUndefinedIm,
    ]
}

/// Registers the words of words.
pub fn register_word_words(interpreter: &mut SorthInterpreter)
    requires
        old(interpreter).wf(),
    ensures
        final(interpreter).stable(old(interpreter)),
        final(interpreter).same_but_words(old(interpreter)),
        registered(old(interpreter), final(interpreter), word_word_list()),
{
    let words = vec![
        NativeWord::Word,
        NativeWord::GetWordTable,
        NativeWord::WordIndex,
        NativeWord::Execute,
        NativeWord::IsDefined,
        NativeWord::IsDefinedIm,
        NativeWord::IsUndefinedIm,
    ];
    assert(words@ =~= word_word_list());
    register_words(interpreter, &words);
}

/// The words of the definition of words, in the order in which they are registered.
pub open spec fn word_creation_word_list() -> Seq<NativeWord> {
    seq![
        NativeWord::StartWord,
        NativeWord::EndWord,
        NativeWord::Immediate,
        NativeWord::Hidden,
        NativeWord::Description,
        NativeWord::Signature,
    ]
}

/// Registers the words of the definition of words.
pub fn register_word_creation_words(interpreter: &mut SorthInterpreter)
    requires
        old(interpreter).wf(),
    ensures
        final(interpreter).stable(old(interpreter)),
        final(interpreter).same_but_words(old(interpreter)),
        registered(old(interpreter), final(interpreter), word_creation_word_list()),
{
    let words = vec![
        NativeWord::StartWord,
        NativeWord::EndWord,
        NativeWord::Immediate,
        NativeWord::Hidden,
        NativeWord::Description,
        NativeWord::Signature,
    ];
    assert(words@ =~= word_creation_word_list());
    register_words(interpreter, &words);
}

/// The words of strings, in the order in which they are registered.
pub open spec fn string_word_list() -> Seq<NativeWord> {
    seq![
        NativeWord::Hex,
        NativeWord::UniqueStr,
    ]
}

/// Registers the words of strings.
pub fn register_string_words(interpreter: &mut SorthInterpreter)
    requires
        old(interpreter).wf(),
    ensures
        final(interpreter).stable(old(interpreter)),
        final(interpreter).same_but_words(old(interpreter)),
        registered(old(interpreter), final(interpreter), string_word_list()),
{
    let words = vec![
        NativeWord::Hex,
        NativeWord::UniqueStr,
    ];
    assert(words@ =~= string_word_list());
    register_words(interpreter, &words);
}

/// The words of data structures, in the order in which they are registered.
pub open spec fn data_structure_word_list() -> Seq<NativeWord> {
    seq![
        NativeWord::DataDefinition,
        NativeWord::ReadField,
        NativeWord::WriteField,
        NativeWord::StructureIterate,
        NativeWord::StructureFieldExists,
        NativeWord::StructureCompare,
    ]
}

/// Registers the words of data structures.
pub fn register_data_structure_words(interpreter: &mut SorthInterpreter)
    requires
        old(interpreter).wf(),
    ensures
        final(interpreter).stable(old(interpreter)),
        final(interpreter).same_but_words(old(interpreter)),
        registered(old(interpreter), final(interpreter), data_structure_word_list()),
{
    let words = vec![
        NativeWord::DataDefinition,
        NativeWord::ReadField,
        NativeWord::WriteField,
        NativeWord::StructureIterate,
        NativeWord::StructureFieldExists,
        NativeWord::StructureCompare,
    ];
    assert(words@ =~= data_structure_word_list());
    register_words(interpreter, &words);
}

/// The words of arrays, in the order in which they are registered.
pub open spec fn array_word_list() -> Seq<NativeWord> {
    seq![
        NativeWord::ArrayNew,
        NativeWord::ArraySize,
        NativeWord::ArrayWriteIndex,
        NativeWord::ArrayReadIndex,
        NativeWord::ArrayResize,
        NativeWord::ArrayInsert,
        NativeWord::ArrayDelete,
        NativeWord::ArrayPlus,
        NativeWord::ArrayCompare,
        NativeWord::ArrayPushFront,
        NativeWord::ArrayPushBack,
        NativeWord::ArrayPopFront,
        NativeWord::ArrayPopBack,
    ]
}

/// Registers the words of arrays.
pub fn register_array_words(interpreter: &mut SorthInterpreter)
    requires
        old(interpreter).wf(),
    ensures
        final(interpreter).stable(old(interpreter)),
        final(interpreter).same_but_words(old(interpreter)),
        registered(old(interpreter), final(interpreter), array_word_list()),
{
    let words = vec![
        NativeWord::ArrayNew,
        NativeWord::ArraySize,
        NativeWord::ArrayWriteIndex,
        NativeWord::ArrayReadIndex,
        NativeWord::ArrayResize,
        NativeWord::ArrayInsert,
        NativeWord::ArrayDelete,
        NativeWord::ArrayPlus,
        NativeWord::ArrayCompare,
        NativeWord::ArrayPushFront,
        NativeWord::ArrayPushBack,
        NativeWord::ArrayPopFront,
        NativeWord::ArrayPopBack,
    ];
    assert(words@ =~= array_word_list());
    register_words(interpreter, &words);
}

/// The words of byte buffers, in the order in which they are registered.
pub open spec fn byte_buffer_word_list() -> Seq<NativeWord> {
    seq![
        NativeWord::BufferNew,
        NativeWord::BufferSize,
        NativeWord::BufferResize,
        NativeWord::BufferWriteInt,
        NativeWord::BufferReadInt,
        NativeWord::BufferWriteFloat,
        NativeWord::BufferReadFloat,
        NativeWord::BufferWriteString,
        NativeWord::BufferReadString,
        NativeWord::BufferSetPosition,
        NativeWord::BufferGetPosition,
    ]
}

/// Registers the words of byte buffers.
pub fn register_byte_buffer_words(interpreter: &mut SorthInterpreter)
    requires
        old(interpreter).wf(),
    ensures
        final(interpreter).stable(old(interpreter)),
        final(interpreter).same_but_words(old(interpreter)),
        registered(old(interpreter), final(interpreter), byte_buffer_word_list()),
{
    let words = vec![
        NativeWord::BufferNew,
        NativeWord::BufferSize,
        NativeWord::BufferResize,
        NativeWord::BufferWriteInt,
        NativeWord::BufferReadInt,
        NativeWord::BufferWriteFloat,
        NativeWord::BufferReadFloat,
        NativeWord::BufferWriteString,
        NativeWord::BufferReadString,
        NativeWord::BufferSetPosition,
        NativeWord::BufferGetPosition,
    ];
    assert(words@ =~= byte_buffer_word_list());
    register_words(interpreter, &words);
}

/// The words of hash tables, in the order in which they are registered.
pub open spec fn hash_table_word_list() -> Seq<NativeWord> {
    seq![
        NativeWord::HashNew,
        NativeWord::HashInsert,
        NativeWord::HashFind,
        NativeWord::HashExists,
        NativeWord::HashPlus,
        NativeWord::HashCompare,
        NativeWord::HashSize,
        NativeWord::HashIterate,
    ]
}

/// Registers the words of hash tables.
pub fn register_hash_table_words(interpreter: &mut SorthInterpreter)
    requires
        old(interpreter).wf(),
    ensures
        final(interpreter).stable(old(interpreter)),
        final(interpreter).same_but_words(old(interpreter)),
        registered(old(interpreter), final(interpreter), hash_table_word_list()),
{
    let words = vec![
        NativeWord::HashNew,
        NativeWord::HashInsert,
        NativeWord::HashFind,
        NativeWord::HashExists,
        NativeWord::HashPlus,
        NativeWord::HashCompare,
        NativeWord::HashSize,
        NativeWord::HashIterate,
    ];
    assert(words@ =~= hash_table_word_list());
    register_words(interpreter, &words);
}

/// The words of arithmetic, logic, bits and comparison, in the order in which they are registered.
pub open spec fn math_logic_and_bit_word_list() -> Seq<NativeWord> {
    seq![
        NativeWord::Add,
        NativeWord::Subtract,
        NativeWord::Multiply,
        NativeWord::Divide,
        NativeWord::Mod,
        NativeWord::LogicAnd,
        NativeWord::LogicOr,
        NativeWord::LogicNot,
        NativeWord::BitAnd,
        NativeWord::BitOr,
        NativeWord::BitXor,
        NativeWord::BitNot,
        NativeWord::BitLeftShift,
        NativeWord::BitRightShift,
        NativeWord::Equal,
        NativeWord::GreaterEqual,
        NativeWord::LessEqual,
        NativeWord::Greater,
        NativeWord::Less,
    ]
}

/// Registers the words of arithmetic, logic, bits and comparison.
pub fn register_math_logic_and_bit_words(interpreter: &mut SorthInterpreter)
    requires
        old(interpreter).wf(),
    ensures
        final(interpreter).stable(old(interpreter)),
        final(interpreter).same_but_words(old(interpreter)),
        registered(old(interpreter), final(interpreter), math_logic_and_bit_word_list()),
{
    let words = vec![
        NativeWord::Add,
        NativeWord::Subtract,
        NativeWord::Multiply,
        NativeWord::Divide,
        NativeWord::Mod,
        NativeWord::LogicAnd,
        NativeWord::LogicOr,
        NativeWord::LogicNot,
        NativeWord::BitAnd,
        NativeWord::BitOr,
        NativeWord::BitXor,
        NativeWord::BitNot,
        NativeWord::BitLeftShift,
        NativeWord::BitRightShift,
        NativeWord::Equal,
        NativeWord::GreaterEqual,
        NativeWord::LessEqual,
        NativeWord::Greater,
        NativeWord::Less,
    ];
    assert(words@ =~= math_logic_and_bit_word_list());
    register_words(interpreter, &words);
}

/// The words of the foreign function interface, in the order in which they are registered.
pub open spec fn ffi_word_list() -> Seq<NativeWord> {
    seq![
        NativeWord::FfiLoad,
        NativeWord::FfiFn,
        NativeWord::FfiStruct,
        NativeWord::FfiArray,
    ]
}

/// Registers the words of the foreign function interface.
pub fn register_ffi_words(interpreter: &mut SorthInterpreter)
    requires
        old(interpreter).wf(),
    ensures
        final(interpreter).stable(old(interpreter)),
        final(interpreter).same_but_words(old(interpreter)),
        registered(old(interpreter), final(interpreter), ffi_word_list()),
{
    let words = vec![
        NativeWord::FfiLoad,
        NativeWord::FfiFn,
        NativeWord::FfiStruct,
        NativeWord::FfiArray,
    ];
    assert(words@ =~= ffi_word_list());
    register_words(interpreter, &words);
}

/// What the dictionary knows of a word that is built in, where the handler
/// of the word has the given index.
pub open spec fn native_info(word: NativeWord, index: usize) -> WordInfoView {
    WordInfoView {
        name: native_name(word),
        runtime: if is_immediate(word) {
            WordRuntime::Immediate
        } else {
            WordRuntime::Normal
        },
        word_type: WordType::Native,
        visibility: WordVisibility::Visible,
        description: native_description(word),
        signature: native_signature(word),
        handler_index: index,
    }
}

/// Whether a word that is built in is found under its name: the dictionary
/// knows the name as `native_info` says, with the index of a handler that
/// runs the word.
pub open spec fn named(interpreter: &SorthInterpreter, word: NativeWord) -> bool {
    match lookup(interpreter.dictionary_view(), native_name(word)) {
        Some(info) => info.handler_index < interpreter.handlers_view().len() && info
            == native_info(word, info.handler_index)
            && interpreter.handlers_view()[info.handler_index as int].spec_handler()
            == Handler::Native(word),
        None => false,
    }
}

/// Whether a word stands at the given place of a list and nowhere after it.
pub open spec fn stands_last(words: Seq<NativeWord>, i: int) -> bool {
    0 <= i < words.len() && forall|j: int| i < j < words.len() ==> #[trigger] words[j] != words[i]
}

/// Whether the given words have been registered, in order, after the words
/// that were there before, where there was room for all of them; and whether
/// nothing has been registered where there was not. A word that has been
/// registered is found under its name, with the index of the handler that it
/// got where the list holds it last; a name that is the name of none of them
/// is found as before; and a word that was found under its name before is so
/// after.
#[verifier::opaque]
pub open spec fn registered(
    before: &SorthInterpreter,
    after: &SorthInterpreter,
    words: Seq<NativeWord>,
) -> bool {
    let base = before.handlers_view().len() as int;
    if base + words.len() <= usize::MAX {
        &&& after.handlers_view().len() == base + words.len()
        &&& after.handlers_view().take(base) == before.handlers_view()
        &&& forall|i: int|
            0 <= i < words.len() ==> (#[trigger] after.handlers_view()[base + i]).spec_handler()
                == Handler::Native(words[i]) && after.handlers_view()[base + i].spec_name()
                == native_name(words[i])
        &&& forall|i: int| 0 <= i < words.len() ==> named(after, #[trigger] words[i])
        &&& forall|i: int| #[trigger]
            stands_last(words, i) ==> lookup(after.dictionary_view(), native_name(words[i]))
                == Some(native_info(words[i], (base + i) as usize))
        &&& forall|name: Seq<char>|
            (forall|i: int| 0 <= i < words.len() ==> native_name(#[trigger] words[i]) != name)
                ==> #[trigger] lookup(after.dictionary_view(), name) == lookup(
                before.dictionary_view(),
                name,
            )
        &&& forall|word: NativeWord| #[trigger] named(before, word) ==> named(after, word)
    } else {
        after.handlers_view() == before.handlers_view() && after.dictionary_view()
            == before.dictionary_view()
    }
}

/// Whether every word that is found under its name in `before` is found
/// under its name in `after`.
#[verifier::opaque]
pub open spec fn keeps_names(before: &SorthInterpreter, after: &SorthInterpreter) -> bool {
    forall|word: NativeWord| #[trigger] named(before, word) ==> named(after, word)
}

/// Names that are kept from one interpreter to a second and from that to a
/// third are kept from the first to the third.
pub proof fn lemma_keeps_names_on(
    first: &SorthInterpreter,
    second: &SorthInterpreter,
    third: &SorthInterpreter,
)
    requires
        keeps_names(first, second),
        keeps_names(second, third),
    ensures
        keeps_names(first, third),
{
    reveal(keeps_names);
}

/// Registering words keeps the names that were found before, and takes as
/// many handlers as there are words, or none where there is no room for all
/// of them.
pub proof fn lemma_registered_keeps(
    before: &SorthInterpreter,
    after: &SorthInterpreter,
    words: Seq<NativeWord>,
)
    requires
        registered(before, after, words),
    ensures
        keeps_names(before, after),
        after.handlers_view().len() == if before.handlers_view().len() + words.len()
            <= usize::MAX {
            before.handlers_view().len() + words.len()
        } else {
            before.handlers_view().len()
        },
{
    reveal(keeps_names);
    reveal(registered);
}

/// A name that is the name of no word that is built in is found after a
/// registration as it was found before.
pub proof fn lemma_registered_others(
    before: &SorthInterpreter,
    after: &SorthInterpreter,
    words: Seq<NativeWord>,
    name: Seq<char>,
)
    requires
        registered(before, after, words),
        forall|word: NativeWord| #[trigger] native_name(word) != name,
    ensures
        lookup(after.dictionary_view(), name) == lookup(before.dictionary_view(), name),
{
    reveal(registered);
}

/// A word that has been registered is found under its name, and stays so
/// where names are kept from then on.
pub proof fn lemma_registered_named(
    before: &SorthInterpreter,
    after: &SorthInterpreter,
    later: &SorthInterpreter,
    words: Seq<NativeWord>,
    word: NativeWord,
)
    requires
        registered(before, after, words),
        before.handlers_view().len() + words.len() <= usize::MAX,
        words.contains(word),
        keeps_names(after, later),
    ensures
        named(later, word),
{
    reveal(keeps_names);
    reveal(registered);
    let i = choose|i: int| 0 <= i < words.len() && words[i] == word;
    assert(named(after, words[i]));
}

/// Defines a word that is built into the interpreter, under its name, with
/// its description and its signature.
pub fn add_native_word(interpreter: &mut SorthInterpreter, word: NativeWord)
    requires
        old(interpreter).wf(),
        old(interpreter).handlers_view().len() < usize::MAX,
    ensures
        final(interpreter).stable(old(interpreter)),
        final(interpreter).same_but_words(old(interpreter)),
        final(interpreter).handlers_view().len() == old(interpreter).handlers_view().len() + 1,
        final(interpreter).handlers_view().drop_last() == old(interpreter).handlers_view(),
        final(interpreter).handlers_view().last().spec_handler() == Handler::Native(word),
        final(interpreter).handlers_view().last().spec_name() == native_name(word),
        lookup(final(interpreter).dictionary_view(), native_name(word)) is Some,
        lookup(final(interpreter).dictionary_view(), native_name(word))->0.handler_index == old(interpreter).handlers_view().len(),
        lookup(final(interpreter).dictionary_view(), native_name(word))->0.description
            == native_description(word),
        lookup(final(interpreter).dictionary_view(), native_name(word))->0.signature
            == native_signature(word),
        lookup(final(interpreter).dictionary_view(), native_name(word))->0.runtime == if is_immediate(
            word,
        ) {
            WordRuntime::Immediate
        } else {
            WordRuntime::Normal
        },
        lookup(final(interpreter).dictionary_view(), native_name(word)) == Some(
            native_info(word, old(interpreter).handlers_view().len() as usize),
        ),
        forall|other: Seq<char>|
            other != native_name(word) ==> #[trigger] lookup(
                final(interpreter).dictionary_view(),
                other,
            ) == lookup(old(interpreter).dictionary_view(), other),
        named(final(interpreter), word),
        forall|other: NativeWord| #[trigger]
            named(old(interpreter), other) ==> named(final(interpreter), other),
{
    let runtime = if is_immediate_word(word) {
        WordRuntime::Immediate
    } else {
        WordRuntime::Normal
    };
    interpreter.add_word(
        String::from_str("<native>"),
        1,
        1,
        String::from_str(word_name(word)),
        Handler::Native(word),
        String::from_str(word_description(word)),
        String::from_str(word_signature(word)),
        runtime,
        WordVisibility::Visible,
        WordType::Native,
    );
    proof {
        let before = old(interpreter).handlers_view();
        let after = interpreter.handlers_view();
        assert(after.last() == after[before.len() as int]);
        assert forall|other: NativeWord| #[trigger] named(old(interpreter), other) implies named(
            interpreter,
            other,
        ) by {
            lemma_native_names_differ(other, word);
            if other != word {
                let info = lookup(old(interpreter).dictionary_view(), native_name(other))->0;
                assert(after.drop_last()[info.handler_index as int] == after[info.handler_index as int]);
            }
        }
    }
}

/// Registers the given words, in order, where there is room for all of them.
pub fn register_words(interpreter: &mut SorthInterpreter, words: &Vec<NativeWord>)
    requires
        old(interpreter).wf(),
    ensures
        final(interpreter).stable(old(interpreter)),
        final(interpreter).same_but_words(old(interpreter)),
        registered(old(interpreter), final(interpreter), words@),
{
    let room = usize::MAX - interpreter.word_handlers.len();
    if words.len() > room {
        proof {
            reveal(registered);
        }
        return ;
    }
    let ghost start = *interpreter;
    let ghost base = interpreter.handlers_view().len() as int;
    let mut index: usize = 0;
    assert(interpreter.handlers_view().take(base) =~= old(interpreter).handlers_view());
    while index < words.len()
        invariant
            index <= words@.len(),
            base == old(interpreter).handlers_view().len(),
            base + words@.len() <= usize::MAX,
            interpreter.stable(old(interpreter)),
            interpreter.same_but_words(old(interpreter)),
            interpreter.handlers_view().len() == base + index,
            interpreter.handlers_view().take(base) == old(interpreter).handlers_view(),
            forall|i: int|
                0 <= i < index ==> (#[trigger] interpreter.handlers_view()[base + i]).spec_handler()
                    == Handler::Native(words@[i]) && interpreter.handlers_view()[base
                    + i].spec_name() == native_name(words@[i]),
            forall|i: int| 0 <= i < index ==> named(interpreter, #[trigger] words@[i]),
            forall|i: int| #[trigger]
                stands_last(words@.take(index as int), i) ==> lookup(
                    interpreter.dictionary_view(),
                    native_name(words@[i]),
                ) == Some(native_info(words@[i], (base + i) as usize)),
            forall|name: Seq<char>|
                (forall|i: int| 0 <= i < index ==> native_name(#[trigger] words@[i]) != name)
                    ==> #[trigger] lookup(interpreter.dictionary_view(), name) == lookup(
                    start.dictionary_view(),
                    name,
                ),
            forall|word: NativeWord| #[trigger] named(&start, word) ==> named(interpreter, word),
            start == *old(interpreter),
        decreases words@.len() - index,
    {
        let ghost before = interpreter.handlers_view();
        let ghost entered = *interpreter;
        add_native_word(interpreter, words[index]);
        proof {
            let done = words@.take(index as int);
            let more = words@.take(index + 1);
            assert forall|i: int| #[trigger] stands_last(more, i) implies lookup(
                interpreter.dictionary_view(),
                native_name(words@[i]),
            ) == Some(native_info(words@[i], (base + i) as usize)) by {
                if i < index {
                    assert(more[index as int] != more[i]);
                    lemma_native_names_differ(words@[i], words@[index as int]);
                    assert(stands_last(done, i)) by {
                        assert forall|j: int| i < j < done.len() implies #[trigger] done[j]
                            != done[i] by {
                            assert(more[j] != more[i]);
                        }
                    }
                }
            }
            assert forall|name: Seq<char>|
                (forall|i: int| 0 <= i < index + 1 ==> native_name(#[trigger] words@[i]) != name)
                implies #[trigger] lookup(interpreter.dictionary_view(), name) == lookup(
                start.dictionary_view(),
                name,
            ) by {
                assert(native_name(words@[index as int]) != name);
                assert(lookup(entered.dictionary_view(), name) == lookup(
                    start.dictionary_view(),
                    name,
                ));
            }
            assert forall|i: int| 0 <= i < index + 1 implies named(
                interpreter,
                #[trigger] words@[i],
            ) by {
                if i < index {
                    assert(named(&entered, words@[i]));
                }
            }
            let after = interpreter.handlers_view();
            assert(after.take(base) =~= before.take(base));
            assert forall|i: int| 0 <= i < index + 1 implies (#[trigger] after[base
                + i]).spec_handler() == Handler::Native(words@[i]) && after[base + i].spec_name()
                == native_name(words@[i]) by {
                if i < index {
                    assert(after[base + i] == before[base + i]);
                } else {
                    assert(after[base + i] == after.last());
                }
            }
        }
        index += 1;
    }
    proof {
        assert(words@.take(words@.len() as int) =~= words@);
        reveal(registered);
    }
}

/// The number of the core words of the language.
pub open spec fn base_word_count() -> nat {
    sorth_word_list().len() + stack_word_list().len() + bytecode_word_list().len()
        + word_word_list().len() + word_creation_word_list().len() + string_word_list().len()
        + data_structure_word_list().len() + array_word_list().len() + byte_buffer_word_list().len()
        + hash_table_word_list().len() + math_logic_and_bit_word_list().len()
}

/// Whether a word is one of the core words of the language: every word that
/// is built in is, but for the words of the foreign function interface.
pub open spec fn is_base_word(word: NativeWord) -> bool {
    match word {
        NativeWord::FfiLoad => false,
        NativeWord::FfiFn => false,
        NativeWord::FfiStruct => false,
        NativeWord::FfiArray => false,
        _ => true,
    }
}

/// Whether a word stands in one of the lists of the core words.
pub open spec fn is_listed(word: NativeWord) -> bool {
    sorth_word_list().contains(word) || stack_word_list().contains(word) || bytecode_word_list().contains(word) || word_word_list().contains(word) || word_creation_word_list().contains(word) || string_word_list().contains(word) || data_structure_word_list().contains(word) || array_word_list().contains(word) || byte_buffer_word_list().contains(word) || hash_table_word_list().contains(word) || math_logic_and_bit_word_list().contains(word)
}

/// Each of the core words stands in one of the lists of the core words.
pub proof fn lemma_base_word_listed(word: NativeWord)
    requires
        is_base_word(word),
    ensures
        is_listed(word),
{
    match word {
        NativeWord::Reset => {
            assert(sorth_word_list()[0] == word);
        },
        NativeWord::Include => {
            assert(sorth_word_list()[1] == word);
        },
        NativeWord::IncludeIm => {
            assert(sorth_word_list()[2] == word);
        },
        NativeWord::PrintStack => {
            assert(sorth_word_list()[3] == word);
        },
        NativeWord::PrintDictionary => {
            assert(sorth_word_list()[4] == word);
        },
        NativeWord::SorthVersion => {
            assert(sorth_word_list()[5] == word);
        },
        NativeWord::SorthSearchPath => {
            assert(sorth_word_list()[6] == word);
        },
        NativeWord::SorthFindFile => {
            assert(sorth_word_list()[7] == word);
        },
        NativeWord::SorthMemory => {
            assert(sorth_word_list()[8] == word);
        },
        NativeWord::TermIsPrintable => {
            assert(sorth_word_list()[9] == word);
        },
        NativeWord::Throw => {
            assert(sorth_word_list()[10] == word);
        },
        NativeWord::TermWrite => {
            assert(sorth_word_list()[11] == word);
        },
        NativeWord::Dup => {
            assert(stack_word_list()[0] == word);
        },
        NativeWord::Drop => {
            assert(stack_word_list()[1] == word);
        },
        NativeWord::Swap => {
            assert(stack_word_list()[2] == word);
        },
        NativeWord::Over => {
            assert(stack_word_list()[3] == word);
        },
        NativeWord::Rot => {
            assert(stack_word_list()[4] == word);
        },
        NativeWord::StackDepth => {
            assert(stack_word_list()[5] == word);
        },
        NativeWord::Pick => {
            assert(stack_word_list()[6] == word);
        },
        NativeWord::PushTo => {
            assert(stack_word_list()[7] == word);
        },
        NativeWord::OpDefVariable => {
            assert(bytecode_word_list()[0] == word);
        },
        NativeWord::OpDefConstant => {
            assert(bytecode_word_list()[1] == word);
        },
        NativeWord::OpReadVariable => {
            assert(bytecode_word_list()[2] == word);
        },
        NativeWord::OpWriteVariable => {
            assert(bytecode_word_list()[3] == word);
        },
        NativeWord::OpExecute => {
            assert(bytecode_word_list()[4] == word);
        },
        NativeWord::OpPushConstantValue => {
            assert(bytecode_word_list()[5] == word);
        },
        NativeWord::OpMarkLoopExit => {
            assert(bytecode_word_list()[6] == word);
        },
        NativeWord::OpUnmarkLoopExit => {
            assert(bytecode_word_list()[7] == word);
        },
        NativeWord::OpMarkCatch => {
            assert(bytecode_word_list()[8] == word);
        },
        NativeWord::OpUnmarkCatch => {
            assert(bytecode_word_list()[9] == word);
        },
        NativeWord::OpJump => {
            assert(bytecode_word_list()[10] == word);
        },
        NativeWord::OpJumpIfZero => {
            assert(bytecode_word_list()[11] == word);
        },
        NativeWord::OpJumpIfNotZero => {
            assert(bytecode_word_list()[12] == word);
        },
        NativeWord::OpJumpLoopStart => {
            assert(bytecode_word_list()[13] == word);
        },
        NativeWord::OpJumpLoopExit => {
            assert(bytecode_word_list()[14] == word);
        },
        NativeWord::OpJumpTarget => {
            assert(bytecode_word_list()[15] == word);
        },
        NativeWord::CodeNewBlock => {
            assert(bytecode_word_list()[16] == word);
        },
        NativeWord::CodeMergeStackBlock => {
            assert(bytecode_word_list()[17] == word);
        },
        NativeWord::CodePopStackBlock => {
            assert(bytecode_word_list()[18] == word);
        },
        NativeWord::CodePushStackBlock => {
            assert(bytecode_word_list()[19] == word);
        },
        NativeWord::CodeStackBlockSize => {
            assert(bytecode_word_list()[20] == word);
        },
        NativeWord::CodeResolveJumps => {
            assert(bytecode_word_list()[21] == word);
        },
        NativeWord::CodeCompileUntilWords => {
            assert(bytecode_word_list()[22] == word);
        },
        NativeWord::CodeInsertAtFront => {
            assert(bytecode_word_list()[23] == word);
        },
        NativeWord::CodeExecuteSource => {
            assert(bytecode_word_list()[24] == word);
        },
        NativeWord::Word => {
            assert(word_word_list()[0] == word);
        },
        NativeWord::GetWordTable => {
            assert(word_word_list()[1] == word);
        },
        NativeWord::WordIndex => {
            assert(word_word_list()[2] == word);
        },
        NativeWord::Execute => {
            assert(word_word_list()[3] == word);
        },
        NativeWord::IsDefined => {
            assert(word_word_list()[4] == word);
        },
        NativeWord::IsDefinedIm => {
            assert(word_word_list()[5] == word);
        },
        NativeWord::IsUndefinedIm => {
            assert(word_word_list()[6] == word);
        },
        NativeWord::StartWord => {
            assert(word_creation_word_list()[0] == word);
        },
        NativeWord::EndWord => {
            assert(word_creation_word_list()[1] == word);
        },
        NativeWord::Immediate => {
            assert(word_creation_word_list()[2] == word);
        },
        NativeWord::Hidden => {
            assert(word_creation_word_list()[3] == word);
        },
        NativeWord::Description => {
            assert(word_creation_word_list()[4] == word);
        },
        NativeWord::Signature => {
            assert(word_creation_word_list()[5] == word);
        },
        NativeWord::Hex => {
            assert(string_word_list()[0] == word);
        },
        NativeWord::UniqueStr => {
            assert(string_word_list()[1] == word);
        },
        NativeWord::DataDefinition => {
            assert(data_structure_word_list()[0] == word);
        },
        NativeWord::ReadField => {
            assert(data_structure_word_list()[1] == word);
        },
        NativeWord::WriteField => {
            assert(data_structure_word_list()[2] == word);
        },
        NativeWord::StructureIterate => {
            assert(data_structure_word_list()[3] == word);
        },
        NativeWord::StructureFieldExists => {
            assert(data_structure_word_list()[4] == word);
        },
        NativeWord::StructureCompare => {
            assert(data_structure_word_list()[5] == word);
        },
        NativeWord::ArrayNew => {
            assert(array_word_list()[0] == word);
        },
        NativeWord::ArraySize => {
            assert(array_word_list()[1] == word);
        },
        NativeWord::ArrayWriteIndex => {
            assert(array_word_list()[2] == word);
        },
        NativeWord::ArrayReadIndex => {
            assert(array_word_list()[3] == word);
        },
        NativeWord::ArrayResize => {
            assert(array_word_list()[4] == word);
        },
        NativeWord::ArrayInsert => {
            assert(array_word_list()[5] == word);
        },
        NativeWord::ArrayDelete => {
            assert(array_word_list()[6] == word);
        },
        NativeWord::ArrayPlus => {
            assert(array_word_list()[7] == word);
        },
        NativeWord::ArrayCompare => {
            assert(array_word_list()[8] == word);
        },
        NativeWord::ArrayPushFront => {
            assert(array_word_list()[9] == word);
        },
        NativeWord::ArrayPushBack => {
            assert(array_word_list()[10] == word);
        },
        NativeWord::ArrayPopFront => {
            assert(array_word_list()[11] == word);
        },
        NativeWord::ArrayPopBack => {
            assert(array_word_list()[12] == word);
        },
        NativeWord::BufferNew => {
            assert(byte_buffer_word_list()[0] == word);
        },
        NativeWord::BufferSize => {
            assert(byte_buffer_word_list()[1] == word);
        },
        NativeWord::BufferResize => {
            assert(byte_buffer_word_list()[2] == word);
        },
        NativeWord::BufferWriteInt => {
            assert(byte_buffer_word_list()[3] == word);
        },
        NativeWord::BufferReadInt => {
            assert(byte_buffer_word_list()[4] == word);
        },
        NativeWord::BufferWriteFloat => {
            assert(byte_buffer_word_list()[5] == word);
        },
        NativeWord::BufferReadFloat => {
            assert(byte_buffer_word_list()[6] == word);
        },
        NativeWord::BufferWriteString => {
            assert(byte_buffer_word_list()[7] == word);
        },
        NativeWord::BufferReadString => {
            assert(byte_buffer_word_list()[8] == word);
        },
        NativeWord::BufferSetPosition => {
            assert(byte_buffer_word_list()[9] == word);
        },
        NativeWord::BufferGetPosition => {
            assert(byte_buffer_word_list()[10] == word);
        },
        NativeWord::HashNew => {
            assert(hash_table_word_list()[0] == word);
        },
        NativeWord::HashInsert => {
            assert(hash_table_word_list()[1] == word);
        },
        NativeWord::HashFind => {
            assert(hash_table_word_list()[2] == word);
        },
        NativeWord::HashExists => {
            assert(hash_table_word_list()[3] == word);
        },
        NativeWord::HashPlus => {
            assert(hash_table_word_list()[4] == word);
        },
        NativeWord::HashCompare => {
            assert(hash_table_word_list()[5] == word);
        },
        NativeWord::HashSize => {
            assert(hash_table_word_list()[6] == word);
        },
        NativeWord::HashIterate => {
            assert(hash_table_word_list()[7] == word);
        },
        NativeWord::Add => {
            assert(math_logic_and_bit_word_list()[0] == word);
        },
        NativeWord::Subtract => {
            assert(math_logic_and_bit_word_list()[1] == word);
        },
        NativeWord::Multiply => {
            assert(math_logic_and_bit_word_list()[2] == word);
        },
        NativeWord::Divide => {
            assert(math_logic_and_bit_word_list()[3] == word);
        },
        NativeWord::Mod => {
            assert(math_logic_and_bit_word_list()[4] == word);
        },
        NativeWord::LogicAnd => {
            assert(math_logic_and_bit_word_list()[5] == word);
        },
        NativeWord::LogicOr => {
            assert(math_logic_and_bit_word_list()[6] == word);
        },
        NativeWord::LogicNot => {
            assert(math_logic_and_bit_word_list()[7] == word);
        },
        NativeWord::BitAnd => {
            assert(math_logic_and_bit_word_list()[8] == word);
        },
        NativeWord::BitOr => {
            assert(math_logic_and_bit_word_list()[9] == word);
        },
        NativeWord::BitXor => {
            assert(math_logic_and_bit_word_list()[10] == word);
        },
        NativeWord::BitNot => {
            assert(math_logic_and_bit_word_list()[11] == word);
        },
        NativeWord::BitLeftShift => {
            assert(math_logic_and_bit_word_list()[12] == word);
        },
        NativeWord::BitRightShift => {
            assert(math_logic_and_bit_word_list()[13] == word);
        },
        NativeWord::Equal => {
            assert(math_logic_and_bit_word_list()[14] == word);
        },
        NativeWord::GreaterEqual => {
            assert(math_logic_and_bit_word_list()[15] == word);
        },
        NativeWord::LessEqual => {
            assert(math_logic_and_bit_word_list()[16] == word);
        },
        NativeWord::Greater => {
            assert(math_logic_and_bit_word_list()[17] == word);
        },
        NativeWord::Less => {
            assert(math_logic_and_bit_word_list()[18] == word);
        },
        _ => {},
    }
}

/// Registers all of the core words of the language. Where there is room for
/// all of them, each of them is then found under its name, as `named` says,
/// and so is every word that was found under its name before.
pub fn register_base_words(interpreter: &mut SorthInterpreter)
    requires
        old(interpreter).wf(),
    ensures
        final(interpreter).stable(old(interpreter)),
        final(interpreter).same_but_words(old(interpreter)),
        old(interpreter).handlers_view().len() + base_word_count() <= usize::MAX ==> final(interpreter).handlers_view().len() == old(interpreter).handlers_view().len() + base_word_count(),
        old(interpreter).handlers_view().len() + base_word_count() <= usize::MAX ==> forall|
            word: NativeWord,
        |
            #![trigger is_base_word(word)]
            #![trigger named(final(interpreter), word)]
            #![trigger lookup(final(interpreter).dictionary_view(), native_name(word))]
            is_base_word(word) ==> named(final(interpreter), word),
        forall|word: NativeWord| #[trigger]
            named(old(interpreter), word) ==> named(final(interpreter), word),
        forall|name: Seq<char>|
            (forall|word: NativeWord| #[trigger] native_name(word) != name) ==> #[trigger] lookup(
                final(interpreter).dictionary_view(),
                name,
            ) == lookup(old(interpreter).dictionary_view(), name),
{
    register_sorth_words(interpreter);
    let ghost s1 = *interpreter;
    proof {
        lemma_registered_keeps(old(interpreter), &s1, sorth_word_list());
    }
    register_stack_words(interpreter);
    let ghost s2 = *interpreter;
    proof {
        lemma_registered_keeps(&s1, &s2, stack_word_list());
    }
    register_bytecode_words(interpreter);
    let ghost s3 = *interpreter;
    proof {
        lemma_registered_keeps(&s2, &s3, bytecode_word_list());
    }
    register_word_words(interpreter);
    let ghost s4 = *interpreter;
    proof {
        lemma_registered_keeps(&s3, &s4, word_word_list());
    }
    register_word_creation_words(interpreter);
    let ghost s5 = *interpreter;
    proof {
        lemma_registered_keeps(&s4, &s5, word_creation_word_list());
    }
    register_string_words(interpreter);
    let ghost s6 = *interpreter;
    proof {
        lemma_registered_keeps(&s5, &s6, string_word_list());
    }
    register_data_structure_words(interpreter);
    let ghost s7 = *interpreter;
    proof {
        lemma_registered_keeps(&s6, &s7, data_structure_word_list());
    }
    register_array_words(interpreter);
    let ghost s8 = *interpreter;
    proof {
        lemma_registered_keeps(&s7, &s8, array_word_list());
    }
    register_byte_buffer_words(interpreter);
    let ghost s9 = *interpreter;
    proof {
        lemma_registered_keeps(&s8, &s9, byte_buffer_word_list());
    }
    register_hash_table_words(interpreter);
    let ghost s10 = *interpreter;
    proof {
        lemma_registered_keeps(&s9, &s10, hash_table_word_list());
    }
    register_math_logic_and_bit_words(interpreter);
    let ghost s11 = *interpreter;
    proof {
        lemma_registered_keeps(&s10, &s11, math_logic_and_bit_word_list());
    }
    proof {
        let end = s11;
        assert(keeps_names(&s11, &end)) by {
            reveal(keeps_names);
        }
        lemma_keeps_names_on(&s10, &s11, &end);
        lemma_keeps_names_on(&s9, &s10, &end);
        lemma_keeps_names_on(&s8, &s9, &end);
        lemma_keeps_names_on(&s7, &s8, &end);
        lemma_keeps_names_on(&s6, &s7, &end);
        lemma_keeps_names_on(&s5, &s6, &end);
        lemma_keeps_names_on(&s4, &s5, &end);
        lemma_keeps_names_on(&s3, &s4, &end);
        lemma_keeps_names_on(&s2, &s3, &end);
        lemma_keeps_names_on(&s1, &s2, &end);
        lemma_keeps_names_on(old(interpreter), &s1, &end);
        assert forall|word: NativeWord| #[trigger]
            named(old(interpreter), word) implies named(interpreter, word) by {
            reveal(keeps_names);
        }
        assert forall|name: Seq<char>|
            (forall|word: NativeWord| #[trigger] native_name(word) != name) implies #[trigger] lookup(
            interpreter.dictionary_view(),
            name,
        ) == lookup(old(interpreter).dictionary_view(), name) by {
            lemma_registered_others(old(interpreter), &s1, sorth_word_list(), name);
            lemma_registered_others(&s1, &s2, stack_word_list(), name);
            lemma_registered_others(&s2, &s3, bytecode_word_list(), name);
            lemma_registered_others(&s3, &s4, word_word_list(), name);
            lemma_registered_others(&s4, &s5, word_creation_word_list(), name);
            lemma_registered_others(&s5, &s6, string_word_list(), name);
            lemma_registered_others(&s6, &s7, data_structure_word_list(), name);
            lemma_registered_others(&s7, &s8, array_word_list(), name);
            lemma_registered_others(&s8, &s9, byte_buffer_word_list(), name);
            lemma_registered_others(&s9, &s10, hash_table_word_list(), name);
            lemma_registered_others(&s10, &s11, math_logic_and_bit_word_list(), name);
        }
        if old(interpreter).handlers_view().len() + base_word_count() <= usize::MAX {
            assert forall|word: NativeWord| is_base_word(word) implies named(
                interpreter,
                word,
            ) by {
                lemma_base_word_listed(word);
                if sorth_word_list().contains(word) {
                    lemma_registered_named(old(interpreter), &s1, &end, sorth_word_list(), word);
                } else if stack_word_list().contains(word) {
                    lemma_registered_named(&s1, &s2, &end, stack_word_list(), word);
                } else if bytecode_word_list().contains(word) {
                    lemma_registered_named(&s2, &s3, &end, bytecode_word_list(), word);
                } else if word_word_list().contains(word) {
                    lemma_registered_named(&s3, &s4, &end, word_word_list(), word);
                } else if word_creation_word_list().contains(word) {
                    lemma_registered_named(&s4, &s5, &end, word_creation_word_list(), word);
                } else if string_word_list().contains(word) {
                    lemma_registered_named(&s5, &s6, &end, string_word_list(), word);
                } else if data_structure_word_list().contains(word) {
                    lemma_registered_named(&s6, &s7, &end, data_structure_word_list(), word);
                } else if array_word_list().contains(word) {
                    lemma_registered_named(&s7, &s8, &end, array_word_list(), word);
                } else if byte_buffer_word_list().contains(word) {
                    lemma_registered_named(&s8, &s9, &end, byte_buffer_word_list(), word);
                } else if hash_table_word_list().contains(word) {
                    lemma_registered_named(&s9, &s10, &end, hash_table_word_list(), word);
                } else if math_logic_and_bit_word_list().contains(word) {
                    lemma_registered_named(&s10, &s11, &end, math_logic_and_bit_word_list(), word);
                }
            }
        }
    }
}

} // verus!
