//! The spelling of the names of the words that are built in, and what
//! follows from it: no two of them have the same name, and none has the
//! notation of a number as its name.

use vstd::prelude::*;
use crate::runtime::built_ins::base_words::native_name;
use crate::runtime::interpreter::NativeWord;
use crate::text::int_text;
use crate::text::lemma_int_text_first;

verus! {

/// How the names of the first eleven words are spelled. The verifier looks
/// into a text only where it is told to.
proof fn lemma_names_spelled_1()
    ensures
        "[].new"@.len() == 6,
        "[].new"@[0] == '[',
        "[].new"@[1] == ']',
        "[].new"@[2] == '.',
        "[].new"@[3] == 'n',
        "[].new"@[4] == 'e',
        "[].new"@[5] == 'w',
        "[].size@"@.len() == 8,
        "[].size@"@[0] == '[',
        "[].size@"@[1] == ']',
        "[].size@"@[2] == '.',
        "[].size@"@[3] == 's',
        "[].size@"@[4] == 'i',
        "[].size@"@[5] == 'z',
        "[].size@"@[6] == 'e',
        "[].size@"@[7] == '@',
        "[]!"@.len() == 3,
        "[]!"@[0] == '[',
        "[]!"@[1] == ']',
        "[]!"@[2] == '!',
        "[]@"@.len() == 3,
        "[]@"@[0] == '[',
        "[]@"@[1] == ']',
        "[]@"@[2] == '@',
        "[].size!"@.len() == 8,
        "[].size!"@[0] == '[',
        "[].size!"@[1] == ']',
        "[].size!"@[2] == '.',
        "[].size!"@[3] == 's',
        "[].size!"@[4] == 'i',
        "[].size!"@[5] == 'z',
        "[].size!"@[6] == 'e',
        "[].size!"@[7] == '!',
        "[].insert"@.len() == 9,
        "[].insert"@[0] == '[',
        "[].insert"@[1] == ']',
        "[].insert"@[2] == '.',
        "[].insert"@[3] == 'i',
        "[].insert"@[4] == 'n',
        "[].insert"@[5] == 's',
        "[].insert"@[6] == 'e',
        "[].insert"@[7] == 'r',
        "[].insert"@[8] == 't',
        "[].delete"@.len() == 9,
        "[].delete"@[0] == '[',
        "[].delete"@[1] == ']',
        "[].delete"@[2] == '.',
        "[].delete"@[3] == 'd',
        "[].delete"@[4] == 'e',
        "[].delete"@[5] == 'l',
        "[].delete"@[6] == 'e',
        "[].delete"@[7] == 't',
        "[].delete"@[8] == 'e',
        "[].+"@.len() == 4,
        "[].+"@[0] == '[',
        "[].+"@[1] == ']',
        "[].+"@[2] == '.',
        "[].+"@[3] == '+',
        "[].="@.len() == 4,
        "[].="@[0] == '[',
        "[].="@[1] == ']',
        "[].="@[2] == '.',
        "[].="@[3] == '=',
        "[].push_front!"@.len() == 14,
        "[].push_front!"@[0] == '[',
        "[].push_front!"@[1] == ']',
        "[].push_front!"@[2] == '.',
        "[].push_front!"@[3] == 'p',
        "[].push_front!"@[4] == 'u',
        "[].push_front!"@[5] == 's',
        "[].push_front!"@[6] == 'h',
        "[].push_front!"@[7] == '_',
        "[].push_front!"@[8] == 'f',
        "[].push_front!"@[9] == 'r',
        "[].push_front!"@[10] == 'o',
        "[].push_front!"@[11] == 'n',
        "[].push_front!"@[12] == 't',
        "[].push_front!"@[13] == '!',
        "[].push_back!"@.len() == 13,
        "[].push_back!"@[0] == '[',
        "[].push_back!"@[1] == ']',
        "[].push_back!"@[2] == '.',
        "[].push_back!"@[3] == 'p',
        "[].push_back!"@[4] == 'u',
        "[].push_back!"@[5] == 's',
        "[].push_back!"@[6] == 'h',
        "[].push_back!"@[7] == '_',
        "[].push_back!"@[8] == 'b',
        "[].push_back!"@[9] == 'a',
        "[].push_back!"@[10] == 'c',
        "[].push_back!"@[11] == 'k',
        "[].push_back!"@[12] == '!',
{
    reveal_strlit("[].new");
    reveal_strlit("[].size@");
    reveal_strlit("[]!");
    reveal_strlit("[]@");
    reveal_strlit("[].size!");
    reveal_strlit("[].insert");
    reveal_strlit("[].delete");
    reveal_strlit("[].+");
    reveal_strlit("[].=");
    reveal_strlit("[].push_front!");
    reveal_strlit("[].push_back!");
}

/// How the names of the second eleven words are spelled. The verifier looks
/// into a text only where it is told to.
proof fn lemma_names_spelled_2()
    ensures
        "[].pop_front!"@.len() == 13,
        "[].pop_front!"@[0] == '[',
        "[].pop_front!"@[1] == ']',
        "[].pop_front!"@[2] == '.',
        "[].pop_front!"@[3] == 'p',
        "[].pop_front!"@[4] == 'o',
        "[].pop_front!"@[5] == 'p',
        "[].pop_front!"@[6] == '_',
        "[].pop_front!"@[7] == 'f',
        "[].pop_front!"@[8] == 'r',
        "[].pop_front!"@[9] == 'o',
        "[].pop_front!"@[10] == 'n',
        "[].pop_front!"@[11] == 't',
        "[].pop_front!"@[12] == '!',
        "[].pop_back!"@.len() == 12,
        "[].pop_back!"@[0] == '[',
        "[].pop_back!"@[1] == ']',
        "[].pop_back!"@[2] == '.',
        "[].pop_back!"@[3] == 'p',
        "[].pop_back!"@[4] == 'o',
        "[].pop_back!"@[5] == 'p',
        "[].pop_back!"@[6] == '_',
        "[].pop_back!"@[7] == 'b',
        "[].pop_back!"@[8] == 'a',
        "[].pop_back!"@[9] == 'c',
        "[].pop_back!"@[10] == 'k',
        "[].pop_back!"@[11] == '!',
        "buffer.new"@.len() == 10,
        "buffer.new"@[0] == 'b',
        "buffer.new"@[1] == 'u',
        "buffer.new"@[2] == 'f',
        "buffer.new"@[3] == 'f',
        "buffer.new"@[4] == 'e',
        "buffer.new"@[5] == 'r',
        "buffer.new"@[6] == '.',
        "buffer.new"@[7] == 'n',
        "buffer.new"@[8] == 'e',
        "buffer.new"@[9] == 'w',
        "buffer.size@"@.len() == 12,
        "buffer.size@"@[0] == 'b',
        "buffer.size@"@[1] == 'u',
        "buffer.size@"@[2] == 'f',
        "buffer.size@"@[3] == 'f',
        "buffer.size@"@[4] == 'e',
        "buffer.size@"@[5] == 'r',
        "buffer.size@"@[6] == '.',
        "buffer.size@"@[7] == 's',
        "buffer.size@"@[8] == 'i',
        "buffer.size@"@[9] == 'z',
        "buffer.size@"@[10] == 'e',
        "buffer.size@"@[11] == '@',
        "buffer.size!"@.len() == 12,
        "buffer.size!"@[0] == 'b',
        "buffer.size!"@[1] == 'u',
        "buffer.size!"@[2] == 'f',
        "buffer.size!"@[3] == 'f',
        "buffer.size!"@[4] == 'e',
        "buffer.size!"@[5] == 'r',
        "buffer.size!"@[6] == '.',
        "buffer.size!"@[7] == 's',
        "buffer.size!"@[8] == 'i',
        "buffer.size!"@[9] == 'z',
        "buffer.size!"@[10] == 'e',
        "buffer.size!"@[11] == '!',
        "buffer.int!"@.len() == 11,
        "buffer.int!"@[0] == 'b',
        "buffer.int!"@[1] == 'u',
        "buffer.int!"@[2] == 'f',
        "buffer.int!"@[3] == 'f',
        "buffer.int!"@[4] == 'e',
        "buffer.int!"@[5] == 'r',
        "buffer.int!"@[6] == '.',
        "buffer.int!"@[7] == 'i',
        "buffer.int!"@[8] == 'n',
        "buffer.int!"@[9] == 't',
        "buffer.int!"@[10] == '!',
        "buffer.int@"@.len() == 11,
        "buffer.int@"@[0] == 'b',
        "buffer.int@"@[1] == 'u',
        "buffer.int@"@[2] == 'f',
        "buffer.int@"@[3] == 'f',
        "buffer.int@"@[4] == 'e',
        "buffer.int@"@[5] == 'r',
        "buffer.int@"@[6] == '.',
        "buffer.int@"@[7] == 'i',
        "buffer.int@"@[8] == 'n',
        "buffer.int@"@[9] == 't',
        "buffer.int@"@[10] == '@',
        "buffer.float!"@.len() == 13,
        "buffer.float!"@[0] == 'b',
        "buffer.float!"@[1] == 'u',
        "buffer.float!"@[2] == 'f',
        "buffer.float!"@[3] == 'f',
        "buffer.float!"@[4] == 'e',
        "buffer.float!"@[5] == 'r',
        "buffer.float!"@[6] == '.',
        "buffer.float!"@[7] == 'f',
        "buffer.float!"@[8] == 'l',
        "buffer.float!"@[9] == 'o',
        "buffer.float!"@[10] == 'a',
        "buffer.float!"@[11] == 't',
        "buffer.float!"@[12] == '!',
        "buffer.float@"@.len() == 13,
        "buffer.float@"@[0] == 'b',
        "buffer.float@"@[1] == 'u',
        "buffer.float@"@[2] == 'f',
        "buffer.float@"@[3] == 'f',
        "buffer.float@"@[4] == 'e',
        "buffer.float@"@[5] == 'r',
        "buffer.float@"@[6] == '.',
        "buffer.float@"@[7] == 'f',
        "buffer.float@"@[8] == 'l',
        "buffer.float@"@[9] == 'o',
        "buffer.float@"@[10] == 'a',
        "buffer.float@"@[11] == 't',
        "buffer.float@"@[12] == '@',
        "buffer.string!"@.len() == 14,
        "buffer.string!"@[0] == 'b',
        "buffer.string!"@[1] == 'u',
        "buffer.string!"@[2] == 'f',
        "buffer.string!"@[3] == 'f',
        "buffer.string!"@[4] == 'e',
        "buffer.string!"@[5] == 'r',
        "buffer.string!"@[6] == '.',
        "buffer.string!"@[7] == 's',
        "buffer.string!"@[8] == 't',
        "buffer.string!"@[9] == 'r',
        "buffer.string!"@[10] == 'i',
        "buffer.string!"@[11] == 'n',
        "buffer.string!"@[12] == 'g',
        "buffer.string!"@[13] == '!',
        "buffer.string@"@.len() == 14,
        "buffer.string@"@[0] == 'b',
        "buffer.string@"@[1] == 'u',
        "buffer.string@"@[2] == 'f',
        "buffer.string@"@[3] == 'f',
        "buffer.string@"@[4] == 'e',
        "buffer.string@"@[5] == 'r',
        "buffer.string@"@[6] == '.',
        "buffer.string@"@[7] == 's',
        "buffer.string@"@[8] == 't',
        "buffer.string@"@[9] == 'r',
        "buffer.string@"@[10] == 'i',
        "buffer.string@"@[11] == 'n',
        "buffer.string@"@[12] == 'g',
        "buffer.string@"@[13] == '@',
{
    reveal_strlit("[].pop_front!");
    reveal_strlit("[].pop_back!");
    reveal_strlit("buffer.new");
    reveal_strlit("buffer.size@");
    reveal_strlit("buffer.size!");
    reveal_strlit("buffer.int!");
    reveal_strlit("buffer.int@");
    reveal_strlit("buffer.float!");
    reveal_strlit("buffer.float@");
    reveal_strlit("buffer.string!");
    reveal_strlit("buffer.string@");
}

/// How the names of the third eleven words are spelled. The verifier looks
/// into a text only where it is told to.
proof fn lemma_names_spelled_3()
    ensures
        "buffer.position!"@.len() == 16,
        "buffer.position!"@[0] == 'b',
        "buffer.position!"@[1] == 'u',
        "buffer.position!"@[2] == 'f',
        "buffer.position!"@[3] == 'f',
        "buffer.position!"@[4] == 'e',
        "buffer.position!"@[5] == 'r',
        "buffer.position!"@[6] == '.',
        "buffer.position!"@[7] == 'p',
        "buffer.position!"@[8] == 'o',
        "buffer.position!"@[9] == 's',
        "buffer.position!"@[10] == 'i',
        "buffer.position!"@[11] == 't',
        "buffer.position!"@[12] == 'i',
        "buffer.position!"@[13] == 'o',
        "buffer.position!"@[14] == 'n',
        "buffer.position!"@[15] == '!',
        "buffer.position@"@.len() == 16,
        "buffer.position@"@[0] == 'b',
        "buffer.position@"@[1] == 'u',
        "buffer.position@"@[2] == 'f',
        "buffer.position@"@[3] == 'f',
        "buffer.position@"@[4] == 'e',
        "buffer.position@"@[5] == 'r',
        "buffer.position@"@[6] == '.',
        "buffer.position@"@[7] == 'p',
        "buffer.position@"@[8] == 'o',
        "buffer.position@"@[9] == 's',
        "buffer.position@"@[10] == 'i',
        "buffer.position@"@[11] == 't',
        "buffer.position@"@[12] == 'i',
        "buffer.position@"@[13] == 'o',
        "buffer.position@"@[14] == 'n',
        "buffer.position@"@[15] == '@',
        "op.def_variable"@.len() == 15,
        "op.def_variable"@[0] == 'o',
        "op.def_variable"@[1] == 'p',
        "op.def_variable"@[2] == '.',
        "op.def_variable"@[3] == 'd',
        "op.def_variable"@[4] == 'e',
        "op.def_variable"@[5] == 'f',
        "op.def_variable"@[6] == '_',
        "op.def_variable"@[7] == 'v',
        "op.def_variable"@[8] == 'a',
        "op.def_variable"@[9] == 'r',
        "op.def_variable"@[10] == 'i',
        "op.def_variable"@[11] == 'a',
        "op.def_variable"@[12] == 'b',
        "op.def_variable"@[13] == 'l',
        "op.def_variable"@[14] == 'e',
        "op.def_constant"@.len() == 15,
        "op.def_constant"@[0] == 'o',
        "op.def_constant"@[1] == 'p',
        "op.def_constant"@[2] == '.',
        "op.def_constant"@[3] == 'd',
        "op.def_constant"@[4] == 'e',
        "op.def_constant"@[5] == 'f',
        "op.def_constant"@[6] == '_',
        "op.def_constant"@[7] == 'c',
        "op.def_constant"@[8] == 'o',
        "op.def_constant"@[9] == 'n',
        "op.def_constant"@[10] == 's',
        "op.def_constant"@[11] == 't',
        "op.def_constant"@[12] == 'a',
        "op.def_constant"@[13] == 'n',
        "op.def_constant"@[14] == 't',
        "op.read_variable"@.len() == 16,
        "op.read_variable"@[0] == 'o',
        "op.read_variable"@[1] == 'p',
        "op.read_variable"@[2] == '.',
        "op.read_variable"@[3] == 'r',
        "op.read_variable"@[4] == 'e',
        "op.read_variable"@[5] == 'a',
        "op.read_variable"@[6] == 'd',
        "op.read_variable"@[7] == '_',
        "op.read_variable"@[8] == 'v',
        "op.read_variable"@[9] == 'a',
        "op.read_variable"@[10] == 'r',
        "op.read_variable"@[11] == 'i',
        "op.read_variable"@[12] == 'a',
        "op.read_variable"@[13] == 'b',
        "op.read_variable"@[14] == 'l',
        "op.read_variable"@[15] == 'e',
        "op.write_variable"@.len() == 17,
        "op.write_variable"@[0] == 'o',
        "op.write_variable"@[1] == 'p',
        "op.write_variable"@[2] == '.',
        "op.write_variable"@[3] == 'w',
        "op.write_variable"@[4] == 'r',
        "op.write_variable"@[5] == 'i',
        "op.write_variable"@[6] == 't',
        "op.write_variable"@[7] == 'e',
        "op.write_variable"@[8] == '_',
        "op.write_variable"@[9] == 'v',
        "op.write_variable"@[10] == 'a',
        "op.write_variable"@[11] == 'r',
        "op.write_variable"@[12] == 'i',
        "op.write_variable"@[13] == 'a',
        "op.write_variable"@[14] == 'b',
        "op.write_variable"@[15] == 'l',
        "op.write_variable"@[16] == 'e',
        "op.execute"@.len() == 10,
        "op.execute"@[0] == 'o',
        "op.execute"@[1] == 'p',
        "op.execute"@[2] == '.',
        "op.execute"@[3] == 'e',
        "op.execute"@[4] == 'x',
        "op.execute"@[5] == 'e',
        "op.execute"@[6] == 'c',
        "op.execute"@[7] == 'u',
        "op.execute"@[8] == 't',
        "op.execute"@[9] == 'e',
        "op.push_constant_value"@.len() == 22,
        "op.push_constant_value"@[0] == 'o',
        "op.push_constant_value"@[1] == 'p',
        "op.push_constant_value"@[2] == '.',
        "op.push_constant_value"@[3] == 'p',
        "op.push_constant_value"@[4] == 'u',
        "op.push_constant_value"@[5] == 's',
        "op.push_constant_value"@[6] == 'h',
        "op.push_constant_value"@[7] == '_',
        "op.push_constant_value"@[8] == 'c',
        "op.push_constant_value"@[9] == 'o',
        "op.push_constant_value"@[10] == 'n',
        "op.push_constant_value"@[11] == 's',
        "op.push_constant_value"@[12] == 't',
        "op.push_constant_value"@[13] == 'a',
        "op.push_constant_value"@[14] == 'n',
        "op.push_constant_value"@[15] == 't',
        "op.push_constant_value"@[16] == '_',
        "op.push_constant_value"@[17] == 'v',
        "op.push_constant_value"@[18] == 'a',
        "op.push_constant_value"@[19] == 'l',
        "op.push_constant_value"@[20] == 'u',
        "op.push_constant_value"@[21] == 'e',
        "op.mark_loop_exit"@.len() == 17,
        "op.mark_loop_exit"@[0] == 'o',
        "op.mark_loop_exit"@[1] == 'p',
        "op.mark_loop_exit"@[2] == '.',
        "op.mark_loop_exit"@[3] == 'm',
        "op.mark_loop_exit"@[4] == 'a',
        "op.mark_loop_exit"@[5] == 'r',
        "op.mark_loop_exit"@[6] == 'k',
        "op.mark_loop_exit"@[7] == '_',
        "op.mark_loop_exit"@[8] == 'l',
        "op.mark_loop_exit"@[9] == 'o',
        "op.mark_loop_exit"@[10] == 'o',
        "op.mark_loop_exit"@[11] == 'p',
        "op.mark_loop_exit"@[12] == '_',
        "op.mark_loop_exit"@[13] == 'e',
        "op.mark_loop_exit"@[14] == 'x',
        "op.mark_loop_exit"@[15] == 'i',
        "op.mark_loop_exit"@[16] == 't',
        "op.unmark_loop_exit"@.len() == 19,
        "op.unmark_loop_exit"@[0] == 'o',
        "op.unmark_loop_exit"@[1] == 'p',
        "op.unmark_loop_exit"@[2] == '.',
        "op.unmark_loop_exit"@[3] == 'u',
        "op.unmark_loop_exit"@[4] == 'n',
        "op.unmark_loop_exit"@[5] == 'm',
        "op.unmark_loop_exit"@[6] == 'a',
        "op.unmark_loop_exit"@[7] == 'r',
        "op.unmark_loop_exit"@[8] == 'k',
        "op.unmark_loop_exit"@[9] == '_',
        "op.unmark_loop_exit"@[10] == 'l',
        "op.unmark_loop_exit"@[11] == 'o',
        "op.unmark_loop_exit"@[12] == 'o',
        "op.unmark_loop_exit"@[13] == 'p',
        "op.unmark_loop_exit"@[14] == '_',
        "op.unmark_loop_exit"@[15] == 'e',
        "op.unmark_loop_exit"@[16] == 'x',
        "op.unmark_loop_exit"@[17] == 'i',
        "op.unmark_loop_exit"@[18] == 't',
        "op.mark_catch"@.len() == 13,
        "op.mark_catch"@[0] == 'o',
        "op.mark_catch"@[1] == 'p',
        "op.mark_catch"@[2] == '.',
        "op.mark_catch"@[3] == 'm',
        "op.mark_catch"@[4] == 'a',
        "op.mark_catch"@[5] == 'r',
        "op.mark_catch"@[6] == 'k',
        "op.mark_catch"@[7] == '_',
        "op.mark_catch"@[8] == 'c',
        "op.mark_catch"@[9] == 'a',
        "op.mark_catch"@[10] == 't',
        "op.mark_catch"@[11] == 'c',
        "op.mark_catch"@[12] == 'h',
{
    reveal_strlit("buffer.position!");
    reveal_strlit("buffer.position@");
    reveal_strlit("op.def_variable");
    reveal_strlit("op.def_constant");
    reveal_strlit("op.read_variable");
    reveal_strlit("op.write_variable");
    reveal_strlit("op.execute");
    reveal_strlit("op.push_constant_value");
    reveal_strlit("op.mark_loop_exit");
    reveal_strlit("op.unmark_loop_exit");
    reveal_strlit("op.mark_catch");
}

/// How the names of the fourth eleven words are spelled. The verifier looks
/// into a text only where it is told to.
proof fn lemma_names_spelled_4()
    ensures
        "op.unmark_catch"@.len() == 15,
        "op.unmark_catch"@[0] == 'o',
        "op.unmark_catch"@[1] == 'p',
        "op.unmark_catch"@[2] == '.',
        "op.unmark_catch"@[3] == 'u',
        "op.unmark_catch"@[4] == 'n',
        "op.unmark_catch"@[5] == 'm',
        "op.unmark_catch"@[6] == 'a',
        "op.unmark_catch"@[7] == 'r',
        "op.unmark_catch"@[8] == 'k',
        "op.unmark_catch"@[9] == '_',
        "op.unmark_catch"@[10] == 'c',
        "op.unmark_catch"@[11] == 'a',
        "op.unmark_catch"@[12] == 't',
        "op.unmark_catch"@[13] == 'c',
        "op.unmark_catch"@[14] == 'h',
        "op.jump"@.len() == 7,
        "op.jump"@[0] == 'o',
        "op.jump"@[1] == 'p',
        "op.jump"@[2] == '.',
        "op.jump"@[3] == 'j',
        "op.jump"@[4] == 'u',
        "op.jump"@[5] == 'm',
        "op.jump"@[6] == 'p',
        "op.jump_if_zero"@.len() == 15,
        "op.jump_if_zero"@[0] == 'o',
        "op.jump_if_zero"@[1] == 'p',
        "op.jump_if_zero"@[2] == '.',
        "op.jump_if_zero"@[3] == 'j',
        "op.jump_if_zero"@[4] == 'u',
        "op.jump_if_zero"@[5] == 'm',
        "op.jump_if_zero"@[6] == 'p',
        "op.jump_if_zero"@[7] == '_',
        "op.jump_if_zero"@[8] == 'i',
        "op.jump_if_zero"@[9] == 'f',
        "op.jump_if_zero"@[10] == '_',
        "op.jump_if_zero"@[11] == 'z',
        "op.jump_if_zero"@[12] == 'e',
        "op.jump_if_zero"@[13] == 'r',
        "op.jump_if_zero"@[14] == 'o',
        "op.jump_if_not_zero"@.len() == 19,
        "op.jump_if_not_zero"@[0] == 'o',
        "op.jump_if_not_zero"@[1] == 'p',
        "op.jump_if_not_zero"@[2] == '.',
        "op.jump_if_not_zero"@[3] == 'j',
        "op.jump_if_not_zero"@[4] == 'u',
        "op.jump_if_not_zero"@[5] == 'm',
        "op.jump_if_not_zero"@[6] == 'p',
        "op.jump_if_not_zero"@[7] == '_',
        "op.jump_if_not_zero"@[8] == 'i',
        "op.jump_if_not_zero"@[9] == 'f',
        "op.jump_if_not_zero"@[10] == '_',
        "op.jump_if_not_zero"@[11] == 'n',
        "op.jump_if_not_zero"@[12] == 'o',
        "op.jump_if_not_zero"@[13] == 't',
        "op.jump_if_not_zero"@[14] == '_',
        "op.jump_if_not_zero"@[15] == 'z',
        "op.jump_if_not_zero"@[16] == 'e',
        "op.jump_if_not_zero"@[17] == 'r',
        "op.jump_if_not_zero"@[18] == 'o',
        "op.jump_loop_start"@.len() == 18,
        "op.jump_loop_start"@[0] == 'o',
        "op.jump_loop_start"@[1] == 'p',
        "op.jump_loop_start"@[2] == '.',
        "op.jump_loop_start"@[3] == 'j',
        "op.jump_loop_start"@[4] == 'u',
        "op.jump_loop_start"@[5] == 'm',
        "op.jump_loop_start"@[6] == 'p',
        "op.jump_loop_start"@[7] == '_',
        "op.jump_loop_start"@[8] == 'l',
        "op.jump_loop_start"@[9] == 'o',
        "op.jump_loop_start"@[10] == 'o',
        "op.jump_loop_start"@[11] == 'p',
        "op.jump_loop_start"@[12] == '_',
        "op.jump_loop_start"@[13] == 's',
        "op.jump_loop_start"@[14] == 't',
        "op.jump_loop_start"@[15] == 'a',
        "op.jump_loop_start"@[16] == 'r',
        "op.jump_loop_start"@[17] == 't',
        "op.jump_loop_exit"@.len() == 17,
        "op.jump_loop_exit"@[0] == 'o',
        "op.jump_loop_exit"@[1] == 'p',
        "op.jump_loop_exit"@[2] == '.',
        "op.jump_loop_exit"@[3] == 'j',
        "op.jump_loop_exit"@[4] == 'u',
        "op.jump_loop_exit"@[5] == 'm',
        "op.jump_loop_exit"@[6] == 'p',
        "op.jump_loop_exit"@[7] == '_',
        "op.jump_loop_exit"@[8] == 'l',
        "op.jump_loop_exit"@[9] == 'o',
        "op.jump_loop_exit"@[10] == 'o',
        "op.jump_loop_exit"@[11] == 'p',
        "op.jump_loop_exit"@[12] == '_',
        "op.jump_loop_exit"@[13] == 'e',
        "op.jump_loop_exit"@[14] == 'x',
        "op.jump_loop_exit"@[15] == 'i',
        "op.jump_loop_exit"@[16] == 't',
        "op.jump_target"@.len() == 14,
        "op.jump_target"@[0] == 'o',
        "op.jump_target"@[1] == 'p',
        "op.jump_target"@[2] == '.',
        "op.jump_target"@[3] == 'j',
        "op.jump_target"@[4] == 'u',
        "op.jump_target"@[5] == 'm',
        "op.jump_target"@[6] == 'p',
        "op.jump_target"@[7] == '_',
        "op.jump_target"@[8] == 't',
        "op.jump_target"@[9] == 'a',
        "op.jump_target"@[10] == 'r',
        "op.jump_target"@[11] == 'g',
        "op.jump_target"@[12] == 'e',
        "op.jump_target"@[13] == 't',
        "code.new_block"@.len() == 14,
        "code.new_block"@[0] == 'c',
        "code.new_block"@[1] == 'o',
        "code.new_block"@[2] == 'd',
        "code.new_block"@[3] == 'e',
        "code.new_block"@[4] == '.',
        "code.new_block"@[5] == 'n',
        "code.new_block"@[6] == 'e',
        "code.new_block"@[7] == 'w',
        "code.new_block"@[8] == '_',
        "code.new_block"@[9] == 'b',
        "code.new_block"@[10] == 'l',
        "code.new_block"@[11] == 'o',
        "code.new_block"@[12] == 'c',
        "code.new_block"@[13] == 'k',
        "code.merge_stack_block"@.len() == 22,
        "code.merge_stack_block"@[0] == 'c',
        "code.merge_stack_block"@[1] == 'o',
        "code.merge_stack_block"@[2] == 'd',
        "code.merge_stack_block"@[3] == 'e',
        "code.merge_stack_block"@[4] == '.',
        "code.merge_stack_block"@[5] == 'm',
        "code.merge_stack_block"@[6] == 'e',
        "code.merge_stack_block"@[7] == 'r',
        "code.merge_stack_block"@[8] == 'g',
        "code.merge_stack_block"@[9] == 'e',
        "code.merge_stack_block"@[10] == '_',
        "code.merge_stack_block"@[11] == 's',
        "code.merge_stack_block"@[12] == 't',
        "code.merge_stack_block"@[13] == 'a',
        "code.merge_stack_block"@[14] == 'c',
        "code.merge_stack_block"@[15] == 'k',
        "code.merge_stack_block"@[16] == '_',
        "code.merge_stack_block"@[17] == 'b',
        "code.merge_stack_block"@[18] == 'l',
        "code.merge_stack_block"@[19] == 'o',
        "code.merge_stack_block"@[20] == 'c',
        "code.merge_stack_block"@[21] == 'k',
        "code.pop_stack_block"@.len() == 20,
        "code.pop_stack_block"@[0] == 'c',
        "code.pop_stack_block"@[1] == 'o',
        "code.pop_stack_block"@[2] == 'd',
        "code.pop_stack_block"@[3] == 'e',
        "code.pop_stack_block"@[4] == '.',
        "code.pop_stack_block"@[5] == 'p',
        "code.pop_stack_block"@[6] == 'o',
        "code.pop_stack_block"@[7] == 'p',
        "code.pop_stack_block"@[8] == '_',
        "code.pop_stack_block"@[9] == 's',
        "code.pop_stack_block"@[10] == 't',
        "code.pop_stack_block"@[11] == 'a',
        "code.pop_stack_block"@[12] == 'c',
        "code.pop_stack_block"@[13] == 'k',
        "code.pop_stack_block"@[14] == '_',
        "code.pop_stack_block"@[15] == 'b',
        "code.pop_stack_block"@[16] == 'l',
        "code.pop_stack_block"@[17] == 'o',
        "code.pop_stack_block"@[18] == 'c',
        "code.pop_stack_block"@[19] == 'k',
        "code.push_stack_block"@.len() == 21,
        "code.push_stack_block"@[0] == 'c',
        "code.push_stack_block"@[1] == 'o',
        "code.push_stack_block"@[2] == 'd',
        "code.push_stack_block"@[3] == 'e',
        "code.push_stack_block"@[4] == '.',
        "code.push_stack_block"@[5] == 'p',
        "code.push_stack_block"@[6] == 'u',
        "code.push_stack_block"@[7] == 's',
        "code.push_stack_block"@[8] == 'h',
        "code.push_stack_block"@[9] == '_',
        "code.push_stack_block"@[10] == 's',
        "code.push_stack_block"@[11] == 't',
        "code.push_stack_block"@[12] == 'a',
        "code.push_stack_block"@[13] == 'c',
        "code.push_stack_block"@[14] == 'k',
        "code.push_stack_block"@[15] == '_',
        "code.push_stack_block"@[16] == 'b',
        "code.push_stack_block"@[17] == 'l',
        "code.push_stack_block"@[18] == 'o',
        "code.push_stack_block"@[19] == 'c',
        "code.push_stack_block"@[20] == 'k',
{
    reveal_strlit("op.unmark_catch");
    reveal_strlit("op.jump");
    reveal_strlit("op.jump_if_zero");
    reveal_strlit("op.jump_if_not_zero");
    reveal_strlit("op.jump_loop_start");
    reveal_strlit("op.jump_loop_exit");
    reveal_strlit("op.jump_target");
    reveal_strlit("code.new_block");
    reveal_strlit("code.merge_stack_block");
    reveal_strlit("code.pop_stack_block");
    reveal_strlit("code.push_stack_block");
}

/// How the names of the fifth eleven words are spelled. The verifier looks
/// into a text only where it is told to.
proof fn lemma_names_spelled_5()
    ensures
        "code.stack_block_size@"@.len() == 22,
        "code.stack_block_size@"@[0] == 'c',
        "code.stack_block_size@"@[1] == 'o',
        "code.stack_block_size@"@[2] == 'd',
        "code.stack_block_size@"@[3] == 'e',
        "code.stack_block_size@"@[4] == '.',
        "code.stack_block_size@"@[5] == 's',
        "code.stack_block_size@"@[6] == 't',
        "code.stack_block_size@"@[7] == 'a',
        "code.stack_block_size@"@[8] == 'c',
        "code.stack_block_size@"@[9] == 'k',
        "code.stack_block_size@"@[10] == '_',
        "code.stack_block_size@"@[11] == 'b',
        "code.stack_block_size@"@[12] == 'l',
        "code.stack_block_size@"@[13] == 'o',
        "code.stack_block_size@"@[14] == 'c',
        "code.stack_block_size@"@[15] == 'k',
        "code.stack_block_size@"@[16] == '_',
        "code.stack_block_size@"@[17] == 's',
        "code.stack_block_size@"@[18] == 'i',
        "code.stack_block_size@"@[19] == 'z',
        "code.stack_block_size@"@[20] == 'e',
        "code.stack_block_size@"@[21] == '@',
        "code.resolve_jumps"@.len() == 18,
        "code.resolve_jumps"@[0] == 'c',
        "code.resolve_jumps"@[1] == 'o',
        "code.resolve_jumps"@[2] == 'd',
        "code.resolve_jumps"@[3] == 'e',
        "code.resolve_jumps"@[4] == '.',
        "code.resolve_jumps"@[5] == 'r',
        "code.resolve_jumps"@[6] == 'e',
        "code.resolve_jumps"@[7] == 's',
        "code.resolve_jumps"@[8] == 'o',
        "code.resolve_jumps"@[9] == 'l',
        "code.resolve_jumps"@[10] == 'v',
        "code.resolve_jumps"@[11] == 'e',
        "code.resolve_jumps"@[12] == '_',
        "code.resolve_jumps"@[13] == 'j',
        "code.resolve_jumps"@[14] == 'u',
        "code.resolve_jumps"@[15] == 'm',
        "code.resolve_jumps"@[16] == 'p',
        "code.resolve_jumps"@[17] == 's',
        "code.compile_until_words"@.len() == 24,
        "code.compile_until_words"@[0] == 'c',
        "code.compile_until_words"@[1] == 'o',
        "code.compile_until_words"@[2] == 'd',
        "code.compile_until_words"@[3] == 'e',
        "code.compile_until_words"@[4] == '.',
        "code.compile_until_words"@[5] == 'c',
        "code.compile_until_words"@[6] == 'o',
        "code.compile_until_words"@[7] == 'm',
        "code.compile_until_words"@[8] == 'p',
        "code.compile_until_words"@[9] == 'i',
        "code.compile_until_words"@[10] == 'l',
        "code.compile_until_words"@[11] == 'e',
        "code.compile_until_words"@[12] == '_',
        "code.compile_until_words"@[13] == 'u',
        "code.compile_until_words"@[14] == 'n',
        "code.compile_until_words"@[15] == 't',
        "code.compile_until_words"@[16] == 'i',
        "code.compile_until_words"@[17] == 'l',
        "code.compile_until_words"@[18] == '_',
        "code.compile_until_words"@[19] == 'w',
        "code.compile_until_words"@[20] == 'o',
        "code.compile_until_words"@[21] == 'r',
        "code.compile_until_words"@[22] == 'd',
        "code.compile_until_words"@[23] == 's',
        "code.insert_at_front"@.len() == 20,
        "code.insert_at_front"@[0] == 'c',
        "code.insert_at_front"@[1] == 'o',
        "code.insert_at_front"@[2] == 'd',
        "code.insert_at_front"@[3] == 'e',
        "code.insert_at_front"@[4] == '.',
        "code.insert_at_front"@[5] == 'i',
        "code.insert_at_front"@[6] == 'n',
        "code.insert_at_front"@[7] == 's',
        "code.insert_at_front"@[8] == 'e',
        "code.insert_at_front"@[9] == 'r',
        "code.insert_at_front"@[10] == 't',
        "code.insert_at_front"@[11] == '_',
        "code.insert_at_front"@[12] == 'a',
        "code.insert_at_front"@[13] == 't',
        "code.insert_at_front"@[14] == '_',
        "code.insert_at_front"@[15] == 'f',
        "code.insert_at_front"@[16] == 'r',
        "code.insert_at_front"@[17] == 'o',
        "code.insert_at_front"@[18] == 'n',
        "code.insert_at_front"@[19] == 't',
        "code.execute_source"@.len() == 19,
        "code.execute_source"@[0] == 'c',
        "code.execute_source"@[1] == 'o',
        "code.execute_source"@[2] == 'd',
        "code.execute_source"@[3] == 'e',
        "code.execute_source"@[4] == '.',
        "code.execute_source"@[5] == 'e',
        "code.execute_source"@[6] == 'x',
        "code.execute_source"@[7] == 'e',
        "code.execute_source"@[8] == 'c',
        "code.execute_source"@[9] == 'u',
        "code.execute_source"@[10] == 't',
        "code.execute_source"@[11] == 'e',
        "code.execute_source"@[12] == '_',
        "code.execute_source"@[13] == 's',
        "code.execute_source"@[14] == 'o',
        "code.execute_source"@[15] == 'u',
        "code.execute_source"@[16] == 'r',
        "code.execute_source"@[17] == 'c',
        "code.execute_source"@[18] == 'e',
        "#"@.len() == 1,
        "#"@[0] == '#',
        "#@"@.len() == 2,
        "#@"@[0] == '#',
        "#@"@[1] == '@',
        "#!"@.len() == 2,
        "#!"@[0] == '#',
        "#!"@[1] == '!',
        "#.iterate"@.len() == 9,
        "#.iterate"@[0] == '#',
        "#.iterate"@[1] == '.',
        "#.iterate"@[2] == 'i',
        "#.iterate"@[3] == 't',
        "#.iterate"@[4] == 'e',
        "#.iterate"@[5] == 'r',
        "#.iterate"@[6] == 'a',
        "#.iterate"@[7] == 't',
        "#.iterate"@[8] == 'e',
        "#.field-exists?"@.len() == 15,
        "#.field-exists?"@[0] == '#',
        "#.field-exists?"@[1] == '.',
        "#.field-exists?"@[2] == 'f',
        "#.field-exists?"@[3] == 'i',
        "#.field-exists?"@[4] == 'e',
        "#.field-exists?"@[5] == 'l',
        "#.field-exists?"@[6] == 'd',
        "#.field-exists?"@[7] == '-',
        "#.field-exists?"@[8] == 'e',
        "#.field-exists?"@[9] == 'x',
        "#.field-exists?"@[10] == 'i',
        "#.field-exists?"@[11] == 's',
        "#.field-exists?"@[12] == 't',
        "#.field-exists?"@[13] == 's',
        "#.field-exists?"@[14] == '?',
        "#.="@.len() == 3,
        "#.="@[0] == '#',
        "#.="@[1] == '.',
        "#.="@[2] == '=',
{
    reveal_strlit("code.stack_block_size@");
    reveal_strlit("code.resolve_jumps");
    reveal_strlit("code.compile_until_words");
    reveal_strlit("code.insert_at_front");
    reveal_strlit("code.execute_source");
    reveal_strlit("#");
    reveal_strlit("#@");
    reveal_strlit("#!");
    reveal_strlit("#.iterate");
    reveal_strlit("#.field-exists?");
    reveal_strlit("#.=");
}

/// How the names of the sixth eleven words are spelled. The verifier looks
/// into a text only where it is told to.
proof fn lemma_names_spelled_6()
    ensures
        "{}.new"@.len() == 6,
        "{}.new"@[0] == '{',
        "{}.new"@[1] == '}',
        "{}.new"@[2] == '.',
        "{}.new"@[3] == 'n',
        "{}.new"@[4] == 'e',
        "{}.new"@[5] == 'w',
        "{}!"@.len() == 3,
        "{}!"@[0] == '{',
        "{}!"@[1] == '}',
        "{}!"@[2] == '!',
        "{}@"@.len() == 3,
        "{}@"@[0] == '{',
        "{}@"@[1] == '}',
        "{}@"@[2] == '@',
        "{}?"@.len() == 3,
        "{}?"@[0] == '{',
        "{}?"@[1] == '}',
        "{}?"@[2] == '?',
        "{}.+"@.len() == 4,
        "{}.+"@[0] == '{',
        "{}.+"@[1] == '}',
        "{}.+"@[2] == '.',
        "{}.+"@[3] == '+',
        "{}.="@.len() == 4,
        "{}.="@[0] == '{',
        "{}.="@[1] == '}',
        "{}.="@[2] == '.',
        "{}.="@[3] == '=',
        "{}.size@"@.len() == 8,
        "{}.size@"@[0] == '{',
        "{}.size@"@[1] == '}',
        "{}.size@"@[2] == '.',
        "{}.size@"@[3] == 's',
        "{}.size@"@[4] == 'i',
        "{}.size@"@[5] == 'z',
        "{}.size@"@[6] == 'e',
        "{}.size@"@[7] == '@',
        "{}.iterate"@.len() == 10,
        "{}.iterate"@[0] == '{',
        "{}.iterate"@[1] == '}',
        "{}.iterate"@[2] == '.',
        "{}.iterate"@[3] == 'i',
        "{}.iterate"@[4] == 't',
        "{}.iterate"@[5] == 'e',
        "{}.iterate"@[6] == 'r',
        "{}.iterate"@[7] == 'a',
        "{}.iterate"@[8] == 't',
        "{}.iterate"@[9] == 'e',
        "+"@.len() == 1,
        "+"@[0] == '+',
        "-"@.len() == 1,
        "-"@[0] == '-',
        "*"@.len() == 1,
        "*"@[0] == '*',
{
    reveal_strlit("{}.new");
    reveal_strlit("{}!");
    reveal_strlit("{}@");
    reveal_strlit("{}?");
    reveal_strlit("{}.+");
    reveal_strlit("{}.=");
    reveal_strlit("{}.size@");
    reveal_strlit("{}.iterate");
    reveal_strlit("+");
    reveal_strlit("-");
    reveal_strlit("*");
}

/// How the names of the seventh eleven words are spelled. The verifier looks
/// into a text only where it is told to.
proof fn lemma_names_spelled_7()
    ensures
        "/"@.len() == 1,
        "/"@[0] == '/',
        "%"@.len() == 1,
        "%"@[0] == '%',
        "&&"@.len() == 2,
        "&&"@[0] == '&',
        "&&"@[1] == '&',
        "||"@.len() == 2,
        "||"@[0] == '|',
        "||"@[1] == '|',
        "'"@.len() == 1,
        "'"@[0] == '\'',
        "&"@.len() == 1,
        "&"@[0] == '&',
        "|"@.len() == 1,
        "|"@[0] == '|',
        "^"@.len() == 1,
        "^"@[0] == '^',
        "~"@.len() == 1,
        "~"@[0] == '~',
        "<<"@.len() == 2,
        "<<"@[0] == '<',
        "<<"@[1] == '<',
        ">>"@.len() == 2,
        ">>"@[0] == '>',
        ">>"@[1] == '>',
{
    reveal_strlit("/");
    reveal_strlit("%");
    reveal_strlit("&&");
    reveal_strlit("||");
    reveal_strlit("'");
    reveal_strlit("&");
    reveal_strlit("|");
    reveal_strlit("^");
    reveal_strlit("~");
    reveal_strlit("<<");
    reveal_strlit(">>");
}

/// How the names of the eighth eleven words are spelled. The verifier looks
/// into a text only where it is told to.
proof fn lemma_names_spelled_8()
    ensures
        "="@.len() == 1,
        "="@[0] == '=',
        ">="@.len() == 2,
        ">="@[0] == '>',
        ">="@[1] == '=',
        "<="@.len() == 2,
        "<="@[0] == '<',
        "<="@[1] == '=',
        ">"@.len() == 1,
        ">"@[0] == '>',
        "<"@.len() == 1,
        "<"@[0] == '<',
        "reset"@.len() == 5,
        "reset"@[0] == 'r',
        "reset"@[1] == 'e',
        "reset"@[2] == 's',
        "reset"@[3] == 'e',
        "reset"@[4] == 't',
        "include"@.len() == 7,
        "include"@[0] == 'i',
        "include"@[1] == 'n',
        "include"@[2] == 'c',
        "include"@[3] == 'l',
        "include"@[4] == 'u',
        "include"@[5] == 'd',
        "include"@[6] == 'e',
        "[include]"@.len() == 9,
        "[include]"@[0] == '[',
        "[include]"@[1] == 'i',
        "[include]"@[2] == 'n',
        "[include]"@[3] == 'c',
        "[include]"@[4] == 'l',
        "[include]"@[5] == 'u',
        "[include]"@[6] == 'd',
        "[include]"@[7] == 'e',
        "[include]"@[8] == ']',
        ".s"@.len() == 2,
        ".s"@[0] == '.',
        ".s"@[1] == 's',
        ".w"@.len() == 2,
        ".w"@[0] == '.',
        ".w"@[1] == 'w',
        "sorth.version"@.len() == 13,
        "sorth.version"@[0] == 's',
        "sorth.version"@[1] == 'o',
        "sorth.version"@[2] == 'r',
        "sorth.version"@[3] == 't',
        "sorth.version"@[4] == 'h',
        "sorth.version"@[5] == '.',
        "sorth.version"@[6] == 'v',
        "sorth.version"@[7] == 'e',
        "sorth.version"@[8] == 'r',
        "sorth.version"@[9] == 's',
        "sorth.version"@[10] == 'i',
        "sorth.version"@[11] == 'o',
        "sorth.version"@[12] == 'n',
{
    reveal_strlit("=");
    reveal_strlit(">=");
    reveal_strlit("<=");
    reveal_strlit(">");
    reveal_strlit("<");
    reveal_strlit("reset");
    reveal_strlit("include");
    reveal_strlit("[include]");
    reveal_strlit(".s");
    reveal_strlit(".w");
    reveal_strlit("sorth.version");
}

/// How the names of the ninth eleven words are spelled. The verifier looks
/// into a text only where it is told to.
proof fn lemma_names_spelled_9()
    ensures
        "sorth.search-path"@.len() == 17,
        "sorth.search-path"@[0] == 's',
        "sorth.search-path"@[1] == 'o',
        "sorth.search-path"@[2] == 'r',
        "sorth.search-path"@[3] == 't',
        "sorth.search-path"@[4] == 'h',
        "sorth.search-path"@[5] == '.',
        "sorth.search-path"@[6] == 's',
        "sorth.search-path"@[7] == 'e',
        "sorth.search-path"@[8] == 'a',
        "sorth.search-path"@[9] == 'r',
        "sorth.search-path"@[10] == 'c',
        "sorth.search-path"@[11] == 'h',
        "sorth.search-path"@[12] == '-',
        "sorth.search-path"@[13] == 'p',
        "sorth.search-path"@[14] == 'a',
        "sorth.search-path"@[15] == 't',
        "sorth.search-path"@[16] == 'h',
        "sorth.find-file"@.len() == 15,
        "sorth.find-file"@[0] == 's',
        "sorth.find-file"@[1] == 'o',
        "sorth.find-file"@[2] == 'r',
        "sorth.find-file"@[3] == 't',
        "sorth.find-file"@[4] == 'h',
        "sorth.find-file"@[5] == '.',
        "sorth.find-file"@[6] == 'f',
        "sorth.find-file"@[7] == 'i',
        "sorth.find-file"@[8] == 'n',
        "sorth.find-file"@[9] == 'd',
        "sorth.find-file"@[10] == '-',
        "sorth.find-file"@[11] == 'f',
        "sorth.find-file"@[12] == 'i',
        "sorth.find-file"@[13] == 'l',
        "sorth.find-file"@[14] == 'e',
        "sorth.memory"@.len() == 12,
        "sorth.memory"@[0] == 's',
        "sorth.memory"@[1] == 'o',
        "sorth.memory"@[2] == 'r',
        "sorth.memory"@[3] == 't',
        "sorth.memory"@[4] == 'h',
        "sorth.memory"@[5] == '.',
        "sorth.memory"@[6] == 'm',
        "sorth.memory"@[7] == 'e',
        "sorth.memory"@[8] == 'm',
        "sorth.memory"@[9] == 'o',
        "sorth.memory"@[10] == 'r',
        "sorth.memory"@[11] == 'y',
        "term.is_printable?"@.len() == 18,
        "term.is_printable?"@[0] == 't',
        "term.is_printable?"@[1] == 'e',
        "term.is_printable?"@[2] == 'r',
        "term.is_printable?"@[3] == 'm',
        "term.is_printable?"@[4] == '.',
        "term.is_printable?"@[5] == 'i',
        "term.is_printable?"@[6] == 's',
        "term.is_printable?"@[7] == '_',
        "term.is_printable?"@[8] == 'p',
        "term.is_printable?"@[9] == 'r',
        "term.is_printable?"@[10] == 'i',
        "term.is_printable?"@[11] == 'n',
        "term.is_printable?"@[12] == 't',
        "term.is_printable?"@[13] == 'a',
        "term.is_printable?"@[14] == 'b',
        "term.is_printable?"@[15] == 'l',
        "term.is_printable?"@[16] == 'e',
        "term.is_printable?"@[17] == '?',
        "throw"@.len() == 5,
        "throw"@[0] == 't',
        "throw"@[1] == 'h',
        "throw"@[2] == 'r',
        "throw"@[3] == 'o',
        "throw"@[4] == 'w',
        "dup"@.len() == 3,
        "dup"@[0] == 'd',
        "dup"@[1] == 'u',
        "dup"@[2] == 'p',
        "drop"@.len() == 4,
        "drop"@[0] == 'd',
        "drop"@[1] == 'r',
        "drop"@[2] == 'o',
        "drop"@[3] == 'p',
        "swap"@.len() == 4,
        "swap"@[0] == 's',
        "swap"@[1] == 'w',
        "swap"@[2] == 'a',
        "swap"@[3] == 'p',
        "over"@.len() == 4,
        "over"@[0] == 'o',
        "over"@[1] == 'v',
        "over"@[2] == 'e',
        "over"@[3] == 'r',
        "rot"@.len() == 3,
        "rot"@[0] == 'r',
        "rot"@[1] == 'o',
        "rot"@[2] == 't',
        "stack.depth"@.len() == 11,
        "stack.depth"@[0] == 's',
        "stack.depth"@[1] == 't',
        "stack.depth"@[2] == 'a',
        "stack.depth"@[3] == 'c',
        "stack.depth"@[4] == 'k',
        "stack.depth"@[5] == '.',
        "stack.depth"@[6] == 'd',
        "stack.depth"@[7] == 'e',
        "stack.depth"@[8] == 'p',
        "stack.depth"@[9] == 't',
        "stack.depth"@[10] == 'h',
{
    reveal_strlit("sorth.search-path");
    reveal_strlit("sorth.find-file");
    reveal_strlit("sorth.memory");
    reveal_strlit("term.is_printable?");
    reveal_strlit("throw");
    reveal_strlit("dup");
    reveal_strlit("drop");
    reveal_strlit("swap");
    reveal_strlit("over");
    reveal_strlit("rot");
    reveal_strlit("stack.depth");
}

/// How the names of the tenth eleven words are spelled. The verifier looks
/// into a text only where it is told to.
proof fn lemma_names_spelled_10()
    ensures
        "pick"@.len() == 4,
        "pick"@[0] == 'p',
        "pick"@[1] == 'i',
        "pick"@[2] == 'c',
        "pick"@[3] == 'k',
        "push-to"@.len() == 7,
        "push-to"@[0] == 'p',
        "push-to"@[1] == 'u',
        "push-to"@[2] == 's',
        "push-to"@[3] == 'h',
        "push-to"@[4] == '-',
        "push-to"@[5] == 't',
        "push-to"@[6] == 'o',
        "hex"@.len() == 3,
        "hex"@[0] == 'h',
        "hex"@[1] == 'e',
        "hex"@[2] == 'x',
        "unique_str"@.len() == 10,
        "unique_str"@[0] == 'u',
        "unique_str"@[1] == 'n',
        "unique_str"@[2] == 'i',
        "unique_str"@[3] == 'q',
        "unique_str"@[4] == 'u',
        "unique_str"@[5] == 'e',
        "unique_str"@[6] == '_',
        "unique_str"@[7] == 's',
        "unique_str"@[8] == 't',
        "unique_str"@[9] == 'r',
        ":"@.len() == 1,
        ":"@[0] == ':',
        ";"@.len() == 1,
        ";"@[0] == ';',
        "immediate"@.len() == 9,
        "immediate"@[0] == 'i',
        "immediate"@[1] == 'm',
        "immediate"@[2] == 'm',
        "immediate"@[3] == 'e',
        "immediate"@[4] == 'd',
        "immediate"@[5] == 'i',
        "immediate"@[6] == 'a',
        "immediate"@[7] == 't',
        "immediate"@[8] == 'e',
        "hidden"@.len() == 6,
        "hidden"@[0] == 'h',
        "hidden"@[1] == 'i',
        "hidden"@[2] == 'd',
        "hidden"@[3] == 'd',
        "hidden"@[4] == 'e',
        "hidden"@[5] == 'n',
        "description:"@.len() == 12,
        "description:"@[0] == 'd',
        "description:"@[1] == 'e',
        "description:"@[2] == 's',
        "description:"@[3] == 'c',
        "description:"@[4] == 'r',
        "description:"@[5] == 'i',
        "description:"@[6] == 'p',
        "description:"@[7] == 't',
        "description:"@[8] == 'i',
        "description:"@[9] == 'o',
        "description:"@[10] == 'n',
        "description:"@[11] == ':',
        "signature:"@.len() == 10,
        "signature:"@[0] == 's',
        "signature:"@[1] == 'i',
        "signature:"@[2] == 'g',
        "signature:"@[3] == 'n',
        "signature:"@[4] == 'a',
        "signature:"@[5] == 't',
        "signature:"@[6] == 'u',
        "signature:"@[7] == 'r',
        "signature:"@[8] == 'e',
        "signature:"@[9] == ':',
        "word"@.len() == 4,
        "word"@[0] == 'w',
        "word"@[1] == 'o',
        "word"@[2] == 'r',
        "word"@[3] == 'd',
{
    reveal_strlit("pick");
    reveal_strlit("push-to");
    reveal_strlit("hex");
    reveal_strlit("unique_str");
    reveal_strlit(":");
    reveal_strlit(";");
    reveal_strlit("immediate");
    reveal_strlit("hidden");
    reveal_strlit("description:");
    reveal_strlit("signature:");
    reveal_strlit("word");
}

/// How the names of the eleventh eleven words are spelled. The verifier looks
/// into a text only where it is told to.
proof fn lemma_names_spelled_11()
    ensures
        "words.get{}"@.len() == 11,
        "words.get{}"@[0] == 'w',
        "words.get{}"@[1] == 'o',
        "words.get{}"@[2] == 'r',
        "words.get{}"@[3] == 'd',
        "words.get{}"@[4] == 's',
        "words.get{}"@[5] == '.',
        "words.get{}"@[6] == 'g',
        "words.get{}"@[7] == 'e',
        "words.get{}"@[8] == 't',
        "words.get{}"@[9] == '{',
        "words.get{}"@[10] == '}',
        "`"@.len() == 1,
        "`"@[0] == '`',
        "execute"@.len() == 7,
        "execute"@[0] == 'e',
        "execute"@[1] == 'x',
        "execute"@[2] == 'e',
        "execute"@[3] == 'c',
        "execute"@[4] == 'u',
        "execute"@[5] == 't',
        "execute"@[6] == 'e',
        "defined?"@.len() == 8,
        "defined?"@[0] == 'd',
        "defined?"@[1] == 'e',
        "defined?"@[2] == 'f',
        "defined?"@[3] == 'i',
        "defined?"@[4] == 'n',
        "defined?"@[5] == 'e',
        "defined?"@[6] == 'd',
        "defined?"@[7] == '?',
        "[defined?]"@.len() == 10,
        "[defined?]"@[0] == '[',
        "[defined?]"@[1] == 'd',
        "[defined?]"@[2] == 'e',
        "[defined?]"@[3] == 'f',
        "[defined?]"@[4] == 'i',
        "[defined?]"@[5] == 'n',
        "[defined?]"@[6] == 'e',
        "[defined?]"@[7] == 'd',
        "[defined?]"@[8] == '?',
        "[defined?]"@[9] == ']',
        "[undefined?]"@.len() == 12,
        "[undefined?]"@[0] == '[',
        "[undefined?]"@[1] == 'u',
        "[undefined?]"@[2] == 'n',
        "[undefined?]"@[3] == 'd',
        "[undefined?]"@[4] == 'e',
        "[undefined?]"@[5] == 'f',
        "[undefined?]"@[6] == 'i',
        "[undefined?]"@[7] == 'n',
        "[undefined?]"@[8] == 'e',
        "[undefined?]"@[9] == 'd',
        "[undefined?]"@[10] == '?',
        "[undefined?]"@[11] == ']',
        "ffi.load"@.len() == 8,
        "ffi.load"@[0] == 'f',
        "ffi.load"@[1] == 'f',
        "ffi.load"@[2] == 'i',
        "ffi.load"@[3] == '.',
        "ffi.load"@[4] == 'l',
        "ffi.load"@[5] == 'o',
        "ffi.load"@[6] == 'a',
        "ffi.load"@[7] == 'd',
        "ffi.fn"@.len() == 6,
        "ffi.fn"@[0] == 'f',
        "ffi.fn"@[1] == 'f',
        "ffi.fn"@[2] == 'i',
        "ffi.fn"@[3] == '.',
        "ffi.fn"@[4] == 'f',
        "ffi.fn"@[5] == 'n',
        "ffi.#"@.len() == 5,
        "ffi.#"@[0] == 'f',
        "ffi.#"@[1] == 'f',
        "ffi.#"@[2] == 'i',
        "ffi.#"@[3] == '.',
        "ffi.#"@[4] == '#',
        "ffi.[]"@.len() == 6,
        "ffi.[]"@[0] == 'f',
        "ffi.[]"@[1] == 'f',
        "ffi.[]"@[2] == 'i',
        "ffi.[]"@[3] == '.',
        "ffi.[]"@[4] == '[',
        "ffi.[]"@[5] == ']',
        "term.!"@.len() == 6,
        "term.!"@[0] == 't',
        "term.!"@[1] == 'e',
        "term.!"@[2] == 'r',
        "term.!"@[3] == 'm',
        "term.!"@[4] == '.',
        "term.!"@[5] == '!',
{
    reveal_strlit("words.get{}");
    reveal_strlit("`");
    reveal_strlit("execute");
    reveal_strlit("defined?");
    reveal_strlit("[defined?]");
    reveal_strlit("[undefined?]");
    reveal_strlit("ffi.load");
    reveal_strlit("ffi.fn");
    reveal_strlit("ffi.#");
    reveal_strlit("ffi.[]");
    reveal_strlit("term.!");
}

/// No two words that are built in have the same name.
#[verifier::spinoff_prover]
#[verifier::rlimit(100)]
pub proof fn lemma_native_names_differ(a: NativeWord, b: NativeWord)
    ensures
        native_name(a) == native_name(b) ==> a == b,
{
    lemma_names_spelled_1();
    lemma_names_spelled_2();
    lemma_names_spelled_3();
    lemma_names_spelled_4();
    lemma_names_spelled_5();
    lemma_names_spelled_6();
    lemma_names_spelled_7();
    lemma_names_spelled_8();
    lemma_names_spelled_9();
    lemma_names_spelled_10();
    lemma_names_spelled_11();
}

/// No word that is built in has the notation of an integer as its name.
#[verifier::spinoff_prover]
#[verifier::rlimit(100)]
pub proof fn lemma_number_is_no_word(value: int, word: NativeWord)
    ensures
        native_name(word) != int_text(value),
{
    lemma_int_text_first(value);
    lemma_names_spelled_1();
    lemma_names_spelled_2();
    lemma_names_spelled_3();
    lemma_names_spelled_4();
    lemma_names_spelled_5();
    lemma_names_spelled_6();
    lemma_names_spelled_7();
    lemma_names_spelled_8();
    lemma_names_spelled_9();
    lemma_names_spelled_10();
    lemma_names_spelled_11();
}

} // verus!
