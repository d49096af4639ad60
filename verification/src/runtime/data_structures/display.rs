//! The texts of values, of code and of the dictionary.

use vstd::prelude::*;
use vstd::string::StringExecFns;
use crate::lang::code::ByteCode;
use crate::lang::code::Instruction;
use crate::lang::code::Op;
use crate::lang::tokenizing::NumberType;
use crate::lang::tokenizing::Token;
use crate::runtime::built_ins::base_words::math_logic_and_bit_words::compare_texts;
use crate::runtime::built_ins::base_words::math_logic_and_bit_words::text_comparison;
use crate::runtime::built_ins::base_words::math_logic_and_bit_words::Comparison;
use crate::runtime::data_structures::byte_buffer::Buffer;
use crate::runtime::data_structures::byte_buffer::ByteBuffer;
use crate::runtime::data_structures::dictionary::merged;
use crate::runtime::data_structures::dictionary::Dictionary;
use crate::runtime::data_structures::dictionary::WordInfoView;
use crate::runtime::data_structures::dictionary::WordRuntime;
use crate::runtime::data_structures::dictionary::WordVisibility;
use crate::runtime::data_structures::heap::Heap;
use crate::runtime::data_structures::value::value_format_indent;
use crate::runtime::data_structures::value::value_format_indent_inc;
use crate::runtime::data_structures::value::Value;
use crate::runtime::data_structures::value::ValueView;
use crate::runtime::host::Host;
use crate::text::char_of_digit;
use crate::lang::code::code_view;
use crate::lang::code::InstructionView;
use crate::lang::code::OpView;
use crate::runtime::data_structures::value::stringified;
use crate::text::digit_char;
use crate::text::nat_digits;
use crate::text::int_text;
use crate::text::int_to_string;
use crate::text::nat_to_chars;
use crate::text::push_char;
use crate::text::string_of;

verus! {

/// Puts spaces at the end of a text.
fn push_spaces(text: &mut String, count: usize)
    ensures
        final(text)@ == old(text)@ + Seq::new(count as nat, |i: int| ' '),
{
    let mut k: usize = 0;
    assert(text@ =~= old(text)@ + Seq::new(0, |i: int| ' '));
    while k < count
        invariant
            k <= count,
            text@ == old(text)@ + Seq::new(k as nat, |i: int| ' '),
        decreases count - k,
    {
        push_char(text, ' ');
        k += 1;
        assert(text@ =~= old(text)@ + Seq::new(k as nat, |i: int| ' '));
    }
}

/// The given number of spaces.
pub open spec fn spaces(count: nat) -> Seq<char> {
    Seq::new(count, |i: int| ' ')
}

/// The decimal notation of a number with spaces before it up to the given
/// width.
pub open spec fn padded(value: nat, width: nat) -> Seq<char> {
    if nat_digits(value, 10).len() < width {
        spaces((width - nat_digits(value, 10).len()) as nat) + nat_digits(value, 10)
    } else {
        nat_digits(value, 10)
    }
}

/// A number with spaces before it up to the given width.
fn padded_number(value: usize, width: usize) -> (r: String)
    ensures
        r@ == padded(value as nat, width as nat),
{
    let digits = nat_to_chars(value as u64, 10);
    let mut out = String::new();
    if digits.len() < width {
        push_spaces(&mut out, width - digits.len());
    }
    out.append(string_of(&digits).as_str());
    assert(out@ =~= padded(value as nat, width as nat));
    out
}

/// The text of what a token holds, unless it is a floating point number,
/// whose notation the host gives.
pub open spec fn token_view_text(token: crate::lang::tokenizing::TokenView) -> Option<Seq<char>> {
    match token {
        crate::lang::tokenizing::TokenView::Number(_, NumberType::Int(i)) => Some(
            int_text(i as int),
        ),
        crate::lang::tokenizing::TokenView::Number(_, NumberType::Float(_)) => None,
        crate::lang::tokenizing::TokenView::String(_, text) => Some(text),
        crate::lang::tokenizing::TokenView::Word(_, text) => Some(text),
    }
}

/// The text of a token: the notation of a number, or the text of a string
/// or a word.
pub fn token_text<H: Host>(host: &H, token: &Token) -> (r: String)
    ensures
        match token@ {
            crate::lang::tokenizing::TokenView::Number(_, NumberType::Int(i)) => r@ == int_text(
                i as int,
            ),
            crate::lang::tokenizing::TokenView::String(_, text) => r@ == text,
            crate::lang::tokenizing::TokenView::Word(_, text) => r@ == text,
            _ => true,
        },
        match token_view_text(token@) {
            Some(text) => r@ == text,
            None => true,
        },
{
    match token {
        Token::Number(_, NumberType::Int(value)) => int_to_string(*value),
        Token::Number(_, NumberType::Float(bits)) => host.float_to_string(*bits),
        Token::String(_, text) => text.clone(),
        Token::Word(_, text) => text.clone(),
    }
}

/// The number of the bytes on the line of a dump that starts at the given
/// offset: sixteen, or as many as are left.
pub open spec fn line_count(bytes: Seq<u8>, offset: int) -> int {
    if bytes.len() - offset < 16 {
        bytes.len() - offset
    } else {
        16
    }
}

/// The offset of a line of a dump: eight hexadecimal digits.
pub open spec fn hex_offset(offset: nat) -> Seq<char> {
    if nat_digits(offset, 16).len() < 8 {
        Seq::new((8 - nat_digits(offset, 16).len()) as nat, |i: int| '0') + nat_digits(offset, 16)
    } else {
        nat_digits(offset, 16)
    }
}

/// The first `cells` of the sixteen cells of a line of a dump that show the
/// bytes in hexadecimal: two digits and a space for a byte, three spaces
/// where the line has no byte, and one more space before the ninth cell.
pub open spec fn hex_cells(bytes: Seq<u8>, offset: int, cells: int) -> Seq<char>
    decreases cells,
{
    if cells <= 0 {
        Seq::empty()
    } else {
        let index = cells - 1;
        hex_cells(bytes, offset, cells - 1) + if index == 8 {
            " "@
        } else {
            Seq::<char>::empty()
        } + if index < line_count(bytes, offset) {
            seq![
                digit_char(bytes[offset + index] as int / 16),
                digit_char(bytes[offset + index] as int % 16),
                ' ',
            ]
        } else {
            "   "@
        }
    }
}

/// The first `cells` of the sixteen cells of a line of a dump that show the
/// bytes as characters: the character of a byte that is a printable one, a
/// dot for any other byte, and a space where the line has no byte.
pub open spec fn char_cells(bytes: Seq<u8>, offset: int, cells: int) -> Seq<char>
    decreases cells,
{
    if cells <= 0 {
        Seq::empty()
    } else {
        let index = cells - 1;
        char_cells(bytes, offset, cells - 1).push(
            if index < line_count(bytes, offset) {
                if 32 <= bytes[offset + index] < 127 {
                    bytes[offset + index] as char
                } else {
                    '.'
                }
            } else {
                ' '
            },
        )
    }
}

/// The line of a dump that starts at the given offset.
pub open spec fn dump_line(bytes: Seq<u8>, offset: int) -> Seq<char> {
    hex_offset(offset as nat) + "  "@ + hex_cells(bytes, offset, 16) + " | "@ + char_cells(
        bytes,
        offset,
        16,
    ) + " |\n"@
}

/// The first `lines` lines of a dump, each of which starts sixteen bytes
/// after the one before it.
pub open spec fn dump_lines(bytes: Seq<u8>, lines: int) -> Seq<char>
    decreases lines,
{
    if lines <= 0 {
        Seq::empty()
    } else {
        dump_lines(bytes, lines - 1) + dump_line(bytes, (lines - 1) * 16)
    }
}

/// The dump of bytes: the heading, and a line for every sixteen bytes or
/// part of them.
pub open spec fn dump(bytes: Seq<u8>) -> Seq<char> {
    "          00 01 02 03 04 05 06 07  08 09 0a 0b 0c 0d 0e 0f  | 0123456789abcdef |\n"@
        + dump_lines(bytes, (bytes.len() as int + 15) / 16)
}

/// The text of a byte buffer: a heading, and then the bytes in lines of
/// sixteen, each line with its offset, the bytes in hexadecimal and the bytes
/// as characters, a dot standing for a byte that is no printable character.
#[verifier::spinoff_prover]
#[verifier::rlimit(50)]
pub fn buffer_text(buffer: &ByteBuffer) -> (r: String)
    ensures
        r@ == dump(buffer.spec_bytes()),
{
    let bytes = buffer.bytes();
    let mut out = String::from_str(
        "          00 01 02 03 04 05 06 07  08 09 0a 0b 0c 0d 0e 0f  | 0123456789abcdef |\n",
    );
    let ghost head = out@;
    let ghost mut line: int = 0;
    let mut offset: usize = 0;
    assert(out@ =~= head + dump_lines(bytes@, 0));
    while offset < bytes.len()
        invariant
            offset <= bytes@.len(),
            0 <= line,
            offset == if line * 16 <= bytes@.len() {
                line * 16
            } else {
                bytes@.len() as int
            },
            line <= (bytes@.len() as int + 15) / 16,
            out@ == head + dump_lines(bytes@, line),
        decreases bytes@.len() - offset,
    {
        let ghost before = out@;
        let left = bytes.len() - offset;
        let count: usize = if left < 16 {
            left
        } else {
            16
        };
        let digits = nat_to_chars(offset as u64, 16);
        if digits.len() < 8 {
            let mut zeros: usize = digits.len();
            assert(out@ =~= before + Seq::new(0, |i: int| '0'));
            while zeros < 8
                invariant
                    digits@.len() <= zeros <= 8,
                    out@ == before + Seq::new((zeros - digits@.len()) as nat, |i: int| '0'),
                decreases 8 - zeros,
            {
                push_char(&mut out, '0');
                zeros += 1;
                assert(out@ =~= before + Seq::new((zeros - digits@.len()) as nat, |i: int| '0'));
            }
        }
        out.append(string_of(&digits).as_str());
        out.append("  ");
        let ghost started = out@;
        assert(started =~= before + hex_offset(offset as nat) + "  "@);
        let mut index: usize = 0;
        assert(out@ =~= started + hex_cells(bytes@, offset as int, 0));
        while index < 16
            invariant
                index <= 16,
                count <= 16,
                offset + count <= bytes.len(),
                count == line_count(bytes@, offset as int),
                out@ == started + hex_cells(bytes@, offset as int, index as int),
            decreases 16 - index,
        {
            let ghost had = out@;
            if index == 8 {
                push_char(&mut out, ' ');
            }
            if index < count {
                let byte = bytes[offset + index];
                push_char(&mut out, char_of_digit(byte / 16));
                push_char(&mut out, char_of_digit(byte % 16));
                push_char(&mut out, ' ');
            } else {
                out.append("   ");
            }
            proof {
                reveal_strlit(" ");
                let gap = if index == 8 {
                    " "@
                } else {
                    Seq::<char>::empty()
                };
                let cell = if (index as int) < line_count(bytes@, offset as int) {
                    seq![
                        digit_char(bytes@[offset + index] as int / 16),
                        digit_char(bytes@[offset + index] as int % 16),
                        ' ',
                    ]
                } else {
                    "   "@
                };
                assert(out@ =~= had + gap + cell);
            }
            index += 1;
        }
        out.append(" | ");
        let ghost middle = out@;
        let mut index: usize = 0;
        assert(out@ =~= middle + char_cells(bytes@, offset as int, 0));
        while index < 16
            invariant
                index <= 16,
                count <= 16,
                offset + count <= bytes.len(),
                count == line_count(bytes@, offset as int),
                out@ == middle + char_cells(bytes@, offset as int, index as int),
            decreases 16 - index,
        {
            let ghost had = out@;
            if index < count {
                let byte = bytes[offset + index];
                if 32 <= byte && byte < 127 {
                    push_char(&mut out, byte as char);
                } else {
                    push_char(&mut out, '.');
                }
            } else {
                push_char(&mut out, ' ');
            }
            index += 1;
            assert(out@ =~= middle + char_cells(bytes@, offset as int, index as int));
        }
        out.append(" |\n");
        proof {
            assert(offset == line * 16);
            assert(out@ =~= before + dump_line(bytes@, offset as int));
            line = line + 1;
        }
        offset = offset + count;
    }
    out
}

/// The text of a value that is no container, no token and no code, unless
/// it is a floating point number, whose notation the host gives.
pub open spec fn plain_text(value: ValueView) -> Option<Seq<char>> {
    match value {
        ValueView::Nil => Some("none"@),
        ValueView::Int(i) => Some(int_text(i as int)),
        ValueView::Bool(b) => Some(
            if b {
                "true"@
            } else {
                "false"@
            },
        ),
        ValueView::String(text) => Some(text),
        _ => None,
    }
}

/// The text of such a value as it stands inside of a container: a string is
/// written as a literal.
pub open spec fn quoted(value: ValueView) -> Option<Seq<char>> {
    match value {
        ValueView::String(text) => Some(stringified(text)),
        other => plain_text(other),
    }
}

/// The width of the indent at a level of nesting.
pub open spec fn indent_width(level: usize) -> nat {
    if level * 4 <= usize::MAX {
        (level * 4) as nat
    } else {
        usize::MAX as nat
    }
}

/// The first `count` lines of the entries of a container: on each line the
/// indent, the name, an arrow, the value and, but after the last value, a
/// comma. There is no such text where the text of a value is the host's or
/// that of a container.
pub open spec fn entry_lines(
    names: Seq<String>,
    values: Seq<Value>,
    level: usize,
    count: int,
) -> Option<Seq<char>>
    decreases count,
{
    if count <= 0 || count > values.len() || count > names.len() {
        Some(Seq::empty())
    } else {
        match (entry_lines(names, values, level, count - 1), quoted(values[count - 1]@)) {
            (Some(before), Some(text)) => Some(
                before + spaces(indent_width(level)) + names[count - 1]@ + " -> "@ + text + " "@
                    + if count < values.len() {
                    ","@
                } else {
                    Seq::<char>::empty()
                } + "\n"@,
            ),
            _ => None,
        }
    }
}

/// The texts of the given values, one after the other: `name -> value`
/// lines for the entries of a hash map or the fields of a data object.
fn lines_text<H: Host>(
    host: &H,
    heap: &Heap,
    names: &Vec<String>,
    values: &Vec<Value>,
    level: usize,
    depth: usize,
) -> (r: String)
    ensures
        ({
            let count = if values@.len() < names@.len() {
                values@.len() as int
            } else {
                names@.len() as int
            };
            match entry_lines(names@, values@, level, count) {
                Some(text) => r@ == text,
                None => true,
            }
        }),
    decreases depth, 4int,
{
    let mut out = String::new();
    let indent = value_format_indent(level);
    let mut index: usize = 0;
    while index < values.len() && index < names.len()
        invariant
            index <= values@.len(),
            index <= names@.len(),
            indent == indent_width(level),
            match entry_lines(names@, values@, level, index as int) {
                Some(text) => out@ == text,
                None => true,
            },
        decreases values@.len() - index,
    {
        let ghost before = out@;
        push_spaces(&mut out, indent);
        out.append(names[index].as_str());
        out.append(" -> ");
        let text = quoted_text(host, heap, &values[index], level, depth);
        out.append(text.as_str());
        out.append(" ");
        if index + 1 < values.len() {
            out.append(",");
        }
        out.append("\n");
        index += 1;
        proof {
            if entry_lines(names@, values@, level, index as int) is Some {
                let comma = if (index as int) < values@.len() {
                    ","@
                } else {
                    Seq::<char>::empty()
                };
                assert(out@ =~= before + spaces(indent_width(level)) + names@[index - 1]@
                    + " -> "@ + text@ + " "@ + comma + "\n"@);
            }
        }
    }
    out
}

/// The text of a value as it stands inside of a container: a string is
/// written as a literal.
fn quoted_text<H: Host>(host: &H, heap: &Heap, value: &Value, level: usize, depth: usize) -> (r:
    String)
    ensures
        match quoted(value@) {
            Some(text) => r@ == text,
            None => true,
        },
    decreases depth, 3int,
{
    match value {
        Value::String(text) => Value::stringify(text),
        other => value_text(host, heap, other, level, depth),
    }
}

/// The text of a value.
///
/// `Nil` is `none`, a number its notation, a boolean `true` or `false`, and
/// a string or a token its text. An array stands between brackets, its values
/// set apart by commas. A hash map and a data object stand on lines of their
/// own, one for each entry or field, indented by four spaces for each level
/// of nesting. A byte buffer is shown as a dump of its bytes, and code as a
/// listing of its instructions. A container that is nested deeper than
/// `depth` allows is shown as three dots.
pub fn value_text<H: Host>(host: &H, heap: &Heap, value: &Value, level: usize, depth: usize) -> (r:
    String)
    ensures
        match value@ {
            ValueView::Nil => r@ == "none"@,
            ValueView::Int(i) => r@ == int_text(i as int),
            ValueView::Bool(b) => r@ == if b {
                "true"@
            } else {
                "false"@
            },
            ValueView::String(text) => r@ == text,
            _ => true,
        },
        match plain_text(value@) {
            Some(text) => r@ == text,
            None => true,
        },
    decreases depth, 2int,
{
    match value {
        Value::Nil => String::from_str("none"),
        Value::Int(number) => int_to_string(*number),
        Value::Float(bits) => host.float_to_string(*bits),
        Value::Bool(flag) => if *flag {
            String::from_str("true")
        } else {
            String::from_str("false")
        },
        Value::String(text) => text.clone(),
        Value::Token(token) => token_text(host, token),
        Value::Code(code) => pretty_print_code(host, heap, code),
        Value::ByteBuffer(handle) => match heap.buffer(*handle) {
            Some(buffer) => buffer_text(buffer),
            None => String::from_str("<unknown buffer>"),
        },
        Value::Vec(handle) => {
            if depth == 0 {
                return String::from_str("...");
            }
            let items = match heap.vec(*handle) {
                Some(array) => array.to_vec(),
                None => {
                    return String::from_str("<unknown array>");
                },
            };
            let mut out = String::from_str("[ ");
            let mut index: usize = 0;
            while index < items.len()
                invariant
                    index <= items@.len(),
                    depth > 0,
                decreases items@.len() - index,
            {
                out.append(quoted_text(host, heap, &items[index], level, depth - 1).as_str());
                if index + 1 < items.len() {
                    out.append(", ");
                } else {
                    out.append(" ");
                }
                index += 1;
            }
            out.append("]");
            out
        },
        Value::HashMap(handle) => {
            if depth == 0 {
                return String::from_str("...");
            }
            let entries = match heap.hash(*handle) {
                Some(table) => table.iter(),
                None => {
                    return String::from_str("<unknown hash table>");
                },
            };
            let inner = value_format_indent_inc(level);
            let mut names: Vec<String> = Vec::new();
            let mut values: Vec<Value> = Vec::new();
            let mut index: usize = 0;
            while index < entries.len()
                invariant
                    index <= entries@.len(),
                    depth > 0,
                decreases entries@.len() - index,
            {
                names.push(quoted_text(host, heap, &entries[index].0, inner, depth - 1));
                values.push(crate::runtime::data_structures::value::clone_value(&entries[index].1));
                index += 1;
            }
            let mut out = String::from_str("{\n");
            out.append(lines_text(host, heap, &names, &values, inner, depth - 1).as_str());
            push_spaces(&mut out, value_format_indent(level));
            out.append("}");
            out
        },
        Value::DataObject(handle) => {
            if depth == 0 {
                return String::from_str("...");
            }
            let object = match heap.object(*handle) {
                Some(object) => object,
                None => {
                    return String::from_str("<unknown structure>");
                },
            };
            let inner = value_format_indent_inc(level);
            let mut out = String::from_str("# ");
            out.append(object.definition_ptr.name().as_str());
            out.append("\n");
            out.append(
                lines_text(
                    host,
                    heap,
                    object.definition_ptr.field_names(),
                    &object.fields,
                    inner,
                    depth - 1,
                ).as_str(),
            );
            push_spaces(&mut out, value_format_indent(level));
            out.append(";");
            out
        },
    }
}

/// The text of an operand of an instruction, unless it is or holds a
/// floating point number, whose notation the host gives. A string is written
/// as a literal where `literal` says so, code is shown by the number of its
/// instructions, and a container by its kind.
pub open spec fn operand_view_text(value: ValueView, literal: bool) -> Option<Seq<char>> {
    match value {
        ValueView::String(text) => Some(
            if literal {
                stringified(text)
            } else {
                text
            },
        ),
        ValueView::Code(code) => Some(
            "<code of "@ + padded(code.len(), 0) + " instructions>"@,
        ),
        ValueView::Nil => Some("none"@),
        ValueView::Int(i) => Some(int_text(i as int)),
        ValueView::Float(_) => None,
        ValueView::Bool(b) => Some(
            if b {
                "true"@
            } else {
                "false"@
            },
        ),
        ValueView::Token(token) => token_view_text(token),
        ValueView::Vec(_) => Some("<array>"@),
        ValueView::HashMap(_) => Some("<hash table>"@),
        ValueView::DataObject(_) => Some("<structure>"@),
        ValueView::ByteBuffer(_) => Some("<buffer>"@),
    }
}

/// The name of an operation as a listing shows it: in a column of eighteen
/// characters where the operation has an operand.
pub open spec fn op_name(op: OpView) -> Seq<char> {
    match op {
        OpView::DefVariable(_) => "DefVariable       "@,
        OpView::DefConstant(_) => "DefConstant       "@,
        OpView::ReadVariable => "ReadVariable"@,
        OpView::WriteVariable => "WriteVariable"@,
        OpView::Execute(_) => "Execute           "@,
        OpView::PushConstantValue(_) => "PushConstantValue "@,
        OpView::MarkLoopExit(_) => "MarkLoopExit      "@,
        OpView::UnmarkLoopExit => "UnmarkLoopExit"@,
        OpView::MarkCatch(_) => "MarkCatch         "@,
        OpView::UnmarkCatch => "UnmarkCatch"@,
        OpView::MarkContext => "MarkContext"@,
        OpView::ReleaseContext => "ReleaseContext"@,
        OpView::Jump(_) => "Jump              "@,
        OpView::JumpIfZero(_) => "JumpIfZero        "@,
        OpView::JumpIfNotZero(_) => "JumpIfNotZero     "@,
        OpView::JumpLoopStart => "JumpLoopStart"@,
        OpView::JumpLoopExit => "JumpLoopExit"@,
        OpView::JumpTarget(_) => "JumpTarget        "@,
    }
}

/// The operand of an operation that a listing shows, and whether it is
/// shown as a literal: none for an operation without one, and none for a
/// `JumpTarget` that has lost its label.
pub open spec fn shown_operand(op: OpView) -> Option<(ValueView, bool)> {
    match op {
        OpView::DefVariable(v) => Some((v, false)),
        OpView::DefConstant(v) => Some((v, false)),
        OpView::Execute(v) => Some((v, false)),
        OpView::PushConstantValue(v) => Some((v, true)),
        OpView::MarkLoopExit(v) => Some((v, false)),
        OpView::MarkCatch(v) => Some((v, false)),
        OpView::Jump(v) => Some((v, false)),
        OpView::JumpIfZero(v) => Some((v, false)),
        OpView::JumpIfNotZero(v) => Some((v, false)),
        OpView::JumpTarget(v) => if v is Nil {
            None
        } else {
            Some((v, false))
        },
        _ => None,
    }
}

/// The text of an instruction in a listing: the name of its operation and
/// the operand that is shown, unless the text of the operand is the host's.
pub open spec fn instruction_view_text(instruction: InstructionView) -> Option<Seq<char>> {
    match shown_operand(instruction.op) {
        Some((operand, literal)) => match operand_view_text(operand, literal) {
            Some(text) => Some(op_name(instruction.op) + text),
            None => None,
        },
        None => Some(op_name(instruction.op)),
    }
}

/// The first `count` lines of the listing of a block of code: on each line
/// the index of the instruction in a column of four characters, a colon and
/// the text of the instruction. There is no such text where the text of an
/// instruction is the host's.
pub open spec fn listing(code: Seq<InstructionView>, count: int) -> Option<Seq<char>>
    decreases count,
{
    if count <= 0 || count > code.len() {
        Some(Seq::empty())
    } else {
        match (listing(code, count - 1), instruction_view_text(code[count - 1])) {
            (Some(before), Some(text)) => Some(
                before + padded((count - 1) as nat, 4) + ": "@ + text + "\n"@,
            ),
            _ => None,
        }
    }
}

/// The text of an operand of an instruction. Containers are shown by their
/// kind only.
fn operand_text<H: Host>(host: &H, heap: &Heap, value: &Value, literal: bool) -> (r: String)
    ensures
        match operand_view_text(value@, literal) {
            Some(text) => r@ == text,
            None => true,
        },
{
    match value {
        Value::String(text) => if literal {
            Value::stringify(text)
        } else {
            text.clone()
        },
        Value::Code(code) => {
            let mut out = String::from_str("<code of ");
            out.append(padded_number(code.len(), 0).as_str());
            out.append(" instructions>");
            assert(code_view(code@).len() == code@.len());
            out
        },
        Value::Nil => String::from_str("none"),
        Value::Int(number) => int_to_string(*number),
        Value::Float(bits) => host.float_to_string(*bits),
        Value::Bool(flag) => if *flag {
            String::from_str("true")
        } else {
            String::from_str("false")
        },
        Value::Token(token) => token_text(host, token),
        Value::Vec(_) => String::from_str("<array>"),
        Value::HashMap(_) => String::from_str("<hash table>"),
        Value::DataObject(_) => String::from_str("<structure>"),
        Value::ByteBuffer(_) => String::from_str("<buffer>"),
    }
}

/// The text of an instruction: the name of its operation, in a column of
/// eighteen characters where an operand follows, and the operand.
pub fn instruction_text<H: Host>(host: &H, heap: &Heap, instruction: &Instruction) -> (r: String)
    ensures
        match instruction_view_text(instruction@) {
            Some(text) => r@ == text,
            None => true,
        },
{
    match &instruction.op {
        Op::DefVariable(value) => crate::text::concat(
            "DefVariable       ",
            operand_text(host, heap, value, false).as_str(),
        ),
        Op::DefConstant(value) => crate::text::concat(
            "DefConstant       ",
            operand_text(host, heap, value, false).as_str(),
        ),
        Op::ReadVariable => String::from_str("ReadVariable"),
        Op::WriteVariable => String::from_str("WriteVariable"),
        Op::Execute(value) => crate::text::concat(
            "Execute           ",
            operand_text(host, heap, value, false).as_str(),
        ),
        Op::PushConstantValue(value) => crate::text::concat(
            "PushConstantValue ",
            operand_text(host, heap, value, true).as_str(),
        ),
        Op::MarkLoopExit(value) => crate::text::concat(
            "MarkLoopExit      ",
            operand_text(host, heap, value, false).as_str(),
        ),
        Op::UnmarkLoopExit => String::from_str("UnmarkLoopExit"),
        Op::MarkCatch(value) => crate::text::concat(
            "MarkCatch         ",
            operand_text(host, heap, value, false).as_str(),
        ),
        Op::UnmarkCatch => String::from_str("UnmarkCatch"),
        Op::MarkContext => String::from_str("MarkContext"),
        Op::ReleaseContext => String::from_str("ReleaseContext"),
        Op::Jump(value) => crate::text::concat(
            "Jump              ",
            operand_text(host, heap, value, false).as_str(),
        ),
        Op::JumpIfZero(value) => crate::text::concat(
            "JumpIfZero        ",
            operand_text(host, heap, value, false).as_str(),
        ),
        Op::JumpIfNotZero(value) => crate::text::concat(
            "JumpIfNotZero     ",
            operand_text(host, heap, value, false).as_str(),
        ),
        Op::JumpLoopStart => String::from_str("JumpLoopStart"),
        Op::JumpLoopExit => String::from_str("JumpLoopExit"),
        Op::JumpTarget(value) => match value {
            Value::Nil => String::from_str("JumpTarget        "),
            other => crate::text::concat(
                "JumpTarget        ",
                operand_text(host, heap, other, false).as_str(),
            ),
        },
    }
}

/// The listing of a block of code: one line for each instruction, with its
/// index in a column of four characters.
pub fn pretty_print_code<H: Host>(host: &H, heap: &Heap, code: &ByteCode) -> (r: String)
    ensures
        match listing(code_view(code@), code@.len() as int) {
            Some(text) => r@ == text,
            None => true,
        },
{
    let mut result = String::new();
    let mut index: usize = 0;
    let ghost views = code_view(code@);
    assert(views.len() == code@.len());
    while index < code.len()
        invariant
            index <= code@.len(),
            views == code_view(code@),
            views.len() == code@.len(),
            match listing(views, index as int) {
                Some(text) => result@ == text,
                None => true,
            },
        decreases code@.len() - index,
    {
        let ghost before = result@;
        let number = padded_number(index, 4);
        result.append(number.as_str());
        result.append(": ");
        let text = instruction_text(host, heap, &code[index]);
        result.append(text.as_str());
        result.append("\n");
        proof {
            assert(views[index as int] == code@[index as int]@);
            if listing(views, index as int + 1) is Some {
                assert(result@ =~= before + padded(index as nat, 4) + ": "@ + text@ + "\n"@);
            }
        }
        index += 1;
    }
    result
}

/// Whether the texts stand in the order of their characters: none comes
/// after a text that follows it.
pub open spec fn in_order(names: Seq<String>) -> bool {
    forall|a: int, b: int|
        0 <= a < b < names.len() ==> compare_texts((#[trigger] names[a])@, (#[trigger] names[b])@)
            != Comparison::Greater
}

/// Two texts compare one way round as they do the other way round.
pub proof fn lemma_compare_flip(a: Seq<char>, b: Seq<char>)
    ensures
        compare_texts(a, b) == Comparison::Less <==> compare_texts(b, a) == Comparison::Greater,
        compare_texts(a, b) == Comparison::Equal <==> compare_texts(b, a) == Comparison::Equal,
    decreases a.len(),
{
    if a.len() > 0 && b.len() > 0 && a[0] == b[0] {
        lemma_compare_flip(a.skip(1), b.skip(1));
    }
}

/// A text that does not come after a second one, which does not come after a
/// third one, does not come after the third one.
pub proof fn lemma_compare_chain(a: Seq<char>, b: Seq<char>, c: Seq<char>)
    requires
        compare_texts(a, b) != Comparison::Greater,
        compare_texts(b, c) != Comparison::Greater,
    ensures
        compare_texts(a, c) != Comparison::Greater,
    decreases a.len(),
{
    if a.len() > 0 && b.len() > 0 && c.len() > 0 && a[0] == b[0] && b[0] == c[0] {
        lemma_compare_chain(a.skip(1), b.skip(1), c.skip(1));
    }
}

/// A sequence with one more value holds that value once more, and all else
/// as often as before.
pub proof fn lemma_insert_to_multiset(names: Seq<String>, place: int, name: String)
    requires
        0 <= place <= names.len(),
    ensures
        names.insert(place, name).to_multiset() =~= names.to_multiset().insert(name),
{
    let longer = names.insert(place, name);
    assert(longer.remove(place) =~= names);
    vstd::seq_lib::to_multiset_remove(longer, place);
    longer.to_multiset_ensures();
    assert(longer.contains(name)) by {
        assert(longer[place] == name);
    }
    assert(longer.to_multiset().count(name) > 0);
    assert(longer.to_multiset() =~= longer.to_multiset().remove(name).insert(name));
}

/// The names in the order of their characters.
fn sorted_names(names: Vec<String>) -> (r: Vec<String>)
    ensures
        r@.len() == names@.len(),
        r@.to_multiset() =~= names@.to_multiset(),
        in_order(r@),
{
    let mut sorted: Vec<String> = Vec::new();
    let mut rest = names;
    proof {
        assert(sorted@.to_multiset() =~= vstd::multiset::Multiset::<String>::empty()) by {
            sorted@.to_multiset_ensures();
        }
    }
    while rest.len() > 0
        invariant
            sorted@.len() + rest@.len() == names@.len(),
            sorted@.to_multiset().add(rest@.to_multiset()) =~= names@.to_multiset(),
            in_order(sorted@),
        decreases rest@.len(),
    {
        let ghost left = rest@;
        let ghost done = sorted@;
        let name = rest.remove(0);
        let mut place: usize = 0;
        while place < sorted.len() && text_comparison(&sorted[place], &name) == Comparison::Less
            invariant
                place <= sorted@.len(),
                sorted@ == done,
                forall|a: int|
                    0 <= a < place ==> compare_texts((#[trigger] sorted@[a])@, name@)
                        == Comparison::Less,
            decreases sorted@.len() - place,
        {
            place += 1;
        }
        sorted.insert(place, name);
        proof {
            vstd::seq_lib::to_multiset_remove(left, 0);
            left.to_multiset_ensures();
            lemma_insert_to_multiset(done, place as int, name);
            assert(left.to_multiset().count(name) > 0) by {
                assert(left.contains(name)) by {
                    assert(left[0] == name);
                }
            }
            assert(left.to_multiset() =~= rest@.to_multiset().insert(name));
            assert(sorted@.to_multiset().add(rest@.to_multiset()) =~= done.to_multiset().add(
                left.to_multiset(),
            ));
            assert forall|a: int, b: int| 0 <= a < b < sorted@.len() implies compare_texts(
                (#[trigger] sorted@[a])@,
                (#[trigger] sorted@[b])@,
            ) != Comparison::Greater by {
                if b < place {
                    assert(sorted@[a] == done[a] && sorted@[b] == done[b]);
                } else if b == place {
                    assert(sorted@[a] == done[a]);
                } else if a < place {
                    assert(sorted@[a] == done[a] && sorted@[b] == done[b - 1]);
                } else if a == place {
                    // The name does not come after the text that stood at its
                    // place, nor after any text behind that one.
                    assert(sorted@[b] == done[b - 1]);
                    lemma_compare_flip(done[place as int]@, name@);
                    if b - 1 > place {
                        lemma_compare_chain(name@, done[place as int]@, done[b - 1]@);
                    }
                } else {
                    assert(sorted@[a] == done[a - 1] && sorted@[b] == done[b - 1]);
                }
            }
        }
    }
    proof {
        assert(rest@.to_multiset() =~= vstd::multiset::Multiset::<String>::empty()) by {
            rest@.to_multiset_ensures();
        }
    }
    sorted
}

/// Whether the word of the given name is one that a listing shows.
pub open spec fn is_shown(words: Map<Seq<char>, WordInfoView>, name: Seq<char>) -> bool {
    words.contains_key(name) && words[name].visibility == WordVisibility::Visible
}

/// The number of the words among the first `count` names that a listing
/// shows.
pub open spec fn shown_count(
    words: Map<Seq<char>, WordInfoView>,
    names: Seq<String>,
    count: int,
) -> nat
    decreases count,
{
    if count <= 0 || count > names.len() {
        0
    } else if is_shown(words, names[count - 1]@) {
        shown_count(words, names, count - 1) + 1
    } else {
        shown_count(words, names, count - 1)
    }
}

/// The length of the longest of the first `count` names.
pub open spec fn widest(names: Seq<String>, count: int) -> nat
    decreases count,
{
    if count <= 0 || count > names.len() {
        0
    } else if widest(names, count - 1) < names[count - 1]@.len() {
        names[count - 1]@.len()
    } else {
        widest(names, count - 1)
    }
}

/// The line of a word in a listing: its name in a column of the given
/// width, the index of its handler in a column of six characters, whether the
/// word is immediate, and its description.
pub open spec fn word_line(name: Seq<char>, word: WordInfoView, width: nat) -> Seq<char> {
    name + if name.len() < width {
        spaces((width - name.len()) as nat)
    } else {
        Seq::<char>::empty()
    } + "  "@ + padded(word.handler_index as nat, 6) + if word.runtime == WordRuntime::Immediate {
        "  immediate"@
    } else {
        "           "@
    } + "  --  "@ + word.description + "\n"@
}

/// The lines of the words among the first `count` names that a listing
/// shows.
pub open spec fn word_lines(
    words: Map<Seq<char>, WordInfoView>,
    names: Seq<String>,
    width: nat,
    count: int,
) -> Seq<char>
    decreases count,
{
    if count <= 0 || count > names.len() {
        Seq::empty()
    } else if is_shown(words, names[count - 1]@) {
        word_lines(words, names, width, count - 1) + word_line(
            names[count - 1]@,
            words[names[count - 1]@],
            width,
        )
    } else {
        word_lines(words, names, width, count - 1)
    }
}

/// The listing of words under the given names, in the order of the names:
/// the number of the words that are shown, and their lines.
pub open spec fn word_listing(words: Map<Seq<char>, WordInfoView>, names: Seq<String>) -> Seq<
    char,
> {
    padded(shown_count(words, names, names.len() as int), 0) + " words defined.\n\n"@ + word_lines(
        words,
        names,
        widest(names, names.len() as int),
        names.len() as int,
    )
}

/// The listing of a dictionary: the number of the visible words, and then
/// one line for each of them, in the order of their names, with the index of
/// the handler, whether the word is immediate, and the description.
pub fn dictionary_text(dictionary: &Dictionary) -> (r: String)
    ensures
        exists|names: Seq<String>|
            {
                &&& in_order(names)
                &&& forall|k: int|
                    0 <= k < names.len() ==> merged(dictionary@).contains_key(
                        (#[trigger] names[k])@,
                    )
                &&& forall|name: Seq<char>|
                    merged(dictionary@).contains_key(name) ==> exists|k: int|
                        0 <= k < names.len() && (#[trigger] names[k])@ == name
                &&& r@ == word_listing(merged(dictionary@), names)
            },
{
    let merged = dictionary.get_merged();
    let listed = merged.names();
    let names = sorted_names(listed);
    let ghost words = merged@;
    proof {
        names@.to_multiset_ensures();
        listed@.to_multiset_ensures();
        assert forall|k: int| 0 <= k < names@.len() implies words.contains_key(
            (#[trigger] names@[k])@,
        ) by {
            assert(names@.contains(names@[k]));
            assert(names@.to_multiset().count(names@[k]) > 0);
            assert(listed@.to_multiset().count(names@[k]) > 0);
            assert(listed@.contains(names@[k]));
            let at = choose|at: int| 0 <= at < listed@.len() && listed@[at] == names@[k];
            assert(words.contains_key(listed@[at]@));
        }
        assert forall|name: Seq<char>| words.contains_key(name) implies exists|k: int|
            0 <= k < names@.len() && (#[trigger] names@[k])@ == name by {
            let at = choose|at: int| 0 <= at < listed@.len() && (#[trigger] listed@[at])@ == name;
            assert(listed@.contains(listed@[at]));
            assert(listed@.to_multiset().count(listed@[at]) > 0);
            assert(names@.to_multiset().count(listed@[at]) > 0);
            assert(names@.contains(listed@[at]));
            let k = choose|k: int| 0 <= k < names@.len() && names@[k] == listed@[at];
            assert(names@[k]@ == name);
        }
    }
    let mut max_size: usize = 0;
    let mut visible_words: usize = 0;
    let mut index: usize = 0;
    while index < names.len()
        invariant
            index <= names@.len(),
            visible_words <= index,
            words == merged@,
            max_size == widest(names@, index as int),
            visible_words == shown_count(words, names@, index as int),
        decreases names@.len() - index,
    {
        let size = names[index].as_str().unicode_len();
        if max_size < size {
            max_size = size;
        }
        match merged.get(&names[index]) {
            Some(info) => {
                if info.visibility == WordVisibility::Visible {
                    visible_words += 1;
                }
            },
            None => {},
        }
        index += 1;
    }
    let mut out = padded_number(visible_words, 0);
    out.append(" words defined.\n\n");
    let ghost head = out@;
    let mut index: usize = 0;
    assert(out@ =~= head + word_lines(words, names@, max_size as nat, 0));
    while index < names.len()
        invariant
            index <= names@.len(),
            words == merged@,
            out@ == head + word_lines(words, names@, max_size as nat, index as int),
        decreases names@.len() - index,
    {
        let ghost before = out@;
        match merged.get(&names[index]) {
            Some(word) => {
                if word.visibility == WordVisibility::Visible {
                    out.append(names[index].as_str());
                    let size = names[index].as_str().unicode_len();
                    if size < max_size {
                        push_spaces(&mut out, max_size - size);
                    }
                    out.append("  ");
                    let number = padded_number(word.handler_index, 6);
                    out.append(number.as_str());
                    if word.runtime == WordRuntime::Immediate {
                        out.append("  immediate");
                    } else {
                        out.append("           ");
                    }
                    out.append("  --  ");
                    out.append(word.description.as_str());
                    out.append("\n");
                    proof {
                        let name = names@[index as int]@;
                        let gap = if name.len() < max_size {
                            spaces((max_size - name.len()) as nat)
                        } else {
                            Seq::<char>::empty()
                        };
                        let mark = if word@.runtime == WordRuntime::Immediate {
                            "  immediate"@
                        } else {
                            "           "@
                        };
                        assert(out@ =~= before + (name + gap + "  "@ + padded(
                            word@.handler_index as nat,
                            6,
                        ) + mark + "  --  "@ + word@.description + "\n"@));
                    }
                }
            },
            None => {},
        }
        index += 1;
    }
    out
}

} // verus!
