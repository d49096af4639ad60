//! The values that the interpreter works on.

use vstd::prelude::*;
use crate::lang::code::clone_code;
use crate::lang::code::same_code;
use crate::lang::code::code_view;
use crate::lang::code::ByteCode;
use crate::lang::code::InstructionView;
use crate::lang::tokenizing::NumberType;
use crate::lang::tokenizing::Token;
use crate::lang::tokenizing::TokenView;
use crate::runtime::host::Host;
use crate::text::int_text;
use crate::text::int_to_string;
use crate::text::push_char;
use crate::text::chars_of;

verus! {

/// The handle of an array in the heap.
pub type ValueVecPtr = usize;

/// The handle of a hash map in the heap.
pub type ValueHashPtr = usize;

/// The handle of a data object in the heap.
pub type DataObjectPtr = usize;

/// The handle of a byte buffer in the heap.
pub type ByteBufferPtr = usize;

/// A value of the language. Numbers, booleans, strings, tokens and code are
/// held by value. Arrays, hash maps, data objects and byte buffers live in the
/// heap of the interpreter, and a value holds the handle of one: copies of the
/// value share the container. A floating point number is held as the bit
/// pattern of a 64-bit IEEE 754 number.
#[derive(Debug)]
pub enum Value {
    Nil,
    Int(i64),
    Float(u64),
    Bool(bool),
    String(String),
    Vec(ValueVecPtr),
    HashMap(ValueHashPtr),
    DataObject(DataObjectPtr),
    ByteBuffer(ByteBufferPtr),
    Token(Token),
    Code(ByteCode),
}

/// What a value holds, as plain values.
pub enum ValueView {
    Nil,
    Int(i64),
    Float(u64),
    Bool(bool),
    String(Seq<char>),
    Vec(usize),
    HashMap(usize),
    DataObject(usize),
    ByteBuffer(usize),
    Token(TokenView),
    Code(Seq<InstructionView>),
}

pub open spec fn value_view(value: Value) -> ValueView
    decreases value,
{
    match value {
        Value::Nil => ValueView::Nil,
        Value::Int(i) => ValueView::Int(i),
        Value::Float(bits) => ValueView::Float(bits),
        Value::Bool(b) => ValueView::Bool(b),
        Value::String(s) => ValueView::String(s@),
        Value::Vec(handle) => ValueView::Vec(handle),
        Value::HashMap(handle) => ValueView::HashMap(handle),
        Value::DataObject(handle) => ValueView::DataObject(handle),
        Value::ByteBuffer(handle) => ValueView::ByteBuffer(handle),
        Value::Token(token) => ValueView::Token(token@),
        Value::Code(code) => ValueView::Code(code_view(code@)),
    }
}

impl View for Value {
    type V = ValueView;

    open spec fn view(&self) -> ValueView {
        value_view(*self)
    }
}

/// A copy of a value. A container is not copied: the copy holds the same handle.
pub fn clone_value(value: &Value) -> (r: Value)
    ensures
        r@ == value@,
    decreases value,
{
    match value {
        Value::Nil => Value::Nil,
        Value::Int(i) => Value::Int(*i),
        Value::Float(bits) => Value::Float(*bits),
        Value::Bool(b) => Value::Bool(*b),
        Value::String(s) => Value::String(s.clone()),
        Value::Vec(handle) => Value::Vec(*handle),
        Value::HashMap(handle) => Value::HashMap(*handle),
        Value::DataObject(handle) => Value::DataObject(*handle),
        Value::ByteBuffer(handle) => Value::ByteBuffer(*handle),
        Value::Token(token) => Value::Token(token.clone()),
        Value::Code(code) => Value::Code(clone_code(code)),
    }
}

/// Whether two values hold the same: the same kind with the same content. A
/// container is the same as itself only.
pub fn same_value(a: &Value, b: &Value) -> (r: bool)
    ensures
        r == (a@ == b@),
    decreases a,
{
    match (a, b) {
        (Value::Nil, Value::Nil) => true,
        (Value::Int(x), Value::Int(y)) => *x == *y,
        (Value::Float(x), Value::Float(y)) => *x == *y,
        (Value::Bool(x), Value::Bool(y)) => *x == *y,
        (Value::String(x), Value::String(y)) => *x == *y,
        (Value::Vec(x), Value::Vec(y)) => *x == *y,
        (Value::HashMap(x), Value::HashMap(y)) => *x == *y,
        (Value::DataObject(x), Value::DataObject(y)) => *x == *y,
        (Value::ByteBuffer(x), Value::ByteBuffer(y)) => *x == *y,
        (Value::Token(x), Value::Token(y)) => x.same_as(y),
        (Value::Code(x), Value::Code(y)) => same_code(x, y),
        _ => false,
    }
}

impl Clone for Value {
    fn clone(&self) -> (r: Self)
        ensures
            r@ == self@,
    {
        clone_value(self)
    }
}

impl Default for Value {
    fn default() -> (r: Value)
        ensures
            r@ == ValueView::Nil,
    {
        Value::Nil
    }
}

/// Whether a value counts as a number: `Nil`, an integer, a floating point
/// number, a boolean, or a token that is a number.
pub open spec fn is_numeric_view(value: ValueView) -> bool {
    match value {
        ValueView::Nil => true,
        ValueView::Int(_) => true,
        ValueView::Float(_) => true,
        ValueView::Bool(_) => true,
        ValueView::Token(TokenView::Number(_, _)) => true,
        _ => false,
    }
}

/// Whether a value is a floating point number, as itself or as a token.
pub open spec fn is_float_view(value: ValueView) -> bool {
    match value {
        ValueView::Float(_) => true,
        ValueView::Token(TokenView::Number(_, NumberType::Float(_))) => true,
        _ => false,
    }
}

/// Whether a value can stand where a string is needed: `Nil`, a number that
/// is no boolean, a string, or a token that is a string or a word.
pub open spec fn is_stringable_view(value: ValueView) -> bool {
    match value {
        ValueView::Nil => true,
        ValueView::Int(_) => true,
        ValueView::Float(_) => true,
        ValueView::String(_) => true,
        ValueView::Token(TokenView::String(_, _)) => true,
        ValueView::Token(TokenView::Word(_, _)) => true,
        _ => false,
    }
}

/// Whether a value is a text: a string, or a token that is a string or a word.
pub open spec fn is_text_view(value: ValueView) -> bool {
    match value {
        ValueView::String(_) => true,
        ValueView::Token(TokenView::String(_, _)) => true,
        ValueView::Token(TokenView::Word(_, _)) => true,
        _ => false,
    }
}

/// The text of a value that can stand where a string is needed, unless it is
/// a floating point number, whose notation the host gives.
pub open spec fn string_of_view(value: ValueView) -> Option<Seq<char>> {
    match value {
        ValueView::Nil => Some(Seq::empty()),
        ValueView::Int(i) => Some(int_text(i as int)),
        ValueView::String(text) => Some(text),
        ValueView::Token(TokenView::String(_, text)) => Some(text),
        ValueView::Token(TokenView::Word(_, text)) => Some(text),
        _ => None,
    }
}

/// Whether the bits are those of a floating point zero, positive or negative.
pub open spec fn is_zero_bits(bits: u64) -> bool {
    bits == 0 || bits == 0x8000_0000_0000_0000
}

/// The truth of a value: `Nil`, zero and the empty string are false, a
/// boolean is itself, and anything else is true.
pub open spec fn bool_of_view(value: ValueView) -> bool {
    match value {
        ValueView::Nil => false,
        ValueView::Int(i) => i != 0,
        ValueView::Float(bits) => !is_zero_bits(bits),
        ValueView::Bool(b) => b,
        ValueView::String(text) => text.len() > 0,
        _ => true,
    }
}

/// The integer that a value that counts as a number is, unless it is a
/// floating point number, which the host converts.
pub open spec fn int_of_view(value: ValueView) -> Option<i64> {
    match value {
        ValueView::Nil => Some(0),
        ValueView::Int(i) => Some(i),
        ValueView::Bool(b) => Some(
            if b {
                1i64
            } else {
                0i64
            },
        ),
        ValueView::Token(TokenView::Number(_, NumberType::Int(i))) => Some(i),
        _ => None,
    }
}

/// Whether a value can be taken off the stack as a number: an integer, a
/// floating point number, a boolean or a number token. `Nil` counts as a
/// number in arithmetic, but is none to take.
pub open spec fn is_number_view(value: ValueView) -> bool {
    is_numeric_view(value) && !(value is Nil)
}

/// The integer that a value is taken off the stack as, unless it is a
/// floating point number, which the host converts.
pub open spec fn popped_int(value: ValueView) -> Option<i64> {
    if value is Nil {
        None
    } else {
        int_of_view(value)
    }
}

/// The bits of the floating point number that a value is taken off the
/// stack as, unless it is an integer, which the host converts.
pub open spec fn popped_float(value: ValueView) -> Option<u64> {
    if value is Nil {
        None
    } else {
        float_of_view(value)
    }
}

/// The bits of the floating point number that a value that counts as a number
/// is, unless it is an integer other than zero, which the host converts.
pub open spec fn float_of_view(value: ValueView) -> Option<u64> {
    match value {
        ValueView::Nil => Some(0),
        ValueView::Float(bits) => Some(bits),
        ValueView::Bool(b) => Some(
            if b {
                0x3ff0_0000_0000_0000u64
            } else {
                0u64
            },
        ),
        ValueView::Token(TokenView::Number(_, NumberType::Float(bits))) => Some(bits),
        _ => None,
    }
}

/// The escape sequence of a character in a string literal, or the character
/// itself where it needs none.
pub open spec fn escape_char(c: char) -> Seq<char> {
    if c == '"' {
        seq!['\\', '"']
    } else if c == '\n' {
        seq!['\\', 'n']
    } else if c == '\r' {
        seq!['\\', 'r']
    } else if c == '\t' {
        seq!['\\', 't']
    } else if c == '\0' {
        seq!['\\', '0']
    } else if c == '\\' {
        seq!['\\', '\\']
    } else {
        seq![c]
    }
}

/// The escaped form of the characters of a text from index `i` on. A `*` at
/// the very start is escaped too, so that the literal does not read as the
/// start of a multi-line string.
pub open spec fn escape_from(text: Seq<char>, i: int) -> Seq<char>
    decreases text.len() - i,
{
    if i < 0 || i >= text.len() {
        Seq::empty()
    } else if i == 0 && text[0] == '*' {
        seq!['\\', '*'] + escape_from(text, 1)
    } else {
        escape_char(text[i]) + escape_from(text, i + 1)
    }
}

/// A text as a string literal of the language: between quotes, with its
/// special characters escaped.
pub open spec fn stringified(text: Seq<char>) -> Seq<char> {
    seq!['"'] + escape_from(text, 0) + seq!['"']
}

impl Value {
    pub fn is_int(&self) -> (r: bool)
        ensures
            r == (self@ is Int),
    {
        match self {
            Value::Int(_) => true,
            _ => false,
        }
    }

    pub fn is_float(&self) -> (r: bool)
        ensures
            r == (self@ is Float),
    {
        match self {
            Value::Float(_) => true,
            _ => false,
        }
    }

    pub fn is_bool(&self) -> (r: bool)
        ensures
            r == (self@ is Bool),
    {
        match self {
            Value::Bool(_) => true,
            _ => false,
        }
    }

    pub fn is_string(&self) -> (r: bool)
        ensures
            r == (self@ is String),
    {
        match self {
            Value::String(_) => true,
            _ => false,
        }
    }

    pub fn is_none(&self) -> (r: bool)
        ensures
            r == (self@ is Nil),
    {
        match self {
            Value::Nil => true,
            _ => false,
        }
    }

    /// Whether the value counts as a number.
    pub fn is_numeric(&self) -> (r: bool)
        ensures
            r == is_numeric_view(self@),
    {
        match self {
            Value::Nil => true,
            Value::Int(_) => true,
            Value::Float(_) => true,
            Value::Bool(_) => true,
            Value::Token(Token::Number(_, _)) => true,
            _ => false,
        }
    }

    pub fn both_are_numeric(a: &Value, b: &Value) -> (r: bool)
        ensures
            r == (is_numeric_view(a@) && is_numeric_view(b@)),
    {
        a.is_numeric() && b.is_numeric()
    }

    /// Whether the value is a floating point number, as itself or as a token.
    pub fn is_float_number(&self) -> (r: bool)
        ensures
            r == is_float_view(self@),
    {
        match self {
            Value::Float(_) => true,
            Value::Token(Token::Number(_, NumberType::Float(_))) => true,
            _ => false,
        }
    }

    /// Whether the value can stand where a string is needed.
    pub fn is_stringable(&self) -> (r: bool)
        ensures
            r == is_stringable_view(self@),
    {
        match self {
            Value::Nil => true,
            Value::Int(_) => true,
            Value::Float(_) => true,
            Value::String(_) => true,
            Value::Token(Token::String(_, _)) => true,
            Value::Token(Token::Word(_, _)) => true,
            _ => false,
        }
    }

    /// Whether the value is a text.
    pub fn is_text(&self) -> (r: bool)
        ensures
            r == is_text_view(self@),
    {
        match self {
            Value::String(_) => true,
            Value::Token(Token::String(_, _)) => true,
            Value::Token(Token::Word(_, _)) => true,
            _ => false,
        }
    }

    /// The text of a value that can stand where a string is needed. The
    /// notation of a floating point number is the host's.
    pub fn get_string_val<H: Host>(&self, host: &H) -> (r: String)
        requires
            is_stringable_view(self@),
        ensures
            string_of_view(self@) is Some ==> r@ == string_of_view(self@)->0,
    {
        match self {
            Value::Nil => String::new(),
            Value::Int(value) => int_to_string(*value),
            Value::Float(bits) => host.float_to_string(*bits),
            Value::String(value) => value.clone(),
            Value::Token(Token::String(_, value)) => value.clone(),
            Value::Token(Token::Word(_, word)) => word.clone(),
            _ => String::new(),
        }
    }

    /// The truth of the value.
    pub fn get_bool_val(&self) -> (r: bool)
        ensures
            r == bool_of_view(self@),
    {
        match self {
            Value::Nil => false,
            Value::Int(value) => *value != 0,
            Value::Float(bits) => !(*bits == 0 || *bits == 0x8000_0000_0000_0000),
            Value::Bool(value) => *value,
            Value::String(value) => value.as_str().unicode_len() > 0,
            _ => true,
        }
    }

    /// The integer that a value that counts as a number is. A floating point
    /// number loses its fraction, by the host.
    pub fn get_int_val<H: Host>(&self, host: &H) -> (r: i64)
        requires
            is_numeric_view(self@),
        ensures
            int_of_view(self@) is Some ==> r == int_of_view(self@)->0,
    {
        match self {
            Value::Nil => 0,
            Value::Int(value) => *value,
            Value::Float(bits) => host.float_to_int(*bits),
            Value::Bool(value) => if *value {
                1
            } else {
                0
            },
            Value::Token(Token::Number(_, NumberType::Int(value))) => *value,
            Value::Token(Token::Number(_, NumberType::Float(bits))) => host.float_to_int(*bits),
            _ => 0,
        }
    }

    /// The bits of the floating point number that a value that counts as a
    /// number is. An integer is converted by the host.
    pub fn get_float_val<H: Host>(&self, host: &H) -> (r: u64)
        requires
            is_numeric_view(self@),
        ensures
            float_of_view(self@) is Some ==> r == float_of_view(self@)->0,
    {
        match self {
            Value::Nil => 0,
            Value::Int(value) => host.float_from_int(*value),
            Value::Float(bits) => *bits,
            Value::Bool(value) => if *value {
                0x3ff0_0000_0000_0000
            } else {
                0
            },
            Value::Token(Token::Number(_, NumberType::Int(value))) => host.float_from_int(*value),
            Value::Token(Token::Number(_, NumberType::Float(bits))) => *bits,
            _ => 0,
        }
    }

    /// A text as a string literal of the language.
    pub fn stringify(text: &String) -> (r: String)
        ensures
            r@ == stringified(text@),
    {
        let chars = chars_of(text.as_str());
        let mut result = String::new();
        push_char(&mut result, '"');
        let mut i: usize = 0;
        let ghost s = chars@;
        assert(seq!['"'] + escape_from(s, 0) =~= result@ + escape_from(s, 0));
        while i < chars.len()
            invariant
                i <= chars@.len(),
                s == chars@,
                seq!['"'] + escape_from(s, 0) == result@ + escape_from(s, i as int),
            decreases chars@.len() - i,
        {
            let c = chars[i];
            let ghost before = result@;
            if i == 0 && c == '*' {
                push_char(&mut result, '\\');
                push_char(&mut result, '*');
                assert(before + (seq!['\\', '*'] + escape_from(s, 1)) =~= result@ + escape_from(
                    s,
                    1,
                ));
            } else {
                if c == '"' {
                    push_char(&mut result, '\\');
                    push_char(&mut result, '"');
                } else if c == '\n' {
                    push_char(&mut result, '\\');
                    push_char(&mut result, 'n');
                } else if c == '\r' {
                    push_char(&mut result, '\\');
                    push_char(&mut result, 'r');
                } else if c == '\t' {
                    push_char(&mut result, '\\');
                    push_char(&mut result, 't');
                } else if c == '\0' {
                    push_char(&mut result, '\\');
                    push_char(&mut result, '0');
                } else if c == '\\' {
                    push_char(&mut result, '\\');
                    push_char(&mut result, '\\');
                } else {
                    push_char(&mut result, c);
                }
                assert(result@ =~= before + escape_char(c));
                assert(before + (escape_char(c) + escape_from(s, i + 1)) =~= result@ + escape_from(
                    s,
                    i + 1,
                ));
            }
            i += 1;
        }
        let ghost before = result@;
        push_char(&mut result, '"');
        assert(before + escape_from(s, s.len() as int) =~= before);
        assert(result@ =~= stringified(s));
        result
    }
}

/// What can be made into a value of the language.
pub trait ToValue {
    /// The value that this is made into.
    spec fn spec_to_value(&self) -> ValueView;

    fn to_value(&self) -> (r: Value)
        ensures
            r@ == self.spec_to_value(),
    ;
}

impl ToValue for String {
    open spec fn spec_to_value(&self) -> ValueView {
        ValueView::String(self@)
    }

    fn to_value(&self) -> (r: Value) {
        Value::String(self.clone())
    }
}

impl ToValue for i64 {
    open spec fn spec_to_value(&self) -> ValueView {
        ValueView::Int(*self)
    }

    fn to_value(&self) -> (r: Value) {
        Value::Int(*self)
    }
}

impl ToValue for bool {
    open spec fn spec_to_value(&self) -> ValueView {
        ValueView::Bool(*self)
    }

    fn to_value(&self) -> (r: Value) {
        Value::Bool(*self)
    }
}

impl ToValue for NumberType {
    open spec fn spec_to_value(&self) -> ValueView {
        match *self {
            NumberType::Int(value) => ValueView::Int(value),
            NumberType::Float(bits) => ValueView::Float(bits),
        }
    }

    fn to_value(&self) -> (r: Value) {
        match self {
            NumberType::Int(value) => Value::Int(*value),
            NumberType::Float(bits) => Value::Float(*bits),
        }
    }
}

impl ToValue for Token {
    open spec fn spec_to_value(&self) -> ValueView {
        ValueView::Token(self@)
    }

    fn to_value(&self) -> (r: Value) {
        Value::Token(self.clone())
    }
}

/// A count or an index as the integer that a script sees: the number, or the
/// largest 64-bit signed integer where the number is larger.
pub open spec fn index_value(index: usize) -> ValueView {
    ValueView::Int(
        if index <= i64::MAX {
            index as i64
        } else {
            i64::MAX
        },
    )
}

/// The integer value of a count or an index. One that is too large for a
/// 64-bit signed integer gives the largest.
pub fn count_value(count: usize) -> (r: Value)
    ensures
        r@ == index_value(count),
{
    if count as u64 <= 0x7fff_ffff_ffff_ffff {
        Value::Int(count as i64)
    } else {
        Value::Int(i64::MAX)
    }
}

/// The width of the indent at the given level of nesting, in the text of a
/// value: four spaces for each level.
pub fn value_format_indent(level: usize) -> (r: usize)
    ensures
        r == if level * 4 <= usize::MAX {
            level * 4
        } else {
            usize::MAX as int
        },
{
    if level <= usize::MAX / 4 {
        level * 4
    } else {
        usize::MAX
    }
}

/// The level of nesting one further in.
pub fn value_format_indent_inc(level: usize) -> (r: usize)
    ensures
        r == if level < usize::MAX {
            level + 1
        } else {
            level as int
        },
{
    if level < usize::MAX {
        level + 1
    } else {
        level
    }
}

/// The level of nesting one further out.
pub fn value_format_indent_dec(level: usize) -> (r: usize)
    ensures
        r == if level > 0 {
            level - 1
        } else {
            0
        },
{
    if level > 0 {
        level - 1
    } else {
        0
    }
}

/// A stack without its top value; the stack itself where it is empty.
pub open spec fn without_last(stack: Seq<Value>) -> Seq<Value> {
    if stack.len() > 0 {
        stack.drop_last()
    } else {
        stack
    }
}

/// Whether a value has a truth: `Nil`, a number, a boolean or a string.
pub open spec fn has_truth_view(value: ValueView) -> bool {
    value is Nil || value is Int || value is Float || value is Bool || value is String
}

/// The message of the failure to take a value of some kind off a stack: that
/// the stack is empty, or what was expected.
pub open spec fn refusal(stack: Seq<Value>, expected: Seq<char>) -> Seq<char> {
    if stack.len() == 0 {
        "Stack underflow."@
    } else {
        expected
    }
}

/// Takes the top value off a stack as an integer: an integer, a floating
/// point number without its fraction, a boolean as 0 or 1, or a number
/// token. Fails on an empty stack and on any other value; the value is
/// taken off all the same.
pub fn take_int<H: Host>(host: &H, stack: &mut Vec<Value>) -> (r: core::result::Result<i64, String>)
    ensures
        final(stack)@ == without_last(old(stack)@),
        r is Ok <==> old(stack)@.len() > 0 && is_number_view(old(stack)@.last()@),
        r is Ok && popped_int(old(stack)@.last()@) is Some ==> r->Ok_0 == popped_int(
            old(stack)@.last()@,
        )->0,
        r is Err ==> r->Err_0@ == refusal(old(stack)@, "Expected numeric value."@),
{
    match stack.pop() {
        Some(value) => {
            if !value.is_numeric() || value.is_none() {
                Err(String::from_str("Expected numeric value."))
            } else {
                Ok(value.get_int_val(host))
            }
        },
        None => Err(String::from_str("Stack underflow.")),
    }
}

/// Takes the top value off a stack as the bits of a floating point number:
/// an integer, a floating point number, a boolean or a number token. Fails
/// on an empty stack and on any other value; the value is taken off all the
/// same.
pub fn take_float<H: Host>(host: &H, stack: &mut Vec<Value>) -> (r: core::result::Result<
    u64,
    String,
>)
    ensures
        final(stack)@ == without_last(old(stack)@),
        r is Ok <==> old(stack)@.len() > 0 && is_number_view(old(stack)@.last()@),
        r is Ok && popped_float(old(stack)@.last()@) is Some ==> r->Ok_0 == popped_float(
            old(stack)@.last()@,
        )->0,
        r is Err ==> r->Err_0@ == refusal(old(stack)@, "Expected numeric value."@),
{
    match stack.pop() {
        Some(value) => {
            if !value.is_numeric() || value.is_none() {
                Err(String::from_str("Expected numeric value."))
            } else {
                Ok(value.get_float_val(host))
            }
        },
        None => Err(String::from_str("Stack underflow.")),
    }
}

/// Takes the top value off a stack as a boolean: the truth of `Nil`, of a
/// number, of a boolean or of a string. Fails on an empty stack and on any
/// other value; the value is taken off all the same.
pub fn take_bool(stack: &mut Vec<Value>) -> (r: core::result::Result<bool, String>)
    ensures
        final(stack)@ == without_last(old(stack)@),
        r is Ok <==> old(stack)@.len() > 0 && has_truth_view(old(stack)@.last()@),
        r is Ok ==> r->Ok_0 == bool_of_view(old(stack)@.last()@),
        r is Err ==> r->Err_0@ == refusal(old(stack)@, "Expected boolean value."@),
{
    match stack.pop() {
        Some(value) => {
            let accepted = match &value {
                Value::Nil => true,
                Value::Int(_) => true,
                Value::Float(_) => true,
                Value::Bool(_) => true,
                Value::String(_) => true,
                _ => false,
            };
            if accepted {
                Ok(value.get_bool_val())
            } else {
                Err(String::from_str("Expected boolean value."))
            }
        },
        None => Err(String::from_str("Stack underflow.")),
    }
}

/// Takes the top value off a stack as a string: nothing for `Nil`, the
/// notation of a number, or the text of a string or of a token that is a
/// string or a word. Fails on an empty stack and on any other value; the
/// value is taken off all the same.
pub fn take_string<H: Host>(host: &H, stack: &mut Vec<Value>) -> (r: core::result::Result<
    String,
    String,
>)
    ensures
        final(stack)@ == without_last(old(stack)@),
        r is Ok <==> old(stack)@.len() > 0 && is_stringable_view(old(stack)@.last()@),
        r is Ok && string_of_view(old(stack)@.last()@) is Some ==> r->Ok_0@ == string_of_view(
            old(stack)@.last()@,
        )->0,
        r is Err ==> r->Err_0@ == refusal(old(stack)@, "Expected a string value."@),
{
    match stack.pop() {
        Some(value) => {
            if value.is_stringable() {
                Ok(value.get_string_val(host))
            } else {
                Err(String::from_str("Expected a string value."))
            }
        },
        None => Err(String::from_str("Stack underflow.")),
    }
}

} // verus!
