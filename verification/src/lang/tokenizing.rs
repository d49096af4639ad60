//! Tokens, and the tokenizer that reads them from a source text.

use vstd::prelude::*;
use vstd::string::StringExecFns;
use crate::lang::source_buffer::location_after;
use crate::lang::source_buffer::location_after_all;
use crate::lang::source_buffer::LocationView;
use crate::lang::source_buffer::SourceBuffer;
use crate::lang::source_buffer::SourceLocation;
use crate::runtime::error::ErrorView;
use crate::runtime::error::Result;
use crate::runtime::error::ScriptError;
use crate::runtime::error::script_error_str;
use crate::runtime::host::Host;
use crate::runtime::interpreter::sorth_interpreter::SorthInterpreter;
use crate::runtime::data_structures::value::stringified;
use crate::text::chars_of;
use crate::text::digit_of;
use crate::text::is_hex_digit;
use crate::text::parse_int;
use crate::text::parse_int_chars;
use crate::text::push_char;
use crate::text::string_of;

verus! {

/// A number literal: a 64-bit signed integer, or a 64-bit IEEE 754 floating
/// point number, held as its bit pattern.
#[derive(Clone, Copy, Debug, PartialEq, Eq, Structural)]
pub enum NumberType {
    Int(i64),
    Float(u64),
}

/// A token of the source text, with the location of its first character.
#[derive(Debug)]
pub enum Token {
    Number(SourceLocation, NumberType),
    String(SourceLocation, String),
    Word(SourceLocation, String),
}

/// What a token holds, as plain values.
pub enum TokenView {
    Number(LocationView, NumberType),
    String(LocationView, Seq<char>),
    Word(LocationView, Seq<char>),
}

impl View for Token {
    type V = TokenView;

    open spec fn view(&self) -> TokenView {
        match self {
            Token::Number(location, number) => TokenView::Number(location@, *number),
            Token::String(location, text) => TokenView::String(location@, text@),
            Token::Word(location, text) => TokenView::Word(location@, text@),
        }
    }
}

impl Clone for Token {
    fn clone(&self) -> (r: Self)
        ensures
            r@ == self@,
    {
        match self {
            Token::Number(location, number) => Token::Number(location.clone(), *number),
            Token::String(location, text) => Token::String(location.clone(), text.clone()),
            Token::Word(location, text) => Token::Word(location.clone(), text.clone()),
        }
    }
}

pub type TokenList = Vec<Token>;

impl Token {
    pub fn location(&self) -> (r: &SourceLocation)
        ensures
            r@ == match self@ {
                TokenView::Number(location, _) => location,
                TokenView::String(location, _) => location,
                TokenView::Word(location, _) => location,
            },
    {
        match self {
            Token::Number(location, _) => location,
            Token::String(location, _) => location,
            Token::Word(location, _) => location,
        }
    }

    /// The number of a number token. Fails on any other token.
    pub fn number(&self, interpreter: &SorthInterpreter) -> (r: Result<&NumberType>)
        ensures
            match self@ {
                TokenView::Number(_, number) => r is Ok && *r->Ok_0 == number,
                _ => r is Err,
            },
    {
        match self {
            Token::Number(_, number) => Ok(number),
            _ => script_error_str(interpreter, "Token is not a number."),
        }
    }

    /// The text of a string or a word. Fails on a number.
    pub fn text(&self, interpreter: &SorthInterpreter) -> (r: Result<&String>)
        ensures
            match self@ {
                TokenView::String(_, text) => r is Ok && r->Ok_0@ == text,
                TokenView::Word(_, text) => r is Ok && r->Ok_0@ == text,
                _ => r is Err,
            },
    {
        match self {
            Token::String(_, text) => Ok(text),
            Token::Word(_, text) => Ok(text),
            _ => script_error_str(interpreter, "Token is not textual."),
        }
    }

    /// The text of a string token. Fails on any other token.
    pub fn string(&self, interpreter: &SorthInterpreter) -> (r: Result<&String>)
        ensures
            match self@ {
                TokenView::String(_, text) => r is Ok && r->Ok_0@ == text,
                _ => r is Err,
            },
    {
        match self {
            Token::String(_, text) => Ok(text),
            _ => script_error_str(interpreter, "Token is not a string."),
        }
    }

    /// The text of a word token. Fails on any other token.
    pub fn word(&self, interpreter: &SorthInterpreter) -> (r: Result<&String>)
        ensures
            match self@ {
                TokenView::Word(_, text) => r is Ok && r->Ok_0@ == text,
                _ => r is Err,
            },
    {
        match self {
            Token::Word(_, word) => Ok(word),
            _ => script_error_str(interpreter, "Token is not a word."),
        }
    }

    /// Whether two tokens hold the same.
    pub fn same_as(&self, other: &Token) -> (r: bool)
        ensures
            r == (self@ == other@),
    {
        match (self, other) {
            (Token::Number(l, x), Token::Number(m, y)) => l.same_as(m) && *x == *y,
            (Token::String(l, x), Token::String(m, y)) => l.same_as(m) && *x == *y,
            (Token::Word(l, x), Token::Word(m, y)) => l.same_as(m) && *x == *y,
            _ => false,
        }
    }

    pub fn is_number(&self) -> (r: bool)
        ensures
            r == (self@ is Number),
    {
        match self {
            Token::Number(_, _) => true,
            _ => false,
        }
    }

    /// Whether the token carries a text: a string or a word.
    pub fn is_textual(&self) -> (r: bool)
        ensures
            r == (self@ is String || self@ is Word),
    {
        match self {
            Token::String(_, _) => true,
            Token::Word(_, _) => true,
            _ => false,
        }
    }

    pub fn is_string(&self) -> (r: bool)
        ensures
            r == (self@ is String),
    {
        match self {
            Token::String(_, _) => true,
            _ => false,
        }
    }

    pub fn is_word(&self) -> (r: bool)
        ensures
            r == (self@ is Word),
    {
        match self {
            Token::Word(_, _) => true,
            _ => false,
        }
    }
}

/// The characters that separate tokens.
pub open spec fn is_whitespace_char(c: char) -> bool {
    c == ' ' || c == '\t' || c == '\r' || c == '\n'
}

pub fn is_whitespace(next: &char) -> (r: bool)
    ensures
        r == is_whitespace_char(*next),
{
    *next == ' ' || *next == '\t' || *next == '\r' || *next == '\n'
}

/// The location of the character at offset `i` of the text `s`, where the text
/// starts at `start`.
pub open spec fn loc_at(s: Seq<char>, start: LocationView, i: int) -> LocationView {
    location_after_all(start, s.take(i))
}

/// The location moves over one character at a time.
pub proof fn lemma_loc_step(s: Seq<char>, start: LocationView, i: int)
    requires
        0 <= i < s.len(),
    ensures
        loc_at(s, start, i + 1) == location_after(loc_at(s, start, i), s[i]),
{
    assert(s.take(i + 1).drop_last() == s.take(i));
    assert(s.take(i + 1).last() == s[i]);
}

/// The buffer has read the first `i` characters of the text `s`, which starts
/// at `start`.
pub open spec fn tracks(buffer: SourceBuffer, s: Seq<char>, start: LocationView, i: int) -> bool {
    &&& buffer.wf()
    &&& 0 <= i <= s.len()
    &&& buffer.remaining() == s.skip(i)
    &&& buffer.spec_location() == loc_at(s, start, i)
}

/// The first offset at or after `i` that holds no whitespace, or the length of
/// the text.
pub open spec fn skip_whitespace_end(s: Seq<char>, i: int) -> int
    decreases s.len() - i,
{
    if 0 <= i < s.len() && is_whitespace_char(s[i]) {
        skip_whitespace_end(s, i + 1)
    } else {
        i
    }
}

/// The first offset at or after `i` that holds whitespace, or the length of
/// the text.
pub open spec fn word_end(s: Seq<char>, i: int) -> int
    decreases s.len() - i,
{
    if 0 <= i < s.len() && !is_whitespace_char(s[i]) {
        word_end(s, i + 1)
    } else {
        i
    }
}

/// The character that an escape sequence stands for, given the character
/// after the backslash.
pub open spec fn escape_value(c: char) -> char {
    if c == 'n' {
        '\n'
    } else if c == 'r' {
        '\r'
    } else if c == 't' {
        '\t'
    } else if c == '0' {
        '\0'
    } else {
        c
    }
}

/// A text and the offset after it, with `head` put before the text.
pub open spec fn prepend(head: Seq<char>, tail: Option<(Seq<char>, int)>) -> Option<
    (Seq<char>, int),
> {
    match tail {
        Some((rest, end)) => Some((head + rest, end)),
        None => None,
    }
}

/// The text of a single-line string whose content starts at offset `i`, and
/// the offset after its closing quote. There is none where the text ends or a
/// line ends before the closing quote.
pub open spec fn string_body(s: Seq<char>, i: int) -> Option<(Seq<char>, int)>
    decreases s.len() - i,
{
    if i < 0 || i >= s.len() {
        None
    } else if s[i] == '"' {
        Some((Seq::empty(), i + 1))
    } else if s[i] == '\n' {
        None
    } else if s[i] == '\\' {
        if i + 1 >= s.len() {
            None
        } else {
            prepend(seq![escape_value(s[i + 1])], string_body(s, i + 2))
        }
    } else {
        prepend(seq![s[i]], string_body(s, i + 1))
    }
}

/// The first offset at or after `i` that holds no whitespace or stands at or
/// past the column `target`, or the length of the text.
pub open spec fn indent_end(s: Seq<char>, start: LocationView, i: int, target: nat) -> int
    decreases s.len() - i,
{
    if 0 <= i < s.len() && is_whitespace_char(s[i]) && loc_at(s, start, i).column < target {
        indent_end(s, start, i + 1, target)
    } else {
        i
    }
}

/// A text of `n` new lines.
pub open spec fn newlines(n: nat) -> Seq<char> {
    Seq::new(n, |k: int| '\n')
}

/// The text of a multi-line string whose content starts at offset `i`, and the
/// offset after its closing `*"`. After each new line the whitespace before
/// the column `target` is left out, and a line that holds nothing else gives
/// one more new line. There is none where the text ends before the closing
/// `*"`.
pub open spec fn multi_line_body(s: Seq<char>, start: LocationView, i: int, target: nat) -> Option<
    (Seq<char>, int),
>
    decreases s.len() - i,
{
    if i < 0 || i >= s.len() {
        None
    } else if s[i] == '*' {
        if i + 1 >= s.len() {
            None
        } else if s[i + 1] == '"' {
            Some((Seq::empty(), i + 2))
        } else {
            prepend(seq!['*'], multi_line_body(s, start, i + 1, target))
        }
    } else if s[i] == '\\' {
        if i + 1 >= s.len() {
            None
        } else {
            prepend(seq![escape_value(s[i + 1])], multi_line_body(s, start, i + 2, target))
        }
    } else if s[i] == '\n' {
        let j = indent_end(s, start, i + 1, target);
        if j >= s.len() || j <= i {
            None
        } else {
            let from = loc_at(s, start, i + 1).line;
            let to = loc_at(s, start, j).line;
            let blank: nat = if to > from {
                (to - from) as nat
            } else {
                0
            };
            prepend(seq!['\n'] + newlines(blank), multi_line_body(s, start, j, target))
        }
    } else {
        prepend(seq![s[i]], multi_line_body(s, start, i + 1, target))
    }
}

/// The text of the multi-line string whose `*` stands at offset `i`, and the
/// offset after it. The column of the first character after the `*` that is no
/// whitespace is the indent that later lines lose.
pub open spec fn multi_line_string(s: Seq<char>, start: LocationView, i: int) -> Option<
    (Seq<char>, int),
> {
    let first = skip_whitespace_end(s, i + 1);
    multi_line_body(s, start, first, loc_at(s, start, first).column)
}

/// The text of the string whose opening quote stands at offset `i`, and the
/// offset after it.
pub open spec fn string_literal(s: Seq<char>, start: LocationView, i: int) -> Option<
    (Seq<char>, int),
> {
    if i + 1 < s.len() && s[i + 1] == '*' {
        multi_line_string(s, start, i + 1)
    } else {
        string_body(s, i + 1)
    }
}

/// A piece of the source text before it is told apart as a number or a word:
/// where it starts, its text, and whether it was written as a string.
pub struct Lexeme {
    pub location: LocationView,
    pub text: Seq<char>,
    pub quoted: bool,
}

/// The piece of the text `s` that comes first from offset `i` on, with the
/// offset after it: nothing where only whitespace is left, and no answer where
/// the piece is a string that is not closed.
pub open spec fn next_lexeme(s: Seq<char>, start: LocationView, i: int) -> Option<
    Option<(Lexeme, int)>,
> {
    let j = skip_whitespace_end(s, i);
    if j < i || j >= s.len() {
        Some(None)
    } else if s[j] == '"' {
        match string_literal(s, start, j) {
            Some((text, end)) => Some(
                Some((Lexeme { location: loc_at(s, start, j), text, quoted: true }, end)),
            ),
            None => None,
        }
    } else {
        Some(
            Some(
                (
                    Lexeme {
                        location: loc_at(s, start, j),
                        text: s.subrange(j, word_end(s, j)),
                        quoted: false,
                    },
                    word_end(s, j),
                ),
            ),
        )
    }
}

/// The pieces of the text `s` from offset `i` on, or nothing where a string
/// is not closed.
pub open spec fn lexemes(s: Seq<char>, start: LocationView, i: int) -> Option<Seq<Lexeme>>
    decreases s.len() - i,
{
    match next_lexeme(s, start, i) {
        None => None,
        Some(None) => Some(Seq::empty()),
        Some(Some((piece, end))) => if i < end <= s.len() {
            match lexemes(s, start, end) {
                Some(rest) => Some(seq![piece] + rest),
                None => None,
            }
        } else {
            None
        },
    }
}

/// Whether a text has the form of a number: it is not empty, and it starts
/// with `0x` or `0b` or holds nothing but hexadecimal digits, `.`, `-`, `e`,
/// `E` and `_`.
pub open spec fn is_number_text(text: Seq<char>) -> bool {
    text.len() > 0 && (has_prefix(text, 'x') || has_prefix(text, 'b') || forall|k: int|
        0 <= k < text.len() ==> is_number_char(#[trigger] text[k]))
}

pub open spec fn is_number_char(c: char) -> bool {
    is_hex_digit(c) || c == '.' || c == '-' || c == 'e' || c == 'E' || c == '_'
}

/// Whether a text starts with `0` and the given letter.
pub open spec fn has_prefix(text: Seq<char>, letter: char) -> bool {
    text.len() >= 2 && text[0] == '0' && text[1] == letter
}

/// A text without its underscores.
pub open spec fn strip_underscores(text: Seq<char>) -> Seq<char>
    decreases text.len(),
{
    if text.len() == 0 {
        text
    } else if text.last() == '_' {
        strip_underscores(text.drop_last())
    } else {
        strip_underscores(text.drop_last()).push(text.last())
    }
}

/// What a text that was not written as a string is.
pub enum BareKind {
    /// An integer literal with this value.
    Int(i64),
    /// A text with a `.` in it, which is a floating point literal if the host
    /// can parse it and a word if not.
    FloatForm,
    /// A word.
    Word,
}

/// Tells a bare text apart: `0x` and `0b` start a hexadecimal or a binary
/// integer, a `.` makes a floating point literal, anything else of the form
/// of a number is a decimal integer. Underscores do not count. A text of that
/// form that is no integer in range is a word.
pub open spec fn classify(text: Seq<char>) -> BareKind {
    if !is_number_text(text) {
        BareKind::Word
    } else if has_prefix(text, 'x') {
        match parse_int(strip_underscores(text.skip(2)), 16) {
            Some(v) => BareKind::Int(v),
            None => BareKind::Word,
        }
    } else if has_prefix(text, 'b') {
        match parse_int(strip_underscores(text.skip(2)), 2) {
            Some(v) => BareKind::Int(v),
            None => BareKind::Word,
        }
    } else if text.contains('.') {
        BareKind::FloatForm
    } else {
        match parse_int(strip_underscores(text), 10) {
            Some(v) => BareKind::Int(v),
            None => BareKind::Word,
        }
    }
}

/// Whether `token` is a token that the piece `lexeme` can give.
pub open spec fn token_matches(token: TokenView, lexeme: Lexeme) -> bool {
    if lexeme.quoted {
        token == TokenView::String(lexeme.location, lexeme.text)
    } else {
        match classify(lexeme.text) {
            BareKind::Int(v) => token == TokenView::Number(lexeme.location, NumberType::Int(v)),
            BareKind::Word => token == TokenView::Word(lexeme.location, lexeme.text),
            BareKind::FloatForm => token == TokenView::Word(lexeme.location, lexeme.text) || (
            token matches TokenView::Number(l, NumberType::Float(_)) && l == lexeme.location),
        }
    }
}

/// Putting two texts before a third, one after the other or at once, gives
/// the same.
pub proof fn lemma_prepend_twice(acc: Seq<char>, head: Seq<char>, tail: Option<(Seq<char>, int)>)
    ensures
        prepend(acc, prepend(head, tail)) == prepend(acc + head, tail),
{
    match tail {
        Some((rest, end)) => {
            assert(acc + (head + rest) =~= (acc + head) + rest);
        },
        None => {},
    }
}

/// The end of a run of whitespace lies between its start and the end of the text.
pub proof fn lemma_skip_whitespace_bounds(s: Seq<char>, i: int)
    requires
        0 <= i <= s.len(),
    ensures
        i <= skip_whitespace_end(s, i) <= s.len(),
        skip_whitespace_end(s, i) < s.len() ==> !is_whitespace_char(s[skip_whitespace_end(s, i)]),
    decreases s.len() - i,
{
    if i < s.len() && is_whitespace_char(s[i]) {
        lemma_skip_whitespace_bounds(s, i + 1);
    }
}

/// The end of a word lies between its start and the end of the text.
pub proof fn lemma_word_end_bounds(s: Seq<char>, i: int)
    requires
        0 <= i <= s.len(),
    ensures
        i <= word_end(s, i) <= s.len(),
        i < s.len() && !is_whitespace_char(s[i]) ==> i < word_end(s, i),
    decreases s.len() - i,
{
    if i < s.len() && !is_whitespace_char(s[i]) {
        lemma_word_end_bounds(s, i + 1);
    }
}

/// The failure of the tokenizer at the string that starts at `location`.
fn literal_error<T>(location: &SourceLocation, message: &str) -> (r: Result<T>)
    ensures
        r is Err,
        r->Err_0@ == (ErrorView {
            location: Some(location@),
            error: message@,
            call_stack: None,
        }),
{
    ScriptError::new_as_result(Some(location.clone()), String::from_str(message), None)
}

fn peek(
    buffer: &mut SourceBuffer,
    Ghost(s): Ghost<Seq<char>>,
    Ghost(start): Ghost<LocationView>,
    Ghost(i): Ghost<int>,
) -> (r: Option<char>)
    requires
        tracks(*old(buffer), s, start, i),
    ensures
        *final(buffer) == *old(buffer),
        r == if i < s.len() {
            Some(s[i])
        } else {
            None
        },
{
    buffer.peek_next()
}

fn read(
    buffer: &mut SourceBuffer,
    Ghost(s): Ghost<Seq<char>>,
    Ghost(start): Ghost<LocationView>,
    Ghost(i): Ghost<int>,
) -> (r: Option<char>)
    requires
        tracks(*old(buffer), s, start, i),
    ensures
        i < s.len() ==> r == Some(s[i]) && tracks(*final(buffer), s, start, i + 1),
        i >= s.len() ==> r is None && *final(buffer) == *old(buffer),
{
    proof {
        if i < s.len() {
            lemma_loc_step(s, start, i);
            assert(s.skip(i).skip(1) == s.skip(i + 1));
        }
    }
    buffer.next()
}

/// Reads whitespace up to the next character that is none.
fn skip_whitespace(
    buffer: &mut SourceBuffer,
    Ghost(s): Ghost<Seq<char>>,
    Ghost(start): Ghost<LocationView>,
    Ghost(i): Ghost<int>,
)
    requires
        tracks(*old(buffer), s, start, i),
    ensures
        tracks(*final(buffer), s, start, skip_whitespace_end(s, i)),
{
    let ghost mut j = i;
    let mut more = true;
    while more
        invariant
            tracks(*buffer, s, start, j),
            skip_whitespace_end(s, i) == skip_whitespace_end(s, j),
            !more ==> j == skip_whitespace_end(s, j),
        decreases
                s.len() - j + if more {
                    1int
                } else {
                    0int
                },
    {
        match peek(buffer, Ghost(s), Ghost(start), Ghost(j)) {
            Some(c) => {
                if is_whitespace(&c) {
                    let _ = read(buffer, Ghost(s), Ghost(start), Ghost(j));
                    proof {
                        j = j + 1;
                    }
                } else {
                    more = false;
                }
            },
            None => {
                more = false;
            },
        }
    }
}

/// Reads whitespace up to the next character that is none or that stands at
/// or past the given column.
fn skip_whitespace_until_column(
    buffer: &mut SourceBuffer,
    target_column: u32,
    Ghost(s): Ghost<Seq<char>>,
    Ghost(start): Ghost<LocationView>,
    Ghost(i): Ghost<int>,
)
    requires
        tracks(*old(buffer), s, start, i),
    ensures
        tracks(*final(buffer), s, start, indent_end(s, start, i, target_column as nat)),
        i <= indent_end(s, start, i, target_column as nat),
{
    let ghost mut j = i;
    let mut more = true;
    while more
        invariant
            tracks(*buffer, s, start, j),
            i <= j,
            indent_end(s, start, i, target_column as nat) == indent_end(
                s,
                start,
                j,
                target_column as nat,
            ),
            !more ==> j == indent_end(s, start, j, target_column as nat),
        decreases
                s.len() - j + if more {
                    1int
                } else {
                    0int
                },
    {
        match peek(buffer, Ghost(s), Ghost(start), Ghost(j)) {
            Some(c) => {
                if is_whitespace(&c) && buffer.location().column() < target_column {
                    let _ = read(buffer, Ghost(s), Ghost(start), Ghost(j));
                    proof {
                        j = j + 1;
                    }
                } else {
                    more = false;
                }
            },
            None => {
                more = false;
            },
        }
    }
}

fn escaped(c: char) -> (r: char)
    ensures
        r == escape_value(c),
{
    if c == 'n' {
        '\n'
    } else if c == 'r' {
        '\r'
    } else if c == 't' {
        '\t'
    } else if c == '0' {
        '\0'
    } else {
        c
    }
}

/// Reads an escape sequence, whose backslash is the next character, and gives
/// the character that it stands for.
fn process_literal(
    location: &SourceLocation,
    buffer: &mut SourceBuffer,
    Ghost(s): Ghost<Seq<char>>,
    Ghost(start): Ghost<LocationView>,
    Ghost(i): Ghost<int>,
) -> (r: Result<char>)
    requires
        tracks(*old(buffer), s, start, i),
        i < s.len(),
    ensures
        i + 1 < s.len() ==> r == Ok::<char, ScriptError>(escape_value(s[i + 1])) && tracks(
            *final(buffer),
            s,
            start,
            i + 2,
        ),
        i + 1 >= s.len() ==> r is Err && r->Err_0@.location == Some(location@),
{
    let _ = read(buffer, Ghost(s), Ghost(start), Ghost(i));
    match read(buffer, Ghost(s), Ghost(start), Ghost(i + 1)) {
        Some(c) => Ok(escaped(c)),
        None => literal_error(location, "Unexpected end of file in string literal."),
    }
}

fn append_newlines(text: &mut String, count: u32)
    ensures
        final(text)@ == old(text)@ + newlines(count as nat),
{
    let mut k: u32 = 0;
    assert(old(text)@ + newlines(0) =~= old(text)@);
    while k < count
        invariant
            k <= count,
            text@ == old(text)@ + newlines(k as nat),
        decreases count - k,
    {
        push_char(text, '\n');
        k += 1;
        assert(old(text)@ + newlines(k as nat) =~= (old(text)@ + newlines((k - 1) as nat)).push(
            '\n',
        ));
    }
}

/// Reads a multi-line string, whose `*` is the next character, up to and with
/// its closing `*"`.
#[verifier::loop_isolation(false)]
fn process_multi_line_string(
    location: &SourceLocation,
    buffer: &mut SourceBuffer,
    Ghost(s): Ghost<Seq<char>>,
    Ghost(start): Ghost<LocationView>,
    Ghost(i): Ghost<int>,
) -> (r: Result<String>)
    requires
        tracks(*old(buffer), s, start, i),
        i < s.len(),
    ensures
        match multi_line_string(s, start, i) {
            Some((text, end)) => r is Ok && r->Ok_0@ == text && i < end && tracks(
                *final(buffer),
                s,
                start,
                end,
            ),
            None => r is Err && r->Err_0@.location == Some(location@),
        },
{
    let _ = read(buffer, Ghost(s), Ghost(start), Ghost(i));
    skip_whitespace(buffer, Ghost(s), Ghost(start), Ghost(i + 1));
    let ghost first = skip_whitespace_end(s, i + 1);
    proof {
        lemma_skip_whitespace_bounds(s, i + 1);
    }
    let target_column = buffer.location().column();
    let ghost target = target_column as nat;
    let mut text = String::new();
    let ghost mut j = first;
    let mut more = true;
    proof {
        lemma_prepend_twice(Seq::empty(), Seq::empty(), multi_line_body(s, start, j, target));
        assert(Seq::<char>::empty() + Seq::<char>::empty() =~= Seq::<char>::empty());
        assert(prepend(Seq::empty(), multi_line_body(s, start, j, target)) == multi_line_body(
            s,
            start,
            j,
            target,
        )) by {
            match multi_line_body(s, start, j, target) {
                Some((rest, end)) => {
                    assert(Seq::<char>::empty() + rest =~= rest);
                },
                None => {},
            }
        }
    }
    while more
        invariant
            tracks(*buffer, s, start, j),
            first <= j,
            i < first,
            target == target_column as nat,
            more ==> multi_line_body(s, start, first, target) == prepend(
                text@,
                multi_line_body(s, start, j, target),
            ),
            !more ==> multi_line_body(s, start, first, target) == Some((text@, j)),
        decreases
                s.len() - j + if more {
                    1int
                } else {
                    0int
                },
    {
        let ghost before = text@;
        match peek(buffer, Ghost(s), Ghost(start), Ghost(j)) {
            None => {
                return literal_error(location, "Unexpected end of file in string literal.");
            },
            Some(c) => {
                if c == '\\' {
                    match process_literal(location, buffer, Ghost(s), Ghost(start), Ghost(j)) {
                        Ok(v) => {
                            push_char(&mut text, v);
                            proof {
                                lemma_prepend_twice(
                                    before,
                                    seq![v],
                                    multi_line_body(s, start, j + 2, target),
                                );
                                assert(before + seq![v] =~= before.push(v));
                                j = j + 2;
                            }
                        },
                        Err(e) => {
                            return Err(e);
                        },
                    }
                } else {
                    let _ = read(buffer, Ghost(s), Ghost(start), Ghost(j));
                    if c == '*' {
                        match peek(buffer, Ghost(s), Ghost(start), Ghost(j + 1)) {
                            None => {
                                return literal_error(
                                    location,
                                    "Unexpected end of file in string literal.",
                                );
                            },
                            Some(quote) => {
                                if quote == '"' {
                                    let _ = read(buffer, Ghost(s), Ghost(start), Ghost(j + 1));
                                    proof {
                                        assert(before + Seq::<char>::empty() =~= before);
                                        j = j + 2;
                                    }
                                    more = false;
                                } else {
                                    push_char(&mut text, '*');
                                    proof {
                                        lemma_prepend_twice(
                                            before,
                                            seq!['*'],
                                            multi_line_body(s, start, j + 1, target),
                                        );
                                        assert(before + seq!['*'] =~= before.push('*'));
                                        j = j + 1;
                                    }
                                }
                            },
                        }
                    } else if c == '\n' {
                        push_char(&mut text, '\n');
                        let start_line = buffer.location().line();
                        skip_whitespace_until_column(
                            buffer,
                            target_column,
                            Ghost(s),
                            Ghost(start),
                            Ghost(j + 1),
                        );
                        let ghost next = indent_end(s, start, j + 1, target);
                        match peek(buffer, Ghost(s), Ghost(start), Ghost(next)) {
                            None => {
                                return literal_error(
                                    location,
                                    "Unexpected end of file in string literal.",
                                );
                            },
                            Some(_) => {},
                        }
                        let current_line = buffer.location().line();
                        if current_line > start_line {
                            append_newlines(&mut text, current_line - start_line);
                        }
                        proof {
                            let blank: nat = if current_line > start_line {
                                (current_line - start_line) as nat
                            } else {
                                0
                            };
                            assert(newlines(0) =~= Seq::<char>::empty());
                            assert(text@ =~= before + (seq!['\n'] + newlines(blank)));
                            lemma_prepend_twice(
                                before,
                                seq!['\n'] + newlines(blank),
                                multi_line_body(s, start, next, target),
                            );
                            j = next;
                        }
                    } else {
                        push_char(&mut text, c);
                        proof {
                            lemma_prepend_twice(
                                before,
                                seq![c],
                                multi_line_body(s, start, j + 1, target),
                            );
                            assert(before + seq![c] =~= before.push(c));
                            j = j + 1;
                        }
                    }
                }
            },
        }
    }
    Ok(text)
}

/// Reads the string literal that a text starts with, and gives the string
/// that it stands for. Fails where the text is empty and where the literal
/// is not closed. It undoes `Value::stringify`.
pub fn read_literal(path: &String, literal: &String) -> (r: Result<String>)
    ensures
        literal@.len() == 0 ==> r is Err,
        literal@.len() > 0 ==> match string_literal(literal@, start_of(path@), 0) {
            Some((text, end)) => r is Ok && r->Ok_0@ == text,
            None => r is Err,
        },
        forall|text: Seq<char>| literal@ == stringified(text) ==> r is Ok && r->Ok_0@ == text,
{
    let mut buffer = SourceBuffer::new(path, literal);
    let ghost s = literal@;
    let ghost start = start_of(path@);
    proof {
        assert(s.skip(0) =~= s);
        assert forall|text: Seq<char>| s == stringified(text) implies s.len() > 0
            && string_literal(s, start, 0) == Some((text, s.len() as int)) by {
            crate::lang::rendering::lemma_stringify_round_trip(
                Seq::empty(),
                text,
                Seq::empty(),
                start,
            );
            assert(Seq::<char>::empty() + stringified(text) + Seq::<char>::empty() =~= s);
        }
    }
    if buffer.peek_next().is_none() {
        return Err(ScriptError::new(None, String::from_str("There is no literal to read."), None));
    }
    match process_string(&mut buffer, Ghost(s), Ghost(start), Ghost(0)) {
        Ok((_, text)) => Ok(text),
        Err(e) => Err(e),
    }
}

/// Reads a string, whose opening quote is the next character, and gives its
/// text with the location of that quote.
#[verifier::loop_isolation(false)]
pub fn process_string(
    buffer: &mut SourceBuffer,
    Ghost(s): Ghost<Seq<char>>,
    Ghost(start): Ghost<LocationView>,
    Ghost(i): Ghost<int>,
) -> (r: Result<(SourceLocation, String)>)
    requires
        tracks(*old(buffer), s, start, i),
        i < s.len(),
    ensures
        match string_literal(s, start, i) {
            Some((text, end)) => {
                &&& r is Ok
                &&& r->Ok_0.0@ == loc_at(s, start, i)
                &&& r->Ok_0.1@ == text
                &&& i < end
                &&& tracks(*final(buffer), s, start, end)
            },
            None => r is Err && r->Err_0@.location == Some(loc_at(s, start, i)),
        },
{
    let location = buffer.location().clone();
    let _ = read(buffer, Ghost(s), Ghost(start), Ghost(i));
    let multi_line = match peek(buffer, Ghost(s), Ghost(start), Ghost(i + 1)) {
        Some(c) => c == '*',
        None => false,
    };
    if multi_line {
        return match process_multi_line_string(
            &location,
            buffer,
            Ghost(s),
            Ghost(start),
            Ghost(i + 1),
        ) {
            Ok(text) => Ok((location, text)),
            Err(e) => Err(e),
        };
    }
    let mut text = String::new();
    let ghost mut j = i + 1;
    let mut more = true;
    proof {
        assert(prepend(Seq::empty(), string_body(s, j)) == string_body(s, j)) by {
            match string_body(s, j) {
                Some((rest, end)) => {
                    assert(Seq::<char>::empty() + rest =~= rest);
                },
                None => {},
            }
        }
    }
    while more
        invariant
            tracks(*buffer, s, start, j),
            i < j,
            location@ == loc_at(s, start, i),
            more ==> string_body(s, i + 1) == prepend(text@, string_body(s, j)),
            !more ==> string_body(s, i + 1) == Some((text@, j)),
        decreases
                s.len() - j + if more {
                    1int
                } else {
                    0int
                },
    {
        let ghost before = text@;
        match peek(buffer, Ghost(s), Ghost(start), Ghost(j)) {
            None => {
                return literal_error(&location, "Unexpected end of file in string literal.");
            },
            Some(c) => {
                if c == '"' {
                    let _ = read(buffer, Ghost(s), Ghost(start), Ghost(j));
                    proof {
                        assert(before + Seq::<char>::empty() =~= before);
                        j = j + 1;
                    }
                    more = false;
                } else if c == '\n' {
                    return literal_error(&location, "Unexpected new line in string literal.");
                } else if c == '\\' {
                    match process_literal(&location, buffer, Ghost(s), Ghost(start), Ghost(j)) {
                        Ok(v) => {
                            push_char(&mut text, v);
                            proof {
                                lemma_prepend_twice(before, seq![v], string_body(s, j + 2));
                                assert(before + seq![v] =~= before.push(v));
                                j = j + 2;
                            }
                        },
                        Err(e) => {
                            return Err(e);
                        },
                    }
                } else {
                    let _ = read(buffer, Ghost(s), Ghost(start), Ghost(j));
                    push_char(&mut text, c);
                    proof {
                        lemma_prepend_twice(before, seq![c], string_body(s, j + 1));
                        assert(before + seq![c] =~= before.push(c));
                        j = j + 1;
                    }
                }
            },
        }
    }
    Ok((location, text))
}

/// Reads up to the next whitespace, and gives what was read with the location
/// of its first character.
#[verifier::loop_isolation(false)]
fn process_until_whitespace(
    buffer: &mut SourceBuffer,
    Ghost(s): Ghost<Seq<char>>,
    Ghost(start): Ghost<LocationView>,
    Ghost(i): Ghost<int>,
) -> (r: (SourceLocation, String))
    requires
        tracks(*old(buffer), s, start, i),
    ensures
        r.0@ == loc_at(s, start, i),
        r.1@ == s.subrange(i, word_end(s, i)),
        tracks(*final(buffer), s, start, word_end(s, i)),
{
    let location = buffer.location().clone();
    let mut text = String::new();
    let ghost mut j = i;
    let mut more = true;
    assert(s.subrange(i, i) =~= Seq::<char>::empty());
    while more
        invariant
            tracks(*buffer, s, start, j),
            i <= j,
            text@ == s.subrange(i, j),
            word_end(s, i) == word_end(s, j),
            !more ==> j == word_end(s, j),
        decreases
                s.len() - j + if more {
                    1int
                } else {
                    0int
                },
    {
        match peek(buffer, Ghost(s), Ghost(start), Ghost(j)) {
            Some(c) => {
                if !is_whitespace(&c) {
                    let _ = read(buffer, Ghost(s), Ghost(start), Ghost(j));
                    push_char(&mut text, c);
                    proof {
                        assert(s.subrange(i, j + 1) =~= s.subrange(i, j).push(c));
                        j = j + 1;
                    }
                } else {
                    more = false;
                }
            },
            None => {
                more = false;
            },
        }
    }
    (location, text)
}

/// Whether a text has the form of a number.
#[verifier::loop_isolation(false)]
pub fn is_number(text: &String) -> (r: bool)
    ensures
        r == is_number_text(text@),
{
    let chars = chars_of(text.as_str());
    if chars.len() == 0 {
        return false;
    }
    if chars.len() >= 2 && chars[0] == '0' && (chars[1] == 'x' || chars[1] == 'b') {
        return true;
    }
    let mut k: usize = 0;
    while k < chars.len()
        invariant
            k <= chars@.len(),
            forall|m: int| 0 <= m < k ==> is_number_char(#[trigger] chars@[m]),
        decreases chars@.len() - k,
    {
        let c = chars[k];
        let ok = digit_of(c, 16).is_some() || c == '.' || c == '-' || c == 'e' || c == 'E' || c
            == '_';
        if !ok {
            assert(!is_number_char(chars@[k as int]));
            return false;
        }
        k += 1;
    }
    true
}

/// The characters from `from` on, without the underscores.
fn without_underscores(chars: &Vec<char>, from: usize) -> (r: Vec<char>)
    requires
        from <= chars@.len(),
    ensures
        r@ == strip_underscores(chars@.skip(from as int)),
{
    let ghost s = chars@.skip(from as int);
    let mut out: Vec<char> = Vec::new();
    let mut k: usize = from;
    assert(s.take(0) =~= Seq::<char>::empty());
    while k < chars.len()
        invariant
            from <= k <= chars@.len(),
            s == chars@.skip(from as int),
            out@ == strip_underscores(s.take(k - from)),
        decreases chars@.len() - k,
    {
        let c = chars[k];
        assert(s.take(k - from + 1).drop_last() =~= s.take(k - from));
        assert(s.take(k - from + 1).last() == c);
        if c != '_' {
            out.push(c);
        }
        k += 1;
    }
    assert(s.take(chars@.len() - from) =~= s);
    out
}

fn contains_point(chars: &Vec<char>) -> (r: bool)
    ensures
        r == chars@.contains('.'),
{
    let mut k: usize = 0;
    while k < chars.len()
        invariant
            k <= chars@.len(),
            forall|m: int| 0 <= m < k ==> chars@[m] != '.',
        decreases chars@.len() - k,
    {
        if chars[k] == '.' {
            return true;
        }
        k += 1;
    }
    false
}

/// The number that a text of the form of a number denotes, if it denotes one.
/// A text with a `.` in it is left to the host.
pub fn to_numeric<H: Host>(host: &H, text: &String) -> (r: Option<NumberType>)
    requires
        is_number_text(text@),
    ensures
        match classify(text@) {
            BareKind::Int(v) => r == Some(NumberType::Int(v)),
            BareKind::Word => r is None,
            BareKind::FloatForm => r is None || r matches Some(NumberType::Float(_)),
        },
{
    let chars = chars_of(text.as_str());
    let prefixed = chars.len() >= 2 && chars[0] == '0';
    if prefixed && chars[1] == 'x' {
        let digits = without_underscores(&chars, 2);
        assert(digits@.skip(0) =~= digits@);
        match parse_int_chars(&digits, 0, 16) {
            Some(v) => Some(NumberType::Int(v)),
            None => None,
        }
    } else if prefixed && chars[1] == 'b' {
        let digits = without_underscores(&chars, 2);
        assert(digits@.skip(0) =~= digits@);
        match parse_int_chars(&digits, 0, 2) {
            Some(v) => Some(NumberType::Int(v)),
            None => None,
        }
    } else if contains_point(&chars) {
        let digits = without_underscores(&chars, 0);
        match host.float_parse(&string_of(&digits)) {
            Some(bits) => Some(NumberType::Float(bits)),
            None => None,
        }
    } else {
        let digits = without_underscores(&chars, 0);
        assert(chars@.skip(0) =~= chars@);
        assert(digits@.skip(0) =~= digits@);
        match parse_int_chars(&digits, 0, 10) {
            Some(v) => Some(NumberType::Int(v)),
            None => None,
        }
    }
}

/// The location at which the text at `path` starts.
pub open spec fn start_of(path: Seq<char>) -> LocationView {
    LocationView { path, line: 1, column: 1 }
}

/// Reads the next token, if the text holds one more.
fn next_token<H: Host>(
    host: &H,
    buffer: &mut SourceBuffer,
    Ghost(s): Ghost<Seq<char>>,
    Ghost(start): Ghost<LocationView>,
    Ghost(i): Ghost<int>,
) -> (r: Result<Option<Token>>)
    requires
        tracks(*old(buffer), s, start, i),
    ensures
        match next_lexeme(s, start, i) {
            None => r is Err && r->Err_0@.location is Some,
            Some(None) => r is Ok && r->Ok_0 is None,
            Some(Some((piece, end))) => {
                &&& r is Ok
                &&& r->Ok_0 is Some
                &&& token_matches(r->Ok_0->0@, piece)
                &&& i < end
                &&& tracks(*final(buffer), s, start, end)
            },
        },
{
    skip_whitespace(buffer, Ghost(s), Ghost(start), Ghost(i));
    let ghost j = skip_whitespace_end(s, i);
    proof {
        lemma_skip_whitespace_bounds(s, i);
    }
    match peek(buffer, Ghost(s), Ghost(start), Ghost(j)) {
        None => Ok(None),
        Some(next) => {
            if next == '"' {
                match process_string(buffer, Ghost(s), Ghost(start), Ghost(j)) {
                    Ok((location, text)) => Ok(Some(Token::String(location, text))),
                    Err(e) => Err(e),
                }
            } else {
                let (location, text) = process_until_whitespace(
                    buffer,
                    Ghost(s),
                    Ghost(start),
                    Ghost(j),
                );
                proof {
                    lemma_word_end_bounds(s, j);
                }
                if is_number(&text) {
                    match to_numeric(host, &text) {
                        Some(number) => Ok(Some(Token::Number(location, number))),
                        None => Ok(Some(Token::Word(location, text))),
                    }
                } else {
                    Ok(Some(Token::Word(location, text)))
                }
            }
        },
    }
}

/// Reads the file at `path`, by the host, and splits its text into tokens.
/// Fails where the host cannot read the file, and where a string of the text
/// is not closed.
pub fn tokenize_from_file<H: Host>(host: &mut H, path: &String) -> (r: Result<TokenList>)
    ensures
        r is Ok ==> exists|source: Seq<char>| tokenized(path@, source, r),
{
    let read = host.read_file(path);
    let tokens = tokenize_file_text(host, path, read);
    proof {
        if tokens is Ok {
            assert(tokenized(path@, read->Ok_0@, tokens));
        }
    }
    tokens
}

/// Whether `r` is what tokenizing the source gives: the tokens of its
/// pieces, in order, or an error with a location where a string of the
/// source is not closed.
pub open spec fn tokenized(path: Seq<char>, source: Seq<char>, r: Result<TokenList>) -> bool {
    match lexemes(source, start_of(path), 0) {
        Some(pieces) => {
            &&& r is Ok
            &&& r->Ok_0@.len() == pieces.len()
            &&& forall|k: int|
                0 <= k < pieces.len() ==> token_matches(#[trigger] r->Ok_0@[k]@, pieces[k])
        },
        None => r is Err && r->Err_0@.location is Some,
    }
}

/// The tokens of a file, given what reading the file at `path` came to: the
/// tokens of the text that was read, or an error that names the path and
/// says why the file could not be read.
pub fn tokenize_file_text<H: Host>(
    host: &H,
    path: &String,
    read: core::result::Result<String, String>,
) -> (r: Result<TokenList>)
    ensures
        match read {
            Ok(source) => tokenized(path@, source@, r),
            Err(message) => r is Err && r->Err_0@ == (crate::runtime::error::ErrorView {
                location: None,
                error: "Could not read file "@ + path@ + ": "@ + message@,
                call_stack: None,
            }),
        },
{
    match read {
        Ok(source) => tokenize_from_source(host, path, &source),
        Err(message) => {
            let mut text = crate::text::concat3("Could not read file ", path.as_str(), ": ");
            text.append(message.as_str());
            ScriptError::new_as_result(None, text, None)
        },
    }
}

/// Splits a source text into tokens.
///
/// The text is cut at whitespace into pieces, a string from its opening quote
/// to its closing one being one piece. Each piece gives one token, in order:
/// a string gives a string token, a piece of the form of a number that
/// denotes one gives a number token, and any other piece a word. The call
/// fails where a string is not closed.
pub fn tokenize_from_source<H: Host>(host: &H, path: &String, source: &String) -> (r: Result<
    TokenList,
>)
    ensures
        tokenized(path@, source@, r),
{
    let mut buffer = SourceBuffer::new(path, source);
    let ghost s = source@;
    let ghost start = start_of(path@);
    let mut token_list: Vec<Token> = Vec::new();
    let ghost mut done: Seq<Lexeme> = Seq::empty();
    let ghost mut i: int = 0;
    let mut more = true;
    proof {
        assert(s.skip(0) =~= s);
        assert(s.take(0) =~= Seq::<char>::empty());
        match lexemes(s, start, 0) {
            Some(rest) => {
                assert(done + rest =~= rest);
            },
            None => {},
        }
    }
    while more
        invariant
            s == source@,
            start == start_of(path@),
            0 <= i <= s.len(),
            more ==> tracks(buffer, s, start, i),
            token_list@.len() == done.len(),
            forall|k: int| 0 <= k < done.len() ==> token_matches(#[trigger] token_list@[k]@, done[k]),
            more ==> lexemes(s, start, 0) == match lexemes(s, start, i) {
                Some(rest) => Some(done + rest),
                None => None,
            },
            !more ==> lexemes(s, start, 0) == Some(done),
        decreases
                s.len() - i + if more {
                    1int
                } else {
                    0int
                },
    {
        match next_token(host, &mut buffer, Ghost(s), Ghost(start), Ghost(i)) {
            Err(e) => {
                return Err(e);
            },
            Ok(None) => {
                proof {
                    assert(done + Seq::<Lexeme>::empty() =~= done);
                }
                more = false;
            },
            Ok(Some(token)) => {
                token_list.push(token);
                proof {
                    let found = next_lexeme(s, start, i)->0->0;
                    let piece = found.0;
                    let end = found.1;
                    match lexemes(s, start, end) {
                        Some(rest) => {
                            assert(done + (seq![piece] + rest) =~= done.push(piece) + rest);
                        },
                        None => {},
                    }
                    done = done.push(piece);
                    i = end;
                }
            },
        }
    }
    Ok(token_list)
}

} // verus!
