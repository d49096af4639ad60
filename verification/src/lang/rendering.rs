//! The text of tokens as source, and the laws that tie it to the tokenizer.

use vstd::prelude::*;
use vstd::string::StringExecFns;
use crate::lang::source_buffer::LocationView;
use crate::lang::tokenizing::classify;
use crate::lang::tokenizing::escape_value;
use crate::lang::tokenizing::has_prefix;
use crate::lang::tokenizing::is_number_char;
use crate::lang::tokenizing::is_number_text;
use crate::lang::tokenizing::is_whitespace_char;
use crate::lang::tokenizing::lemma_skip_whitespace_bounds;
use crate::lang::tokenizing::lemma_word_end_bounds;
use crate::lang::tokenizing::lexemes;
use crate::lang::tokenizing::next_lexeme;
use crate::lang::tokenizing::skip_whitespace_end;
use crate::lang::tokenizing::string_body;
use crate::lang::tokenizing::string_literal;
use crate::lang::tokenizing::strip_underscores;
use crate::lang::tokenizing::token_matches;
use crate::lang::tokenizing::word_end;
use crate::lang::tokenizing::BareKind;
use crate::lang::tokenizing::NumberType;
use crate::lang::tokenizing::Token;
use crate::lang::tokenizing::TokenView;
use crate::runtime::data_structures::value::escape_char;
use crate::runtime::data_structures::value::escape_from;
use crate::runtime::data_structures::value::stringified;
use crate::runtime::data_structures::value::Value;
use crate::text::digit_value;
use crate::text::int_text;
use crate::text::int_to_string;
use crate::text::lemma_nat_digits_value;
use crate::text::lemma_parse_int_text;
use crate::text::nat_digits;

verus! {

/// What a token says, without its location: an integer, the text of a
/// string, or a word.
pub enum Literal {
    Int(i64),
    String(Seq<char>),
    Word(Seq<char>),
}

/// What a token says, where it is no floating point number.
pub open spec fn literal_of(token: TokenView) -> Option<Literal> {
    match token {
        TokenView::Number(_, NumberType::Int(value)) => Some(Literal::Int(value)),
        TokenView::Number(_, NumberType::Float(_)) => None,
        TokenView::String(_, text) => Some(Literal::String(text)),
        TokenView::Word(_, text) => Some(Literal::Word(text)),
    }
}

/// Whether a text can be written as a word: it is not empty, holds no
/// whitespace, does not start with a quote, and is no number.
pub open spec fn is_word_text(text: Seq<char>) -> bool {
    &&& text.len() > 0
    &&& text[0] != '"'
    &&& forall|i: int| 0 <= i < text.len() ==> !is_whitespace_char(#[trigger] text[i])
    &&& classify(text) == BareKind::Word
}

/// Whether what a token says can be written as source.
pub open spec fn is_writable(literal: Literal) -> bool {
    match literal {
        Literal::Word(text) => is_word_text(text),
        _ => true,
    }
}

/// The source text of what a token says: the decimal notation of an
/// integer, a string as a literal, a word as it is.
pub open spec fn literal_text(literal: Literal) -> Seq<char> {
    match literal {
        Literal::Int(value) => int_text(value as int),
        Literal::String(text) => stringified(text),
        Literal::Word(text) => text,
    }
}

/// The source text of a sequence of tokens: the text of each, followed by a
/// space.
pub open spec fn render(literals: Seq<Literal>) -> Seq<char>
    decreases literals.len(),
{
    if literals.len() == 0 {
        Seq::empty()
    } else {
        literal_text(literals[0]) + seq![' '] + render(literals.skip(1))
    }
}

/// The source text of the given tokens. The notation of a floating point
/// number is the host's.
pub fn render_tokens<H: crate::runtime::host::Host>(host: &H, tokens: &Vec<Token>) -> (r: String)
    ensures
        (forall|k: int| 0 <= k < tokens@.len() ==> literal_of(#[trigger] tokens@[k]@) is Some)
            ==> r@ == render(Seq::new(tokens@.len(), |k: int| literal_of(tokens@[k]@)->0)),
{
    let ghost literals = Seq::new(tokens@.len(), |k: int| literal_of(tokens@[k]@)->0);
    let ghost plain = forall|k: int|
        0 <= k < tokens@.len() ==> literal_of(#[trigger] tokens@[k]@) is Some;
    let mut reversed = String::new();
    let mut out = String::new();
    let mut index: usize = tokens.len();
    let mut parts: Vec<String> = Vec::new();
    let mut k: usize = 0;
    while k < tokens.len()
        invariant
            k <= tokens@.len(),
            parts@.len() == k,
            literals == Seq::new(tokens@.len(), |j: int| literal_of(tokens@[j]@)->0),
            forall|j: int|
                0 <= j < k && literal_of(tokens@[j]@) is Some ==> (#[trigger] parts@[j])@
                    == literal_text(literals[j]),
        decreases tokens@.len() - k,
    {
        let text = match &tokens[k] {
            Token::Number(_, NumberType::Int(value)) => int_to_string(*value),
            Token::Number(_, NumberType::Float(bits)) => host.float_to_string(*bits),
            Token::String(_, text) => Value::stringify(text),
            Token::Word(_, text) => text.clone(),
        };
        parts.push(text);
        k += 1;
    }
    let mut index: usize = parts.len();
    assert(literals.skip(index as int) =~= Seq::<Literal>::empty());
    while index > 0
        invariant
            index <= parts@.len(),
            parts@.len() == tokens@.len(),
            literals.len() == tokens@.len(),
            plain ==> forall|j: int|
                0 <= j < parts@.len() ==> (#[trigger] parts@[j])@ == literal_text(literals[j]),
            plain ==> out@ == render(literals.skip(index as int)),
        decreases index,
    {
        index -= 1;
        let mut next = parts[index].clone();
        next.append(" ");
        next.append(out.as_str());
        proof {
            reveal_strlit(" ");
            assert(" "@ =~= seq![' ']);
            if plain {
                let rest = literals.skip(index as int);
                assert(rest[0] == literals[index as int]);
                assert(rest.skip(1) =~= literals.skip(index + 1));
                assert(parts@[index as int]@ == literal_text(literals[index as int]));
                assert(next@ =~= literal_text(rest[0]) + seq![' '] + render(rest.skip(1)));
            }
        }
        out = next;
    }
    assert(literals.skip(0) =~= literals);
    out
}

/// The text of a string literal is read back as the string, whatever stands
/// before and after the literal: reading the escaped form of the characters
/// from index `i` on, and the closing quote, gives these characters.
pub proof fn lemma_escaped_body(before: Seq<char>, text: Seq<char>, i: int, after: Seq<char>)
    requires
        0 <= i <= text.len(),
    ensures
        string_body(
            before + escape_from(text, i) + seq!['"'] + after,
            before.len() as int,
        ) == Some(
            (text.skip(i), (before.len() + escape_from(text, i).len() + 1) as int),
        ),
    decreases text.len() - i,
{
    let s = before + escape_from(text, i) + seq!['"'] + after;
    let p = before.len() as int;
    if i >= text.len() {
        assert(escape_from(text, i) =~= Seq::<char>::empty());
        assert(s[p] == '"');
        assert(text.skip(i) =~= Seq::<char>::empty());
    } else {
        let c = text[i];
        let escaped: Seq<char> = if i == 0 && c == '*' {
            seq!['\\', '*']
        } else {
            escape_char(c)
        };
        let rest = escape_from(text, i + 1);
        assert(escape_from(text, i) == escaped + rest);
        let longer = before + escaped;
        assert(s =~= longer + rest + seq!['"'] + after);
        lemma_escaped_body(longer, text, i + 1, after);
        assert(text.skip(i) =~= seq![c] + text.skip(i + 1));
        if escaped.len() == 2 {
            assert(s[p] == '\\');
            assert(s[p + 1] == escaped[1]);
            assert(escape_value(escaped[1]) == c);
        } else {
            assert(escaped =~= seq![c]);
            assert(s[p] == c);
        }
    }
}

/// Unescaping undoes escaping: the literal that is written for a string,
/// read as a string literal, gives the string, and ends where the literal
/// ends.
pub proof fn lemma_stringify_round_trip(
    before: Seq<char>,
    text: Seq<char>,
    after: Seq<char>,
    start: LocationView,
)
    ensures
        string_literal(before + stringified(text) + after, start, before.len() as int) == Some(
            (text, (before.len() + stringified(text).len()) as int),
        ),
{
    let s = before + stringified(text) + after;
    let p = before.len() as int;
    let opened = before + seq!['"'];
    assert(s =~= opened + escape_from(text, 0) + seq!['"'] + after);
    lemma_escaped_body(opened, text, 0, after);
    assert(text.skip(0) =~= text);
    if text.len() == 0 {
        assert(escape_from(text, 0) =~= Seq::<char>::empty());
        assert(s[p + 1] == '"');
    } else {
        let c = text[0];
        let escaped: Seq<char> = if c == '*' {
            seq!['\\', '*']
        } else {
            escape_char(c)
        };
        assert(escape_from(text, 0) == escaped + escape_from(text, 1));
        assert(s[p + 1] == escaped[0]);
        assert(escaped[0] != '*');
    }
}

/// A text without underscores is itself without its underscores.
pub proof fn lemma_strip_nothing(text: Seq<char>)
    requires
        forall|i: int| 0 <= i < text.len() ==> text[i] != '_',
    ensures
        strip_underscores(text) == text,
    decreases text.len(),
{
    if text.len() > 0 {
        lemma_strip_nothing(text.drop_last());
        assert(text.drop_last().push(text.last()) =~= text);
    }
}

/// The decimal notation of an integer holds a minus sign and decimal digits
/// only, and is not empty.
pub proof fn lemma_int_text_chars(value: i64)
    ensures
        int_text(value as int).len() > 0,
        forall|i: int|
            0 <= i < int_text(value as int).len() ==> {
                let c = #[trigger] int_text(value as int)[i];
                c == '-' || ('0' <= c && c <= '9')
            },
{
    let s = int_text(value as int);
    if value < 0 {
        let digits = nat_digits((-value) as nat, 10);
        lemma_nat_digits_value((-value) as nat, 10);
        assert forall|i: int| 0 <= i < s.len() implies {
            let c = #[trigger] s[i];
            c == '-' || ('0' <= c && c <= '9')
        } by {
            if i > 0 {
                assert(s[i] == digits[i - 1]);
                assert(digit_value(digits[i - 1], 10) is Some);
            }
        }
    } else {
        lemma_nat_digits_value(value as nat, 10);
        assert forall|i: int| 0 <= i < s.len() implies {
            let c = #[trigger] s[i];
            c == '-' || ('0' <= c && c <= '9')
        } by {
            assert(digit_value(s[i], 10) is Some);
        }
    }
}

/// The decimal notation of an integer is read as that integer.
pub proof fn lemma_integer_round_trip(value: i64)
    ensures
        classify(int_text(value as int)) == BareKind::Int(value),
{
    let s = int_text(value as int);
    lemma_int_text_chars(value);
    lemma_parse_int_text(value);
    assert forall|k: int| 0 <= k < s.len() implies is_number_char(#[trigger] s[k]) by {
        let c = s[k];
        assert(c == '-' || ('0' <= c && c <= '9'));
        if c != '-' {
            assert(digit_value(c, 16) is Some);
        }
    }
    assert(is_number_text(s));
    if s.len() >= 2 {
        let c = s[1];
        assert(c == '-' || ('0' <= c && c <= '9'));
    }
    assert(!has_prefix(s, 'x'));
    assert(!has_prefix(s, 'b'));
    assert(!s.contains('.')) by {
        if s.contains('.') {
            let i = choose|i: int| 0 <= i < s.len() && s[i] == '.';
            let c = s[i];
            assert(c == '-' || ('0' <= c && c <= '9'));
        }
    }
    assert forall|i: int| 0 <= i < s.len() implies s[i] != '_' by {
        let c = s[i];
        assert(c == '-' || ('0' <= c && c <= '9'));
    }
    lemma_strip_nothing(s);
}

/// A run of characters that are no whitespace, followed by whitespace, ends
/// where the whitespace starts.
pub proof fn lemma_word_end_of_run(s: Seq<char>, i: int, count: int)
    requires
        0 <= i,
        0 <= count,
        i + count < s.len(),
        forall|k: int| i <= k < i + count ==> !is_whitespace_char(#[trigger] s[k]),
        is_whitespace_char(s[i + count]),
    ensures
        word_end(s, i) == i + count,
    decreases count,
{
    if count > 0 {
        assert(!is_whitespace_char(s[i]));
        lemma_word_end_of_run(s, i + 1, count - 1);
    }
}

/// The pieces of a text from a whitespace on are its pieces from the
/// character after the whitespace on.
pub proof fn lemma_lexemes_skip_space(s: Seq<char>, start: LocationView, i: int)
    requires
        0 <= i < s.len(),
        is_whitespace_char(s[i]),
    ensures
        lexemes(s, start, i) == lexemes(s, start, i + 1),
{
    lemma_skip_whitespace_bounds(s, i + 1);
    assert(skip_whitespace_end(s, i) == skip_whitespace_end(s, i + 1));
    assert(next_lexeme(s, start, i) == next_lexeme(s, start, i + 1));
    match next_lexeme(s, start, i) {
        Some(Some((piece, end))) => {
            let j = skip_whitespace_end(s, i);
            if s[j] == '"' {
                crate::lang::rendering::lemma_string_literal_end(s, start, j);
            } else {
                lemma_word_end_bounds(s, j);
            }
        },
        _ => {},
    }
}

/// The offset at which a text that was read ends.
pub open spec fn end_of(found: Option<(Seq<char>, int)>) -> int {
    match found {
        Some((_, end)) => end,
        None => 0,
    }
}

/// A string literal ends after its opening quote.
pub proof fn lemma_string_literal_end(s: Seq<char>, start: LocationView, j: int)
    requires
        0 <= j < s.len(),
    ensures
        string_literal(s, start, j) is Some ==> end_of(string_literal(s, start, j)) > j + 1,
{
    if j + 1 < s.len() && s[j + 1] == '*' {
        let first = skip_whitespace_end(s, j + 2);
        lemma_skip_whitespace_bounds(s, j + 2);
        lemma_multi_line_end(
            s,
            start,
            first,
            crate::lang::tokenizing::loc_at(s, start, first).column,
        );
    } else {
        lemma_string_body_end(s, j + 1);
    }
}

/// The body of a single-line string ends after its start.
pub proof fn lemma_string_body_end(s: Seq<char>, i: int)
    ensures
        string_body(s, i) is Some ==> end_of(string_body(s, i)) > i,
    decreases s.len() - i,
{
    if 0 <= i < s.len() && s[i] != '"' && s[i] != '\n' {
        if s[i] == '\\' {
            if i + 1 < s.len() {
                lemma_string_body_end(s, i + 2);
            }
        } else {
            lemma_string_body_end(s, i + 1);
        }
    }
}

/// The body of a multi-line string ends after its start.
pub proof fn lemma_multi_line_end(s: Seq<char>, start: LocationView, i: int, target: nat)
    ensures
        crate::lang::tokenizing::multi_line_body(s, start, i, target) is Some
            ==> end_of(crate::lang::tokenizing::multi_line_body(s, start, i, target)) > i,
    decreases s.len() - i,
{
    if 0 <= i < s.len() {
        if s[i] == '*' {
            if i + 1 < s.len() && s[i + 1] != '"' {
                lemma_multi_line_end(s, start, i + 1, target);
            }
        } else if s[i] == '\\' {
            if i + 1 < s.len() {
                lemma_multi_line_end(s, start, i + 2, target);
            }
        } else if s[i] == '\n' {
            let j = crate::lang::tokenizing::indent_end(s, start, i + 1, target);
            if j < s.len() && j > i {
                lemma_multi_line_end(s, start, j, target);
            }
        } else {
            lemma_multi_line_end(s, start, i + 1, target);
        }
    }
}

/// Tokens that are written as source and read again are the tokens that
/// were written, but for their locations.
///
/// The law is stated of what tokens say, floating point numbers aside, and of
/// words that can be written as words. Whatever stands before the text of the
/// tokens, the text is cut into as many pieces as there are tokens, and any
/// token that a piece can give says what the token at that place says.
pub proof fn lemma_render_round_trip(before: Seq<char>, literals: Seq<Literal>, start: LocationView)
    requires
        forall|k: int| 0 <= k < literals.len() ==> is_writable(#[trigger] literals[k]),
    ensures
        lexemes(before + render(literals), start, before.len() as int) is Some,
        lexemes(before + render(literals), start, before.len() as int)->0.len() == literals.len(),
        forall|k: int, token: TokenView|
            0 <= k < literals.len() && #[trigger] token_matches(
                token,
                lexemes(before + render(literals), start, before.len() as int)->0[k],
            ) ==> literal_of(token) == Some(literals[k]),
    decreases literals.len(),
{
    let s = before + render(literals);
    let p = before.len() as int;
    if literals.len() == 0 {
        assert(render(literals) =~= Seq::<char>::empty());
        assert(s =~= before);
        assert(skip_whitespace_end(s, p) == p);
    } else {
        let first = literals[0];
        let text = literal_text(first);
        let rest = literals.skip(1);
        let tail = seq![' '] + render(rest);
        assert(render(literals) == text + seq![' '] + render(rest));
        assert(s =~= before + text + tail);
        let end = p + text.len();
        let longer = before + text + seq![' '];
        assert(s =~= longer + render(rest));
        assert forall|k: int| 0 <= k < rest.len() implies is_writable(#[trigger] rest[k]) by {
            assert(rest[k] == literals[k + 1]);
        }
        lemma_render_round_trip(longer, rest, start);
        assert(s[end] == ' ');
        lemma_lexemes_skip_space(s, start, end);
        let after = lexemes(s, start, end)->0;
        // The first piece.
        match first {
            Literal::Int(value) => {
                lemma_int_text_chars(value);
                lemma_integer_round_trip(value);
                assert forall|k: int| p <= k < p + text.len() implies !is_whitespace_char(
                    #[trigger] s[k],
                ) by {
                    let c = text[k - p];
                    assert(s[k] == c);
                    assert(c == '-' || ('0' <= c && c <= '9'));
                }
                assert(s[p] == text[0]);
                assert(text[0] == '-' || ('0' <= text[0] && text[0] <= '9'));
                assert(skip_whitespace_end(s, p) == p);
                lemma_word_end_of_run(s, p, text.len() as int);
                assert(s.subrange(p, end) =~= text);
            },
            Literal::Word(word) => {
                assert forall|k: int| p <= k < p + text.len() implies !is_whitespace_char(
                    #[trigger] s[k],
                ) by {
                    assert(s[k] == word[k - p]);
                }
                assert(s[p] == word[0]);
                assert(skip_whitespace_end(s, p) == p);
                lemma_word_end_of_run(s, p, text.len() as int);
                assert(s.subrange(p, end) =~= text);
            },
            Literal::String(string) => {
                assert(s[p] == '"');
                assert(skip_whitespace_end(s, p) == p);
                lemma_stringify_round_trip(before, string, tail, start);
            },
        }
        let pieces = lexemes(s, start, p)->0;
        assert(lexemes(s, start, p) is Some);
        assert(pieces.len() == literals.len());
        assert forall|k: int, token: TokenView|
            0 <= k < literals.len() && #[trigger] token_matches(token, pieces[k]) implies literal_of(
            token,
        ) == Some(literals[k]) by {
            if k > 0 {
                assert(pieces[k] == after[k - 1]);
                assert(rest[k - 1] == literals[k]);
            }
        }
    }
}

} // verus!
