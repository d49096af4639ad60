use sorth::lang::source_buffer::SourceBuffer;
use sorth::lang::source_buffer::SourceLocation;
use sorth::lang::tokenizing::read_literal;
use sorth::lang::tokenizing::tokenize_from_source;
use sorth::lang::tokenizing::NumberType;
use sorth::lang::tokenizing::Token;
use sorth::runtime::built_ins::ffi_words::NativeCall;
use sorth::runtime::data_structures::heap::Heap;
use sorth::runtime::data_structures::value::Value;
use sorth::runtime::host::Host;

struct TestHost;

impl Host for TestHost {
    fn float_parse(&self, text: &String) -> Option<u64> {
        text.parse::<f64>().ok().map(|f| f.to_bits())
    }

    fn float_to_string(&self, bits: u64) -> String {
        f64::from_bits(bits).to_string()
    }

    fn float_from_int(&self, value: i64) -> u64 {
        (value as f64).to_bits()
    }

    fn float_to_int(&self, bits: u64) -> i64 {
        f64::from_bits(bits) as i64
    }

    fn float_add(&self, a: u64, b: u64) -> u64 {
        (f64::from_bits(a) + f64::from_bits(b)).to_bits()
    }

    fn float_subtract(&self, a: u64, b: u64) -> u64 {
        (f64::from_bits(a) - f64::from_bits(b)).to_bits()
    }

    fn float_multiply(&self, a: u64, b: u64) -> u64 {
        (f64::from_bits(a) * f64::from_bits(b)).to_bits()
    }

    fn float_divide(&self, a: u64, b: u64) -> u64 {
        (f64::from_bits(a) / f64::from_bits(b)).to_bits()
    }

    fn float_remainder(&self, a: u64, b: u64) -> u64 {
        (f64::from_bits(a) % f64::from_bits(b)).to_bits()
    }

    fn float_equal(&self, a: u64, b: u64) -> bool {
        f64::from_bits(a) == f64::from_bits(b)
    }

    fn float_less(&self, a: u64, b: u64) -> bool {
        f64::from_bits(a) < f64::from_bits(b)
    }

    fn float_narrow(&self, bits: u64) -> u32 {
        (f64::from_bits(bits) as f32).to_bits()
    }

    fn float_widen(&self, bits: u32) -> u64 {
        (f32::from_bits(bits) as f64).to_bits()
    }

    fn canonical_path(&self, _path: &String) -> Option<String> {
        None
    }

    fn read_file(&mut self, _path: &String) -> Result<String, String> {
        Err("no files".to_string())
    }

    fn write_output(&mut self, _text: &String) {
    }

    fn execute_external(
        &mut self,
        _word: usize,
        _stack: &mut Vec<Value>,
        _heap: &Heap,
    ) -> Result<(), String> {
        Err("no external words".to_string())
    }

    fn load_library(&mut self, _name: &String) -> Result<usize, String> {
        Err("no libraries".to_string())
    }

    fn find_symbol(&mut self, _library: usize, _symbol: &String) -> Result<(), String> {
        Err("no libraries".to_string())
    }

    fn call_native(
        &mut self,
        _library: usize,
        _symbol: &String,
        _call: &NativeCall,
    ) -> Result<Vec<u8>, String> {
        Err("no libraries".to_string())
    }

    fn read_c_string(&mut self, _address: u64) -> String {
        String::new()
    }
}

fn tokens_of(source: &str) -> Vec<Token> {
    tokenize_from_source(&TestHost, &"test".to_string(), &source.to_string()).unwrap()
}

#[test]
fn source_location_defaults() {
    let location = SourceLocation::new();
    assert_eq!(location.path(), "unspecified");
    assert_eq!(location.line(), 1);
    assert_eq!(location.column(), 1);
}

#[test]
fn source_buffer_tracks_lines_and_columns() {
    let mut buffer = SourceBuffer::new(&"p".to_string(), &"a\nbc".to_string());
    assert_eq!(buffer.peek_next(), Some('a'));
    assert_eq!(buffer.next(), Some('a'));
    assert_eq!(buffer.location().column(), 2);
    assert_eq!(buffer.next(), Some('\n'));
    assert_eq!(buffer.location().line(), 2);
    assert_eq!(buffer.location().column(), 1);
    assert_eq!(buffer.next(), Some('b'));
    assert_eq!(buffer.next(), Some('c'));
    assert_eq!(buffer.next(), None);
    assert_eq!(buffer.peek_next(), None);
}

#[test]
fn tokenizes_words_numbers_and_strings() {
    let tokens = tokens_of("3 4 + \"foo bar\" 0x1f 0b101 1_000 2.5 abc -7");
    assert_eq!(tokens.len(), 10);
    assert!(matches!(&tokens[0], Token::Number(_, NumberType::Int(3))));
    assert!(matches!(&tokens[1], Token::Number(_, NumberType::Int(4))));
    assert!(matches!(&tokens[2], Token::Word(_, w) if w == "+"));
    assert!(matches!(&tokens[3], Token::String(_, s) if s == "foo bar"));
    assert!(matches!(&tokens[4], Token::Number(_, NumberType::Int(31))));
    assert!(matches!(&tokens[5], Token::Number(_, NumberType::Int(5))));
    assert!(matches!(&tokens[6], Token::Number(_, NumberType::Int(1000))));
    assert!(matches!(&tokens[7], Token::Number(_, NumberType::Float(b)) if *b == 2.5f64.to_bits()));
    assert!(matches!(&tokens[8], Token::Word(_, w) if w == "abc"));
    assert!(matches!(&tokens[9], Token::Number(_, NumberType::Int(-7))));
}

#[test]
fn string_escapes_are_decoded() {
    let tokens = tokens_of("\"a\\nb\\t\\\\\\\"\\0\\q\"");
    assert_eq!(tokens.len(), 1);
    assert!(matches!(&tokens[0], Token::String(_, s) if s == "a\nb\t\\\"\0q"));
}

#[test]
fn unterminated_string_is_an_error() {
    let result = tokenize_from_source(&TestHost, &"test".to_string(), &"1 \"abc".to_string());
    let error = result.unwrap_err();
    let location = error.location().clone().unwrap();
    assert_eq!(location.line(), 1);
    assert_eq!(location.column(), 3);
}

#[test]
fn newline_in_single_line_string_is_an_error() {
    let result = tokenize_from_source(&TestHost, &"test".to_string(), &"\"ab\ncd\"".to_string());
    assert!(result.is_err());
}

#[test]
fn multi_line_string_strips_indent() {
    let source = "\"*  first\n    second\n      third\n    *\"";
    let tokens = tokens_of(source);
    assert_eq!(tokens.len(), 1);
    assert!(matches!(&tokens[0], Token::String(_, s) if s == "first\nsecond\n  third\n"));
}

#[test]
fn token_locations_count_from_one() {
    let tokens = tokens_of("a\n  bc");
    assert_eq!(tokens[0].location().line(), 1);
    assert_eq!(tokens[0].location().column(), 1);
    assert_eq!(tokens[1].location().line(), 2);
    assert_eq!(tokens[1].location().column(), 3);
}

#[test]
fn a_literal_reads_back_as_the_string_it_was_written_for() {
    let path = "test".to_string();
    for text in ["", "plain", "with \"quotes\"", "line\nbreak\tand tab", "back\\slash", "*star", "0\r1"] {
        let literal = Value::stringify(&text.to_string());
        assert_eq!(read_literal(&path, &literal).map_err(|e| e.error().clone()), Ok(text.to_string()));
    }
    assert!(read_literal(&path, &"".to_string()).is_err());
    assert!(read_literal(&path, &"\"open".to_string()).is_err());
    assert_eq!(
        read_literal(&path, &"\"a\\nb\" rest".to_string()).map_err(|e| e.error().clone()),
        Ok("a\nb".to_string())
    );
}
