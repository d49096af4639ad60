use sorth::lang::code::Instruction;
use sorth::lang::code::Op;
use sorth::lang::compilation::CodeConstructor;
use sorth::lang::compilation::Construction;
use sorth::lang::compilation::InsertionLocation;
use sorth::lang::rendering::render_tokens;
use sorth::lang::source_buffer::SourceLocation;
use sorth::lang::tokenizing::is_number;
use sorth::lang::tokenizing::to_numeric;
use sorth::lang::tokenizing::tokenize_from_file;
use sorth::lang::tokenizing::tokenize_from_source;
use sorth::lang::tokenizing::NumberType;
use sorth::lang::tokenizing::Token;
use sorth::runtime::built_ins::ffi_words::check_alignment;
use sorth::runtime::built_ins::ffi_words::marshal_arguments;
use sorth::runtime::built_ins::ffi_words::FfiInterface;
use sorth::runtime::built_ins::ffi_words::FfiType;
use sorth::runtime::built_ins::ffi_words::NativeCall;
use sorth::runtime::built_ins::ffi_words::TypeInfo;
use sorth::runtime::built_ins::io_words::flags_to_access;
use sorth::runtime::built_ins::io_words::FdCounter;
use sorth::runtime::built_ins::terminal_words::is_printable;
use sorth::runtime::data_structures::heap::Heap;
use sorth::runtime::data_structures::value::Value;
use sorth::runtime::host::Host;
use sorth::runtime::interpreter::sorth_interpreter::SorthInterpreter;
use sorth::text::int_to_string;
use sorth::text::parse_int_chars;

struct TestHost {
    output: String,
}

impl TestHost {
    fn new() -> TestHost {
        TestHost { output: String::new() }
    }
}

impl Host for TestHost {
    fn float_parse(&self, text: &String) -> Option<u64> {
        text.parse::<f64>().ok().map(|f| f.to_bits())
    }

    fn float_to_string(&self, bits: u64) -> String {
        f64::from_bits(bits).to_string()
    }

    fn float_from_int(&self, value: i64) -> u64 {
        (value as f64).to_bits()
    }

    fn float_to_int(&self, bits: u64) -> i64 {
        f64::from_bits(bits) as i64
    }

    fn float_add(&self, a: u64, b: u64) -> u64 {
        (f64::from_bits(a) + f64::from_bits(b)).to_bits()
    }

    fn float_subtract(&self, a: u64, b: u64) -> u64 {
        (f64::from_bits(a) - f64::from_bits(b)).to_bits()
    }

    fn float_multiply(&self, a: u64, b: u64) -> u64 {
        (f64::from_bits(a) * f64::from_bits(b)).to_bits()
    }

    fn float_divide(&self, a: u64, b: u64) -> u64 {
        (f64::from_bits(a) / f64::from_bits(b)).to_bits()
    }

    fn float_remainder(&self, a: u64, b: u64) -> u64 {
        (f64::from_bits(a) % f64::from_bits(b)).to_bits()
    }

    fn float_equal(&self, a: u64, b: u64) -> bool {
        f64::from_bits(a) == f64::from_bits(b)
    }

    fn float_less(&self, a: u64, b: u64) -> bool {
        f64::from_bits(a) < f64::from_bits(b)
    }

    fn float_narrow(&self, bits: u64) -> u32 {
        (f64::from_bits(bits) as f32).to_bits()
    }

    fn float_widen(&self, bits: u32) -> u64 {
        (f32::from_bits(bits) as f64).to_bits()
    }

    fn canonical_path(&self, path: &String) -> Option<String> {
        if path == "/lib" || path == "/lib/extra.f" || path == "/work/main.f" {
            Some(path.clone())
        } else {
            None
        }
    }

    fn read_file(&mut self, path: &String) -> Result<String, String> {
        if path == "/lib/extra.f" {
            Ok("40 2 +".to_string())
        } else {
            Err("no such file".to_string())
        }
    }

    fn write_output(&mut self, text: &String) {
        self.output.push_str(text);
    }

    fn execute_external(
        &mut self,
        word: usize,
        stack: &mut Vec<Value>,
        _heap: &Heap,
    ) -> Result<(), String> {
        if word == 7 {
            stack.push(Value::String("from the host".to_string()));
            Ok(())
        } else {
            Err("unknown external word".to_string())
        }
    }

    fn load_library(&mut self, name: &String) -> Result<usize, String> {
        if name == "libc.so.6" {
            Ok(1)
        } else {
            Err("not found".to_string())
        }
    }

    fn find_symbol(&mut self, library: usize, symbol: &String) -> Result<(), String> {
        if library == 1 && symbol == "strlen" {
            Ok(())
        } else {
            Err("no such symbol".to_string())
        }
    }

    fn call_native(
        &mut self,
        library: usize,
        symbol: &String,
        call: &NativeCall,
    ) -> Result<Vec<u8>, String> {
        if library != 1 || symbol != "strlen" || call.pointer_slots.len() != 1 {
            return Err("bad call".to_string());
        }
        let slot = call.pointer_slots[0];
        let mut raw = [0u8; 8];
        raw.copy_from_slice(&call.arguments[slot..slot + 8]);
        let offset = u64::from_le_bytes(raw) as usize;
        let mut length: u64 = 0;
        while call.overflow[offset + length as usize] != 0 {
            length += 1;
        }
        let mut result = length.to_le_bytes().to_vec();
        result.resize(call.return_size.max(8), 0);
        Ok(result)
    }

    fn read_c_string(&mut self, _address: u64) -> String {
        String::new()
    }
}

fn location() -> SourceLocation {
    SourceLocation::new_from_info(&"t".to_string(), 1, 1)
}

fn says(token: &Token) -> String {
    match token {
        Token::Number(_, NumberType::Int(value)) => format!("int {}", value),
        Token::Number(_, NumberType::Float(bits)) => format!("float {}", bits),
        Token::String(_, text) => format!("string {:?}", text),
        Token::Word(_, text) => format!("word {}", text),
    }
}

#[test]
fn rendered_tokens_are_read_back() {
    let host = TestHost::new();
    let tokens = vec![
        Token::Number(location(), NumberType::Int(-42)),
        Token::String(location(), "a \"quoted\" line\nwith \\ and a tab\t".to_string()),
        Token::Word(location(), "[].new".to_string()),
        Token::String(location(), "*starts like a block".to_string()),
        Token::String(location(), String::new()),
        Token::Number(location(), NumberType::Int(i64::MIN)),
        Token::Word(location(), "abc".to_string()),
    ];
    let text = render_tokens(&host, &tokens);
    let read = tokenize_from_source(&host, &"t".to_string(), &text).unwrap();
    assert_eq!(read.len(), tokens.len());
    for (a, b) in tokens.iter().zip(read.iter()) {
        assert_eq!(says(a), says(b));
    }
}

#[test]
fn integers_are_read_back_from_their_notation() {
    let host = TestHost::new();
    for value in [0i64, 7, -7, 10, 1000000, i64::MAX, i64::MIN] {
        let text = int_to_string(value);
        assert_eq!(text, value.to_string());
        assert!(is_number(&text));
        assert_eq!(to_numeric(&host, &text), Some(NumberType::Int(value)));
    }
}

#[test]
fn integer_notations() {
    let chars: Vec<char> = "+7f".chars().collect();
    assert_eq!(parse_int_chars(&chars, 0, 16), Some(127));
    let chars: Vec<char> = "-8000000000000000".chars().collect();
    assert_eq!(parse_int_chars(&chars, 0, 16), Some(i64::MIN));
    let chars: Vec<char> = "8000000000000000".chars().collect();
    assert_eq!(parse_int_chars(&chars, 0, 16), None);
    let chars: Vec<char> = "12a".chars().collect();
    assert_eq!(parse_int_chars(&chars, 0, 10), None);
    let chars: Vec<char> = "-".chars().collect();
    assert_eq!(parse_int_chars(&chars, 0, 10), None);
    let chars: Vec<char> = "xx101".chars().collect();
    assert_eq!(parse_int_chars(&chars, 2, 2), Some(5));
}

#[test]
fn number_like_words_stay_words() {
    let host = TestHost::new();
    let tokens =
        tokenize_from_source(&host, &"t".to_string(), &"abc 0xzz e - 1.2.3 99999999999999999999".to_string())
            .unwrap();
    let said: Vec<String> = tokens.iter().map(says).collect();
    assert_eq!(
        said,
        vec!["word abc", "word 0xzz", "word e", "word -", "word 1.2.3", "word 99999999999999999999"]
    );
}

#[test]
fn stringify_escapes() {
    assert_eq!(Value::stringify(&"a\"b".to_string()), "\"a\\\"b\"");
    assert_eq!(Value::stringify(&"a\\b".to_string()), "\"a\\\\b\"");
    assert_eq!(Value::stringify(&"*x".to_string()), "\"\\*x\"");
    assert_eq!(Value::stringify(&"x*".to_string()), "\"x*\"");
    assert_eq!(Value::stringify(&"\n\r\t\0".to_string()), "\"\\n\\r\\t\\0\"");
}

#[test]
fn a_file_is_tokenized_through_the_host() {
    let mut host = TestHost::new();
    let tokens = tokenize_from_file(&mut host, &"/lib/extra.f".to_string()).unwrap();
    assert_eq!(tokens.len(), 3);
    assert_eq!(tokens[0].location().path(), "/lib/extra.f");
    assert!(tokenize_from_file(&mut host, &"/lib/none.f".to_string()).is_err());
}

#[test]
fn alignment_fills_up_to_the_next_multiple() {
    assert_eq!(FfiInterface::alignment(1, 8), 7);
    assert_eq!(FfiInterface::alignment(2, 8), 6);
    assert_eq!(FfiInterface::alignment(4, 8), 4);
    assert_eq!(FfiInterface::alignment(8, 8), 0);
    assert_eq!(FfiInterface::alignment(9, 8), 7);
    assert_eq!(FfiInterface::alignment(0, 8), 0);
    assert_eq!(FfiInterface::alignment(6, 4), 2);
    for (size, align) in [(1usize, 1usize), (1, 2), (2, 4), (4, 16), (16, 16), (8, 64)] {
        assert_eq!(FfiInterface::alignment(size, align), align - size);
    }
    assert!(check_alignment(8));
    assert!(!check_alignment(0));
    assert!(!check_alignment(12));
    assert!(check_alignment(8192));
}

#[test]
fn default_types_are_registered() {
    let interface = FfiInterface::new();
    let names: Vec<&str> = interface.types.iter().map(|info| info.name.as_str()).collect();
    assert_eq!(
        names,
        vec![
            "ffi.void", "ffi.bool", "ffi.i8", "ffi.u8", "ffi.i16", "ffi.u16", "ffi.i32",
            "ffi.u32", "ffi.i64", "ffi.u64", "ffi.f32", "ffi.f64", "ffi.string",
        ]
    );
    assert_eq!(FfiInterface::base_size(FfiType::Void, 8), 0);
    assert_eq!(FfiInterface::base_size(FfiType::I16, 8), 8);
    assert_eq!(FfiInterface::base_size(FfiType::String, 8), 8);
    assert_eq!(FfiInterface::base_size(FfiType::I32, 4), 4);
}

#[test]
fn arguments_are_laid_out_with_padding() {
    let interpreter = SorthInterpreter::new();
    let host = TestHost::new();
    let types = vec![
        TypeInfo { ffi_type: FfiType::I8, name: "ffi.i8".to_string() },
        TypeInfo { ffi_type: FfiType::String, name: "ffi.string".to_string() },
        TypeInfo { ffi_type: FfiType::U32, name: "ffi.u32".to_string() },
        TypeInfo { ffi_type: FfiType::String, name: "ffi.string".to_string() },
        TypeInfo { ffi_type: FfiType::F64, name: "ffi.f64".to_string() },
    ];
    let values = vec![
        Value::Int(-2),
        Value::String("12345678".to_string()),
        Value::Int(0x01020304),
        Value::String("hi".to_string()),
        Value::Float(1.5f64.to_bits()),
    ];
    let (arguments, overflow, offsets, slots) =
        marshal_arguments(&interpreter, &host, &values, &types, 8).unwrap();
    assert_eq!(offsets, vec![0, 8, 16, 24, 32]);
    assert_eq!(slots, vec![8, 24]);
    assert_eq!(arguments.len(), 40);
    assert_eq!(arguments[0], 0xfe);
    assert_eq!(&arguments[8..16], &0u64.to_le_bytes());
    assert_eq!(&arguments[16..20], &[4, 3, 2, 1]);
    assert_eq!(&arguments[24..32], &16u64.to_le_bytes());
    assert_eq!(&arguments[32..40], &1.5f64.to_bits().to_le_bytes());
    assert_eq!(overflow.len(), 24);
    assert_eq!(&overflow[0..9], b"12345678\0");
    assert_eq!(&overflow[16..19], b"hi\0");
    let wrong = vec![Value::String("x".to_string())];
    let one = vec![TypeInfo { ffi_type: FfiType::I8, name: "ffi.i8".to_string() }];
    assert!(marshal_arguments(&interpreter, &host, &wrong, &one, 8).is_err());
    let number = vec![Value::Int(1)];
    let text = vec![TypeInfo { ffi_type: FfiType::String, name: "ffi.string".to_string() }];
    assert!(marshal_arguments(&interpreter, &host, &number, &text, 8).is_err());
}

fn jump(label: &str) -> Instruction {
    Instruction::new(None, Op::Jump(Value::String(label.to_string())))
}

fn target(label: &str) -> Instruction {
    Instruction::new(None, Op::JumpTarget(Value::String(label.to_string())))
}

fn shape(code: &Vec<Instruction>) -> Vec<String> {
    code.iter()
        .map(|instruction| match &instruction.op {
            Op::Jump(Value::Int(offset)) => format!("jump {}", offset),
            Op::Jump(Value::String(label)) => format!("jump to {}", label),
            Op::JumpIfZero(Value::Int(offset)) => format!("jz {}", offset),
            Op::MarkCatch(Value::Int(offset)) => format!("catch {}", offset),
            Op::MarkLoopExit(Value::Int(offset)) => format!("loop {}", offset),
            Op::JumpTarget(Value::Nil) => "target".to_string(),
            Op::JumpTarget(Value::String(label)) => format!("target {}", label),
            Op::ReadVariable => "read".to_string(),
            other => format!("{:?}", other),
        })
        .collect()
}

#[test]
fn jumps_are_resolved() {
    let mut construction = Construction::new();
    construction.code = vec![
        target("top"),
        Instruction::new(None, Op::JumpIfZero(Value::String("end".to_string()))),
        Instruction::new(None, Op::MarkCatch(Value::String("end".to_string()))),
        Instruction::new(None, Op::ReadVariable),
        jump("top"),
        Instruction::new(None, Op::MarkLoopExit(Value::String("end".to_string()))),
        target("end"),
        Instruction::new(None, Op::Jump(Value::Int(-3))),
    ];
    construction.resolve_jumps().unwrap();
    let once = shape(&construction.code);
    assert_eq!(
        once,
        vec!["target", "jz 5", "catch 4", "read", "jump -4", "loop 1", "target", "jump -3"]
    );
    construction.resolve_jumps().unwrap();
    assert_eq!(shape(&construction.code), once);
}

#[test]
fn a_jump_without_a_target_is_an_error() {
    let mut construction = Construction::new();
    construction.code = vec![target("a"), jump("b")];
    assert!(construction.resolve_jumps().is_err());
    assert_eq!(shape(&construction.code), vec!["target a", "jump to b"]);
}

#[test]
fn the_last_target_of_a_label_wins() {
    let mut construction = Construction::new();
    construction.code = vec![jump("a"), target("a"), target("a")];
    construction.resolve_jumps().unwrap();
    assert_eq!(shape(&construction.code), vec!["jump 2", "target", "target"]);
}

#[test]
fn the_code_constructor_builds_blocks() {
    let tokens = vec![Token::Word(location(), "w".to_string())];
    let mut constructor = CodeConstructor::new(tokens);
    assert!(matches!(constructor.next_token(), Some(Token::Word(_, _))));
    assert!(constructor.next_token().is_none());
    constructor.push_instruction(Instruction::new(None, Op::ReadVariable)).unwrap();
    constructor.push_instruction(Instruction::new(None, Op::WriteVariable)).unwrap();
    constructor.insertion = InsertionLocation::AtTop;
    constructor.push_instruction(Instruction::new(None, Op::MarkContext)).unwrap();
    let code = &constructor.construction().unwrap().code;
    assert!(matches!(code[0].op, Op::MarkContext));
    assert!(matches!(code[1].op, Op::ReadVariable));
    assert!(matches!(code[2].op, Op::WriteVariable));
    constructor.construction_new();
    constructor.construction_mut().unwrap().name = "inner".to_string();
    constructor.construction_new_with_code(vec![Instruction::new(None, Op::ReleaseContext)]);
    assert_eq!(constructor.construction_pop().unwrap().code.len(), 1);
    assert_eq!(constructor.construction_pop().unwrap().name, "inner");
    assert_eq!(constructor.construction_pop().unwrap().code.len(), 3);
    assert!(constructor.construction_pop().is_err());
    assert!(constructor.construction().is_err());
    assert!(constructor.construction_mut().is_err());
    assert!(constructor.push_instruction(Instruction::new(None, Op::ReadVariable)).is_err());
}

#[test]
fn file_numbers_start_at_four() {
    let mut counter = FdCounter::new();
    assert_eq!(counter.generate_fd(), 4);
    assert_eq!(counter.generate_fd(), 5);
    assert_eq!(counter.generate_fd(), 6);
    assert_eq!(flags_to_access(0), (false, false));
    assert_eq!(flags_to_access(1), (true, false));
    assert_eq!(flags_to_access(2), (false, true));
    assert_eq!(flags_to_access(3), (true, true));
}

#[test]
fn printable_characters() {
    assert!(is_printable('a'));
    assert!(is_printable('~'));
    assert!(is_printable(' '));
    assert!(is_printable('\n'));
    assert!(!is_printable('\r'));
    assert!(!is_printable('\u{7f}'));
    assert!(!is_printable('é'));
}

#[test]
fn a_file_that_cannot_be_read_is_named_in_the_error() {
    let host = TestHost::new();
    let error = sorth::lang::tokenizing::tokenize_file_text(
        &host,
        &"a/b.f".to_string(),
        Err("denied".to_string()),
    )
    .unwrap_err();
    assert_eq!(error.error(), "Could not read file a/b.f: denied");
    assert!(error.location().is_none());
    let tokens = sorth::lang::tokenizing::tokenize_file_text(
        &host,
        &"a/b.f".to_string(),
        Ok("1 \"two\"".to_string()),
    )
    .unwrap();
    assert_eq!(tokens.len(), 2);
    assert_eq!(tokens[1].location().column(), 3);
}

#[test]
fn native_words_are_registered_under_their_names() {
    let mut interpreter = SorthInterpreter::new();
    sorth::runtime::built_ins::base_words::register_stack_words(&mut interpreter);
    let names: Vec<String> = (0..8)
        .map(|index| interpreter.word_handler_info(index).unwrap().name().clone())
        .collect();
    assert_eq!(names, vec!["dup", "drop", "swap", "over", "rot", "stack.depth", "pick", "push-to"]);
    assert!(interpreter.word_handler_info(8).is_none());
    assert_eq!(interpreter.find_word(&"rot".to_string()).unwrap().handler_index, 4);
}

fn word_returning(kind: FfiType, name: &str) -> sorth::runtime::built_ins::ffi_words::FfiWord {
    sorth::runtime::built_ins::ffi_words::FfiWord::new(
        "lib".to_string(),
        "function".to_string(),
        Vec::new(),
        TypeInfo { ffi_type: kind, name: name.to_string() },
    )
}

#[test]
fn returned_bytes_are_read_as_the_type_of_the_result() {
    let mut interpreter = SorthInterpreter::new();
    let mut host = TestHost::new();
    let bytes = vec![0xff, 0xfe, 0xff, 0xff, 0xff, 0xff, 0xff, 0x7f];
    let cases: Vec<(FfiType, &str, i64)> = vec![
        (FfiType::I8, "ffi.i8", -1),
        (FfiType::U8, "ffi.u8", 255),
        (FfiType::I16, "ffi.i16", -257),
        (FfiType::U16, "ffi.u16", 0xfeff),
        (FfiType::I32, "ffi.i32", -257),
        (FfiType::U32, "ffi.u32", 0xffff_feff),
        (FfiType::I64, "ffi.i64", 0x7fff_ffff_ffff_feff),
        (FfiType::U64, "ffi.u64", 0x7fff_ffff_ffff_feff),
        (FfiType::Bool, "ffi.bool", 255),
    ];
    for (kind, name, expected) in cases {
        let word = word_returning(kind, name);
        sorth::runtime::built_ins::ffi_words::push_returned(&mut interpreter, &mut host, &word, &bytes)
            .unwrap();
        match interpreter.pop().unwrap() {
            Value::Int(value) => assert_eq!(value, expected, "{}", name),
            other => panic!("expected an integer for {}, found {:?}", name, other),
        }
    }
    let word = word_returning(FfiType::F64, "ffi.f64");
    sorth::runtime::built_ins::ffi_words::push_returned(&mut interpreter, &mut host, &word, &bytes)
        .unwrap();
    assert!(matches!(interpreter.pop().unwrap(), Value::Float(bits) if bits == 0x7fff_ffff_ffff_feff));
    let word = word_returning(FfiType::Void, "ffi.void");
    sorth::runtime::built_ins::ffi_words::push_returned(&mut interpreter, &mut host, &word, &Vec::new())
        .unwrap();
    assert_eq!(interpreter.stack().len(), 0);
    let word = word_returning(FfiType::I32, "ffi.i32");
    assert!(sorth::runtime::built_ins::ffi_words::push_returned(
        &mut interpreter,
        &mut host,
        &word,
        &vec![1, 2, 3, 4]
    )
    .is_err());
    assert_eq!(interpreter.stack().len(), 0);
}
