use sorth::lang::code::Instruction;
use sorth::lang::code::Op;
use sorth::lang::compilation::compile_token;
use sorth::lang::compilation::process_token;
use sorth::lang::source_buffer::SourceLocation;
use sorth::lang::tokenizing::NumberType;
use sorth::lang::tokenizing::Token;
use sorth::runtime::interpreter::Handler;
use sorth::runtime::interpreter::ScriptFunction;
use sorth::runtime::data_structures::dictionary::WordRuntime;
use sorth::runtime::data_structures::dictionary::WordType;
use sorth::runtime::data_structures::dictionary::WordVisibility;
use sorth::runtime::built_ins::base_words::register_base_words;
use sorth::runtime::built_ins::base_words::register_ffi_words;
use sorth::runtime::built_ins::ffi_words::NativeCall;
use sorth::runtime::data_structures::byte_buffer::Buffer;
use sorth::runtime::data_structures::contextual_data::ContextualData;
use sorth::runtime::data_structures::heap::Heap;
use sorth::runtime::data_structures::value::take_bool;
use sorth::runtime::data_structures::value::take_float;
use sorth::runtime::data_structures::value::take_int;
use sorth::runtime::data_structures::value::take_string;
use sorth::runtime::data_structures::value::Value;
use sorth::runtime::host::Host;
use sorth::runtime::interpreter::sorth_interpreter::SorthInterpreter;

struct TestHost {
    output: String,
}

impl TestHost {
    fn new() -> TestHost {
        TestHost { output: String::new() }
    }
}

impl Host for TestHost {
    fn float_parse(&self, text: &String) -> Option<u64> {
        text.parse::<f64>().ok().map(|f| f.to_bits())
    }

    fn float_to_string(&self, bits: u64) -> String {
        f64::from_bits(bits).to_string()
    }

    fn float_from_int(&self, value: i64) -> u64 {
        (value as f64).to_bits()
    }

    fn float_to_int(&self, bits: u64) -> i64 {
        f64::from_bits(bits) as i64
    }

    fn float_add(&self, a: u64, b: u64) -> u64 {
        (f64::from_bits(a) + f64::from_bits(b)).to_bits()
    }

    fn float_subtract(&self, a: u64, b: u64) -> u64 {
        (f64::from_bits(a) - f64::from_bits(b)).to_bits()
    }

    fn float_multiply(&self, a: u64, b: u64) -> u64 {
        (f64::from_bits(a) * f64::from_bits(b)).to_bits()
    }

    fn float_divide(&self, a: u64, b: u64) -> u64 {
        (f64::from_bits(a) / f64::from_bits(b)).to_bits()
    }

    fn float_remainder(&self, a: u64, b: u64) -> u64 {
        (f64::from_bits(a) % f64::from_bits(b)).to_bits()
    }

    fn float_equal(&self, a: u64, b: u64) -> bool {
        f64::from_bits(a) == f64::from_bits(b)
    }

    fn float_less(&self, a: u64, b: u64) -> bool {
        f64::from_bits(a) < f64::from_bits(b)
    }

    fn float_narrow(&self, bits: u64) -> u32 {
        (f64::from_bits(bits) as f32).to_bits()
    }

    fn float_widen(&self, bits: u32) -> u64 {
        (f32::from_bits(bits) as f64).to_bits()
    }

    fn canonical_path(&self, path: &String) -> Option<String> {
        if path == "/lib" || path == "/lib/extra.f" || path == "/work/main.f" {
            Some(path.clone())
        } else {
            None
        }
    }

    fn read_file(&mut self, path: &String) -> Result<String, String> {
        if path == "/lib/extra.f" {
            Ok("40 2 +".to_string())
        } else {
            Err("no such file".to_string())
        }
    }

    fn write_output(&mut self, text: &String) {
        self.output.push_str(text);
    }

    fn execute_external(
        &mut self,
        word: usize,
        stack: &mut Vec<Value>,
        _heap: &Heap,
    ) -> Result<(), String> {
        if word == 7 {
            stack.push(Value::String("from the host".to_string()));
            Ok(())
        } else {
            Err("unknown external word".to_string())
        }
    }

    fn load_library(&mut self, name: &String) -> Result<usize, String> {
        if name == "libc.so.6" {
            Ok(1)
        } else {
            Err("not found".to_string())
        }
    }

    fn find_symbol(&mut self, library: usize, symbol: &String) -> Result<(), String> {
        if library == 1 && symbol == "strlen" {
            Ok(())
        } else {
            Err("no such symbol".to_string())
        }
    }

    fn call_native(
        &mut self,
        library: usize,
        symbol: &String,
        call: &NativeCall,
    ) -> Result<Vec<u8>, String> {
        if library != 1 || symbol != "strlen" || call.pointer_slots.len() != 1 {
            return Err("bad call".to_string());
        }
        let slot = call.pointer_slots[0];
        let mut raw = [0u8; 8];
        raw.copy_from_slice(&call.arguments[slot..slot + 8]);
        let offset = u64::from_le_bytes(raw) as usize;
        let mut length: u64 = 0;
        while call.overflow[offset + length as usize] != 0 {
            length += 1;
        }
        let mut result = length.to_le_bytes().to_vec();
        result.resize(call.return_size.max(8), 0);
        Ok(result)
    }

    fn read_c_string(&mut self, _address: u64) -> String {
        String::new()
    }
}

fn new_interpreter() -> SorthInterpreter {
    let mut interpreter = SorthInterpreter::new();
    register_base_words(&mut interpreter);
    register_ffi_words(&mut interpreter);
    interpreter.mark_context();
    interpreter
}

fn run(interpreter: &mut SorthInterpreter, host: &mut TestHost, source: &str) -> Result<(), String> {
    interpreter
        .process_source(host, &"test".to_string(), &source.to_string())
        .map_err(|error| error.error().clone())
}

fn push(value: Value) -> Instruction {
    Instruction::new(None, Op::PushConstantValue(value))
}

fn word(name: &str) -> Instruction {
    Instruction::new(None, Op::Execute(Value::String(name.to_string())))
}

fn top_int(interpreter: &SorthInterpreter) -> i64 {
    match interpreter.stack().last() {
        Some(Value::Int(value)) => *value,
        other => panic!("expected an integer on top, found {:?}", other),
    }
}

fn top_string(interpreter: &SorthInterpreter) -> String {
    match interpreter.stack().last() {
        Some(Value::String(value)) => value.clone(),
        other => panic!("expected a string on top, found {:?}", other),
    }
}

fn top_bool(interpreter: &SorthInterpreter) -> bool {
    match interpreter.stack().last() {
        Some(Value::Bool(value)) => *value,
        other => panic!("expected a boolean on top, found {:?}", other),
    }
}

fn array_ints(interpreter: &SorthInterpreter, value: &Value) -> Vec<i64> {
    match value {
        Value::Vec(handle) => interpreter
            .heap()
            .vec(*handle)
            .unwrap()
            .to_vec()
            .iter()
            .map(|item| match item {
                Value::Int(i) => *i,
                other => panic!("expected an integer, found {:?}", other),
            })
            .collect(),
        other => panic!("expected an array, found {:?}", other),
    }
}

#[test]
fn arithmetic_is_printed() {
    let mut interpreter = new_interpreter();
    let mut host = TestHost::new();
    run(&mut interpreter, &mut host, ": . term.! ; 3 4 + .").unwrap();
    assert_eq!(host.output, "7");
    assert_eq!(interpreter.stack().len(), 0);
}

#[test]
fn plus_joins_strings() {
    let mut interpreter = new_interpreter();
    let mut host = TestHost::new();
    run(&mut interpreter, &mut host, ": . term.! ; \"foo\" \"bar\" + .").unwrap();
    assert_eq!(host.output, "foobar");
}

#[test]
fn plus_joins_a_string_and_a_number() {
    let mut interpreter = new_interpreter();
    let mut host = TestHost::new();
    run(&mut interpreter, &mut host, "\"n=\" 42 +").unwrap();
    assert_eq!(top_string(&interpreter), "n=42");
}

#[test]
fn loop_with_early_exit() {
    let mut interpreter = new_interpreter();
    let mut host = TestHost::new();
    let code = vec![
        push(Value::Int(0)),
        Instruction::new(None, Op::MarkLoopExit(Value::Int(9))),
        word("dup"),
        push(Value::Int(5)),
        word("="),
        Instruction::new(None, Op::JumpIfZero(Value::Int(2))),
        Instruction::new(None, Op::JumpLoopExit),
        push(Value::Int(1)),
        word("+"),
        Instruction::new(None, Op::JumpLoopStart),
        Instruction::new(None, Op::UnmarkLoopExit),
    ];
    interpreter
        .execute_code(&mut host, &"loop".to_string(), &code)
        .unwrap();
    assert_eq!(top_int(&interpreter), 5);
    assert_eq!(interpreter.stack().len(), 1);
}

#[test]
fn catch_surfaces_the_error() {
    let mut interpreter = new_interpreter();
    let mut host = TestHost::new();
    let code = vec![
        Instruction::new(None, Op::MarkCatch(Value::Int(6))),
        push(Value::Int(1)),
        push(Value::Int(0)),
        word("/"),
        Instruction::new(None, Op::UnmarkCatch),
        Instruction::new(None, Op::Jump(Value::Int(3))),
        word("drop"),
        push(Value::String("caught".to_string())),
    ];
    interpreter
        .execute_code(&mut host, &"try".to_string(), &code)
        .unwrap();
    assert_eq!(top_string(&interpreter), "caught");
    assert_eq!(interpreter.stack().len(), 1);
}

#[test]
fn the_caught_error_text_is_pushed() {
    let mut interpreter = new_interpreter();
    let mut host = TestHost::new();
    let code = vec![
        Instruction::new(None, Op::MarkCatch(Value::Int(3))),
        push(Value::String("boom".to_string())),
        word("throw"),
        Instruction::new(None, Op::JumpTarget(Value::Nil)),
    ];
    interpreter
        .execute_code(&mut host, &"try".to_string(), &code)
        .unwrap();
    assert!(top_string(&interpreter).starts_with("boom"));
}

#[test]
fn uncaught_error_is_returned() {
    let mut interpreter = new_interpreter();
    let mut host = TestHost::new();
    let error = run(&mut interpreter, &mut host, "\"boom\" throw").unwrap_err();
    assert_eq!(error, "boom");
}

#[test]
fn deep_clone_is_independent() {
    let mut interpreter = new_interpreter();
    let mut host = TestHost::new();
    run(
        &mut interpreter,
        &mut host,
        "3 [].new dup 1 swap 0 swap []! dup 2 swap 1 swap []! dup 3 swap 2 swap []!",
    )
    .unwrap();
    let first = interpreter.stack().last().unwrap().clone();
    assert_eq!(array_ints(&interpreter, &first), vec![1, 2, 3]);
    let copy = interpreter.deep_clone_value(&first).unwrap();
    interpreter.push(Value::Int(9));
    interpreter.push(Value::Int(0));
    interpreter.push(copy.clone());
    interpreter
        .execute_word_named(&mut host, &None, &"[]!".to_string())
        .unwrap();
    assert_eq!(array_ints(&interpreter, &first), vec![1, 2, 3]);
    assert_eq!(array_ints(&interpreter, &copy), vec![9, 2, 3]);
}

#[test]
fn a_copy_of_a_value_shares_its_array() {
    let mut interpreter = new_interpreter();
    let mut host = TestHost::new();
    run(&mut interpreter, &mut host, "1 [].new dup 7 swap 0 swap []! 0 swap []@").unwrap();
    assert_eq!(top_int(&interpreter), 7);
}

#[test]
fn native_call_round_trip() {
    let mut interpreter = new_interpreter();
    let mut host = TestHost::new();
    run(
        &mut interpreter,
        &mut host,
        "\"libc.so.6\" \"c\" ffi.load \
         1 [].new dup \"ffi.string\" swap 0 swap []! \
         \"c\" swap \"strlen\" swap \"\" swap \"ffi.u64\" ffi.fn \
         \"hello\" strlen",
    )
    .unwrap_or_else(|error| panic!("{}", error));
    assert_eq!(top_int(&interpreter), 5);
    interpreter.reset_ffi();
    let error = run(&mut interpreter, &mut host, "\"hello\" strlen").unwrap_err();
    assert!(error.contains("is not loaded"));
}

#[test]
fn loading_a_library_twice_is_an_error() {
    let mut interpreter = new_interpreter();
    let mut host = TestHost::new();
    run(&mut interpreter, &mut host, "\"libc.so.6\" \"c\" ffi.load").unwrap();
    assert!(run(&mut interpreter, &mut host, "\"libc.so.6\" \"c\" ffi.load").is_err());
    assert!(run(&mut interpreter, &mut host, "\"nothing.so\" \"n\" ffi.load").is_err());
}

#[test]
fn stack_words() {
    let mut interpreter = new_interpreter();
    let mut host = TestHost::new();
    run(&mut interpreter, &mut host, "1 2 swap").unwrap();
    assert_eq!(top_int(&interpreter), 1);
    run(&mut interpreter, &mut host, "drop drop 1 2 over").unwrap();
    assert_eq!(top_int(&interpreter), 1);
    assert_eq!(interpreter.stack().len(), 3);
    run(&mut interpreter, &mut host, "rot").unwrap();
    let values: Vec<i64> = interpreter
        .stack()
        .iter()
        .map(|v| match v {
            Value::Int(i) => *i,
            _ => -1,
        })
        .collect();
    assert_eq!(values, vec![1, 1, 2]);
    run(&mut interpreter, &mut host, "stack.depth").unwrap();
    assert_eq!(top_int(&interpreter), 3);
}

#[test]
fn pick_counts_from_the_top() {
    let mut interpreter = new_interpreter();
    let mut host = TestHost::new();
    run(&mut interpreter, &mut host, "10 20 30 2 pick").unwrap();
    let values: Vec<i64> = interpreter
        .stack()
        .iter()
        .map(|v| match v {
            Value::Int(i) => *i,
            _ => -1,
        })
        .collect();
    assert_eq!(values, vec![20, 30, 10]);
    assert!(run(&mut interpreter, &mut host, "3 pick").is_err());
}

#[test]
fn push_to_counts_from_the_top() {
    let mut interpreter = new_interpreter();
    let mut host = TestHost::new();
    run(&mut interpreter, &mut host, "10 20 30 2 push-to").unwrap();
    let values: Vec<i64> = interpreter
        .stack()
        .iter()
        .map(|v| match v {
            Value::Int(i) => *i,
            _ => -1,
        })
        .collect();
    assert_eq!(values, vec![30, 10, 20]);
}

#[test]
fn stack_underflow_is_an_error() {
    let mut interpreter = new_interpreter();
    let mut host = TestHost::new();
    assert_eq!(run(&mut interpreter, &mut host, "drop").unwrap_err(), "Stack underflow.");
    assert!(interpreter.pop().is_err());
}

#[test]
fn integer_arithmetic() {
    let mut interpreter = new_interpreter();
    let mut host = TestHost::new();
    run(&mut interpreter, &mut host, "7 2 /").unwrap();
    assert_eq!(top_int(&interpreter), 3);
    run(&mut interpreter, &mut host, "-7 2 /").unwrap();
    assert_eq!(top_int(&interpreter), -3);
    run(&mut interpreter, &mut host, "-7 2 %").unwrap();
    assert_eq!(top_int(&interpreter), -1);
    run(&mut interpreter, &mut host, "7 -2 %").unwrap();
    assert_eq!(top_int(&interpreter), 1);
    run(&mut interpreter, &mut host, "6 7 *").unwrap();
    assert_eq!(top_int(&interpreter), 42);
    run(&mut interpreter, &mut host, "5 8 -").unwrap();
    assert_eq!(top_int(&interpreter), -3);
    assert!(run(&mut interpreter, &mut host, "1 0 /").is_err());
    assert!(run(&mut interpreter, &mut host, "1 0 %").is_err());
}

#[test]
fn floating_point_arithmetic_widens() {
    let mut interpreter = new_interpreter();
    let mut host = TestHost::new();
    run(&mut interpreter, &mut host, "1 2.5 +").unwrap();
    match interpreter.stack().last() {
        Some(Value::Float(bits)) => assert_eq!(f64::from_bits(*bits), 3.5),
        other => panic!("expected a float, found {:?}", other),
    }
    run(&mut interpreter, &mut host, "1.0 0.0 /").unwrap();
    match interpreter.stack().last() {
        Some(Value::Float(bits)) => assert_eq!(f64::from_bits(*bits), f64::INFINITY),
        other => panic!("expected a float, found {:?}", other),
    }
}

#[test]
fn bit_and_logic_words() {
    let mut interpreter = new_interpreter();
    let mut host = TestHost::new();
    run(&mut interpreter, &mut host, "12 10 &").unwrap();
    assert_eq!(top_int(&interpreter), 8);
    run(&mut interpreter, &mut host, "12 10 |").unwrap();
    assert_eq!(top_int(&interpreter), 14);
    run(&mut interpreter, &mut host, "12 10 ^").unwrap();
    assert_eq!(top_int(&interpreter), 6);
    run(&mut interpreter, &mut host, "1 4 <<").unwrap();
    assert_eq!(top_int(&interpreter), 16);
    run(&mut interpreter, &mut host, "-16 2 >>").unwrap();
    assert_eq!(top_int(&interpreter), -4);
    run(&mut interpreter, &mut host, "5 ~").unwrap();
    assert_eq!(top_int(&interpreter), -6);
    run(&mut interpreter, &mut host, "1 0 &&").unwrap();
    assert!(!top_bool(&interpreter));
    run(&mut interpreter, &mut host, "1 0 ||").unwrap();
    assert!(top_bool(&interpreter));
    run(&mut interpreter, &mut host, "0 '").unwrap();
    assert!(top_bool(&interpreter));
}

#[test]
fn comparisons() {
    let mut interpreter = new_interpreter();
    let mut host = TestHost::new();
    run(&mut interpreter, &mut host, "1 1.0 =").unwrap();
    assert!(top_bool(&interpreter));
    run(&mut interpreter, &mut host, "1 \"1\" =").unwrap();
    assert!(!top_bool(&interpreter));
    run(&mut interpreter, &mut host, "\"a\" \"a\" =").unwrap();
    assert!(top_bool(&interpreter));
    run(&mut interpreter, &mut host, "2 3 <").unwrap();
    assert!(top_bool(&interpreter));
    run(&mut interpreter, &mut host, "2 3 >=").unwrap();
    assert!(!top_bool(&interpreter));
    run(&mut interpreter, &mut host, "\"abc\" \"abd\" <").unwrap();
    assert!(top_bool(&interpreter));
    run(&mut interpreter, &mut host, "3 3 <=").unwrap();
    assert!(top_bool(&interpreter));
    run(&mut interpreter, &mut host, "4 3 >").unwrap();
    assert!(top_bool(&interpreter));
}

#[test]
fn arrays_compare_by_content() {
    let mut interpreter = new_interpreter();
    let mut host = TestHost::new();
    run(&mut interpreter, &mut host, "2 [].new 2 [].new [].=").unwrap();
    assert!(top_bool(&interpreter));
    run(&mut interpreter, &mut host, "2 [].new 3 [].new =").unwrap();
    assert!(!top_bool(&interpreter));
}

#[test]
fn array_index_at_length_is_an_error() {
    let mut interpreter = new_interpreter();
    let mut host = TestHost::new();
    assert!(run(&mut interpreter, &mut host, "3 [].new 3 swap []@").is_err());
    assert!(run(&mut interpreter, &mut host, "3 [].new 0 swap 3 swap []!").is_err());
    run(&mut interpreter, &mut host, "3 [].new 2 swap []@").unwrap();
    assert!(matches!(interpreter.stack().last(), Some(Value::Nil)));
}

#[test]
fn popping_an_empty_array_is_an_error() {
    let mut interpreter = new_interpreter();
    let mut host = TestHost::new();
    assert!(run(&mut interpreter, &mut host, "0 [].new [].pop_front!").is_err());
    assert!(run(&mut interpreter, &mut host, "0 [].new [].pop_back!").is_err());
}

#[test]
fn array_grows_at_both_ends() {
    let mut interpreter = new_interpreter();
    let mut host = TestHost::new();
    run(
        &mut interpreter,
        &mut host,
        "0 [].new dup 2 swap [].push_back! dup 1 swap [].push_front! dup 3 swap [].push_back!",
    )
    .unwrap();
    let array = interpreter.stack().last().unwrap().clone();
    assert_eq!(array_ints(&interpreter, &array), vec![1, 2, 3]);
    run(&mut interpreter, &mut host, "dup [].pop_front!").unwrap();
    assert_eq!(top_int(&interpreter), 1);
    run(&mut interpreter, &mut host, "drop dup [].pop_back!").unwrap();
    assert_eq!(top_int(&interpreter), 3);
    run(&mut interpreter, &mut host, "drop dup 9 swap 0 swap [].insert dup 1 swap [].delete").unwrap();
    assert_eq!(array_ints(&interpreter, &array), vec![9]);
    run(&mut interpreter, &mut host, "dup 3 swap [].size! [].size@").unwrap();
    assert_eq!(top_int(&interpreter), 3);
}

#[test]
fn array_plus_appends_deep_clones() {
    let mut interpreter = new_interpreter();
    let mut host = TestHost::new();
    run(
        &mut interpreter,
        &mut host,
        "1 [].new dup 1 swap 0 swap []! 1 [].new dup 2 swap 0 swap []! [].+",
    )
    .unwrap();
    let array = interpreter.stack().last().unwrap().clone();
    assert_eq!(array_ints(&interpreter, &array), vec![1, 2]);
}

#[test]
fn hash_table_words() {
    let mut interpreter = new_interpreter();
    let mut host = TestHost::new();
    run(&mut interpreter, &mut host, "{}.new dup 10 swap \"ten\" swap {}!").unwrap();
    run(&mut interpreter, &mut host, "dup \"ten\" swap {}@").unwrap();
    assert_eq!(top_int(&interpreter), 10);
    run(&mut interpreter, &mut host, "drop dup \"nine\" swap {}?").unwrap();
    assert!(!top_bool(&interpreter));
    run(&mut interpreter, &mut host, "drop dup \"ten\" swap {}?").unwrap();
    assert!(top_bool(&interpreter));
    run(&mut interpreter, &mut host, "drop dup {}.size@").unwrap();
    assert_eq!(top_int(&interpreter), 1);
    run(&mut interpreter, &mut host, "drop dup 11 swap \"ten\" swap {}! dup {}.size@").unwrap();
    assert_eq!(top_int(&interpreter), 1);
    assert!(run(&mut interpreter, &mut host, "drop \"nine\" swap {}@").is_err());
}

#[test]
fn hash_table_iterates_over_its_entries() {
    let mut interpreter = new_interpreter();
    let mut host = TestHost::new();
    run(
        &mut interpreter,
        &mut host,
        ": total + + ; {}.new dup 1 swap 10 swap {}! dup 2 swap 20 swap {}! 0 swap ` total swap {}.iterate",
    )
    .unwrap();
    assert_eq!(top_int(&interpreter), 33);
}

#[test]
fn byte_buffer_integers_round_trip() {
    let mut interpreter = new_interpreter();
    let mut host = TestHost::new();
    for (size, value, signed) in [
        (1, -5i64, true),
        (1, 200, false),
        (2, -300, true),
        (2, 65535, false),
        (4, -70000, true),
        (4, 4000000000, false),
        (8, i64::MIN, true),
        (8, i64::MAX, false),
    ] {
        let source = format!(
            "16 buffer.new dup {} swap {} buffer.int! dup 0 swap buffer.position! {} {} buffer.int@",
            value,
            size,
            size,
            if signed { "1 1 =" } else { "1 0 =" }
        );
        run(&mut interpreter, &mut host, &source).unwrap_or_else(|e| panic!("{}: {}", source, e));
        assert_eq!(top_int(&interpreter), value);
    }
}

#[test]
fn byte_buffer_floats_round_trip() {
    let mut interpreter = new_interpreter();
    let mut host = TestHost::new();
    run(
        &mut interpreter,
        &mut host,
        "16 buffer.new dup 0.1 swap 8 buffer.float! dup 0 swap buffer.position! 8 buffer.float@",
    )
    .unwrap();
    match interpreter.stack().last() {
        Some(Value::Float(bits)) => assert_eq!(f64::from_bits(*bits), 0.1),
        other => panic!("expected a float, found {:?}", other),
    }
    run(
        &mut interpreter,
        &mut host,
        "16 buffer.new dup 0.1 swap 4 buffer.float! dup 0 swap buffer.position! 4 buffer.float@",
    )
    .unwrap();
    match interpreter.stack().last() {
        Some(Value::Float(bits)) => assert_eq!(f64::from_bits(*bits), 0.1f32 as f64),
        other => panic!("expected a float, found {:?}", other),
    }
}

#[test]
fn byte_buffer_write_past_the_end_changes_nothing() {
    let mut interpreter = new_interpreter();
    let mut host = TestHost::new();
    run(&mut interpreter, &mut host, "4 buffer.new dup 2 swap buffer.position!").unwrap();
    let buffer = interpreter.stack().last().unwrap().clone();
    let handle = match buffer {
        Value::ByteBuffer(handle) => handle,
        _ => panic!("expected a buffer"),
    };
    assert!(run(&mut interpreter, &mut host, "dup -1 swap 4 buffer.int!").is_err());
    let cell = interpreter.heap().buffer(handle).unwrap();
    assert_eq!(cell.bytes(), &[0, 0, 0, 0]);
    assert_eq!(cell.position(), 2);
    assert!(run(&mut interpreter, &mut host, "dup -1 swap 3 buffer.int!").is_err());
    assert!(run(&mut interpreter, &mut host, "dup 5 swap buffer.position!").is_err());
    assert!(run(&mut interpreter, &mut host, "dup 1.5 swap 2 buffer.float!").is_err());
}

#[test]
fn byte_buffer_strings() {
    let mut interpreter = new_interpreter();
    let mut host = TestHost::new();
    run(
        &mut interpreter,
        &mut host,
        "8 buffer.new dup \"hi\" swap 4 buffer.string! dup \"toolong\" swap 4 buffer.string! \
         dup 0 swap buffer.position! dup 4 buffer.string@",
    )
    .unwrap();
    assert_eq!(top_string(&interpreter), "hi");
    run(&mut interpreter, &mut host, "drop dup 4 buffer.string@").unwrap();
    assert_eq!(top_string(&interpreter), "tool");
    run(&mut interpreter, &mut host, "drop buffer.position@").unwrap();
    assert_eq!(top_int(&interpreter), 8);
}

#[test]
fn variables_start_as_nil_and_keep_their_index() {
    let mut interpreter = new_interpreter();
    let mut host = TestHost::new();
    let code = vec![
        Instruction::new(None, Op::DefVariable(Value::String("a".to_string()))),
        Instruction::new(None, Op::DefVariable(Value::String("b".to_string()))),
        word("a"),
        Instruction::new(None, Op::ReadVariable),
    ];
    interpreter.execute_code(&mut host, &"vars".to_string(), &code).unwrap();
    assert!(matches!(interpreter.stack().last(), Some(Value::Nil)));
    let code = vec![
        push(Value::Int(5)),
        word("b"),
        Instruction::new(None, Op::WriteVariable),
        Instruction::new(None, Op::MarkContext),
        Instruction::new(None, Op::DefVariable(Value::String("c".to_string()))),
        word("b"),
        Instruction::new(None, Op::ReadVariable),
        Instruction::new(None, Op::ReleaseContext),
    ];
    interpreter.execute_code(&mut host, &"vars".to_string(), &code).unwrap();
    assert_eq!(top_int(&interpreter), 5);
    assert_eq!(interpreter.variables().len(), 2);
    assert!(run(&mut interpreter, &mut host, "c").is_err());
    let code = vec![push(Value::Int(99)), Instruction::new(None, Op::ReadVariable)];
    assert!(interpreter.execute_code(&mut host, &"vars".to_string(), &code).is_err());
}

#[test]
fn constants_push_deep_clones() {
    let mut interpreter = new_interpreter();
    let mut host = TestHost::new();
    let code = vec![
        push(Value::Int(1)),
        word("[].new"),
        Instruction::new(None, Op::DefConstant(Value::String("box".to_string()))),
        push(Value::Int(7)),
        push(Value::Int(0)),
        word("box"),
        word("[]!"),
        push(Value::Int(0)),
        word("box"),
        word("[]@"),
    ];
    interpreter.execute_code(&mut host, &"constant".to_string(), &code).unwrap();
    assert!(matches!(interpreter.stack().last(), Some(Value::Nil)));
}

#[test]
fn contexts_are_balanced_after_a_failure() {
    let mut interpreter = new_interpreter();
    let mut host = TestHost::new();
    let before = interpreter.dictionary().depth();
    let code = vec![
        Instruction::new(None, Op::MarkContext),
        Instruction::new(None, Op::MarkContext),
        word("drop"),
    ];
    assert!(interpreter.execute_code(&mut host, &"broken".to_string(), &code).is_err());
    assert_eq!(interpreter.dictionary().depth(), before);
    let code = vec![Instruction::new(None, Op::MarkContext)];
    let error = interpreter.execute_code(&mut host, &"open".to_string(), &code).unwrap_err();
    assert_eq!(error.error(), "Unbalanced context handling detected.");
    assert_eq!(interpreter.dictionary().depth(), before);
    let code = vec![Instruction::new(None, Op::ReleaseContext)];
    assert!(interpreter.execute_code(&mut host, &"close".to_string(), &code).is_err());
    assert_eq!(interpreter.dictionary().depth(), before);
}

#[test]
fn unbalanced_loop_and_catch_markers_are_errors() {
    let mut interpreter = new_interpreter();
    let mut host = TestHost::new();
    for op in [Op::UnmarkLoopExit, Op::UnmarkCatch, Op::JumpLoopStart, Op::JumpLoopExit] {
        let code = vec![Instruction::new(None, op)];
        assert!(interpreter.execute_code(&mut host, &"x".to_string(), &code).is_err());
    }
    let code = vec![Instruction::new(None, Op::Jump(Value::String("nowhere".to_string())))];
    assert!(interpreter.execute_code(&mut host, &"x".to_string(), &code).is_err());
}

#[test]
fn the_budget_ends_an_endless_loop() {
    let mut interpreter = new_interpreter();
    let mut host = TestHost::new();
    interpreter.set_limits(1000, 50);
    let code = vec![Instruction::new(None, Op::Jump(Value::Int(0)))];
    let error = interpreter.execute_code(&mut host, &"forever".to_string(), &code).unwrap_err();
    assert_eq!(error.error(), "The execution budget is used up.");
    assert_eq!(interpreter.budget(), 0);
}

#[test]
fn endless_recursion_is_an_error() {
    let mut interpreter = new_interpreter();
    let mut host = TestHost::new();
    interpreter.set_limits(u64::MAX, 20);
    let error = run(&mut interpreter, &mut host, ": again again ; again").unwrap_err();
    assert_eq!(error, "Too many calls are nested.");
    assert_eq!(interpreter.call_stack().len(), 0);
}

#[test]
fn words_are_defined_and_called() {
    let mut interpreter = new_interpreter();
    let mut host = TestHost::new();
    run(
        &mut interpreter,
        &mut host,
        ": double description: \"Twice a number.\" signature: \"n -- n\" dup + ; 21 double",
    )
    .unwrap();
    assert_eq!(top_int(&interpreter), 42);
    let info = interpreter.find_word(&"double".to_string()).unwrap();
    assert_eq!(info.description, "Twice a number.");
    assert_eq!(info.signature, "n -- n");
    run(&mut interpreter, &mut host, "\"double\" defined?").unwrap();
    assert!(top_bool(&interpreter));
    run(&mut interpreter, &mut host, "[undefined?] triple").unwrap();
    assert!(top_bool(&interpreter));
    run(&mut interpreter, &mut host, "4 \"double\" execute").unwrap();
    assert_eq!(top_int(&interpreter), 8);
    run(&mut interpreter, &mut host, "5 ` double execute").unwrap();
    assert_eq!(top_int(&interpreter), 10);
}

#[test]
fn immediate_words_run_at_compile_time() {
    let mut interpreter = new_interpreter();
    let mut host = TestHost::new();
    run(
        &mut interpreter,
        &mut host,
        ": seven immediate 7 op.push_constant_value ; : f seven ; f",
    )
    .unwrap();
    assert_eq!(top_int(&interpreter), 7);
}

#[test]
fn an_undefined_word_is_bound_late() {
    let mut interpreter = new_interpreter();
    let mut host = TestHost::new();
    run(&mut interpreter, &mut host, ": caller callee ; : callee 3 ; caller").unwrap();
    assert_eq!(top_int(&interpreter), 3);
    assert!(run(&mut interpreter, &mut host, "nobody").is_err());
}

#[test]
fn compile_until_words_finds_its_end() {
    let mut interpreter = new_interpreter();
    let mut host = TestHost::new();
    run(
        &mut interpreter,
        &mut host,
        ": twice immediate \"end\" 1 code.compile_until_words drop ; : g twice 1 2 + end ; g",
    )
    .unwrap();
    assert_eq!(top_int(&interpreter), 3);
    let error = run(
        &mut interpreter,
        &mut host,
        ": h twice 1 2 + ;",
    )
    .unwrap_err();
    assert_eq!(error, "Could not find word end.");
}

#[test]
fn code_blocks_are_values() {
    let mut interpreter = new_interpreter();
    let mut host = TestHost::new();
    run(
        &mut interpreter,
        &mut host,
        ": block immediate code.new_block \"end\" 1 code.compile_until_words drop \
           code.pop_stack_block op.push_constant_value ; \
         : sizes block 1 2 3 end ; sizes",
    )
    .unwrap();
    match interpreter.stack().last() {
        Some(Value::Code(code)) => assert_eq!(code.len(), 3),
        other => panic!("expected code, found {:?}", other),
    }
}

#[test]
fn data_structures() {
    let mut interpreter = new_interpreter();
    let mut host = TestHost::new();
    run(
        &mut interpreter,
        &mut host,
        "\"point\" 2 [].new dup \"x\" swap 0 swap []! dup \"y\" swap 1 swap []! 1 0 = 1 0 = #",
    )
    .unwrap();
    run(&mut interpreter, &mut host, "point.new dup 5 swap point.x! dup point.x@").unwrap();
    assert_eq!(top_int(&interpreter), 5);
    run(&mut interpreter, &mut host, "drop dup point.y swap #@").unwrap();
    assert!(matches!(interpreter.stack().last(), Some(Value::Nil)));
    run(&mut interpreter, &mut host, "drop dup \"y\" swap #.field-exists?").unwrap();
    assert!(top_bool(&interpreter));
    run(&mut interpreter, &mut host, "drop dup \"z\" swap #.field-exists?").unwrap();
    assert!(!top_bool(&interpreter));
    run(&mut interpreter, &mut host, "drop point.new dup 5 swap point.x! #.=").unwrap();
    assert!(top_bool(&interpreter));
    assert!(run(&mut interpreter, &mut host, "point.new 7 swap #@").is_err());
}

#[test]
fn strings_words() {
    let mut interpreter = new_interpreter();
    let mut host = TestHost::new();
    run(&mut interpreter, &mut host, "255 hex").unwrap();
    assert_eq!(top_string(&interpreter), "ff");
    run(&mut interpreter, &mut host, "-1 hex").unwrap();
    assert_eq!(top_string(&interpreter), "ffffffffffffffff");
    run(&mut interpreter, &mut host, "unique_str unique_str").unwrap();
    assert_eq!(top_string(&interpreter), "unique-str-00000001");
    run(&mut interpreter, &mut host, "sorth.version").unwrap();
    assert_eq!(top_string(&interpreter), "0.1.0");
}

#[test]
fn source_files_are_found_on_the_search_path() {
    let mut interpreter = new_interpreter();
    let mut host = TestHost::new();
    interpreter.add_search_path(&host, &"/lib".to_string()).unwrap();
    assert!(interpreter.add_search_path(&host, &"/nowhere".to_string()).is_err());
    assert_eq!(
        interpreter.find_file(&host, &"extra.f".to_string()).unwrap(),
        "/lib/extra.f"
    );
    assert!(interpreter.find_file(&host, &"missing.f".to_string()).is_err());
    run(&mut interpreter, &mut host, "\"extra.f\" include").unwrap();
    assert_eq!(top_int(&interpreter), 42);
    assert_eq!(interpreter.search_paths().len(), 1);
    interpreter.drop_search_path().unwrap();
    assert!(interpreter.drop_search_path().is_err());
}

#[test]
fn external_words_run_on_the_host() {
    let mut interpreter = new_interpreter();
    let mut host = TestHost::new();
    interpreter.add_external_word(
        "host.word".to_string(),
        7,
        "A word of the host.".to_string(),
        " -- text".to_string(),
    );
    interpreter.add_external_word(
        "host.other".to_string(),
        8,
        "A word that the host does not know.".to_string(),
        " -- ".to_string(),
    );
    run(&mut interpreter, &mut host, "host.word").unwrap();
    assert_eq!(top_string(&interpreter), "from the host");
    assert_eq!(run(&mut interpreter, &mut host, "host.other").unwrap_err(), "unknown external word");
}

#[test]
fn the_stack_is_printed() {
    let mut interpreter = new_interpreter();
    let mut host = TestHost::new();
    run(&mut interpreter, &mut host, "1 \"two\" 3 [].new .s").unwrap();
    assert_eq!(host.output, "Depth: 3\n1\n\"two\"\n[ none, none, none ]\n");
}

#[test]
fn reset_empties_the_stack_and_drops_definitions() {
    let mut interpreter = new_interpreter();
    let mut host = TestHost::new();
    run(&mut interpreter, &mut host, ": mine 1 ; 1 2 3 reset").unwrap();
    assert_eq!(interpreter.stack().len(), 0);
    assert!(interpreter.find_word(&"mine".to_string()).is_none());
    assert!(interpreter.find_word(&"dup".to_string()).is_some());
}

#[test]
fn errors_are_rendered_with_location_and_call_stack() {
    let mut interpreter = new_interpreter();
    let mut host = TestHost::new();
    let error = interpreter
        .process_source(&mut host, &"file.f".to_string(), &"1\n  nobody".to_string())
        .unwrap_err();
    let text = error.to_string();
    assert!(text.starts_with("file.f (2, 3): Word nobody not found."), "{}", text);
    assert!(text.contains("\n\nCall stack\n  file.f (2, 3): <toplevel>\n"), "{}", text);
}

#[test]
fn the_memory_of_the_process_is_an_integer() {
    let mut interpreter = new_interpreter();
    let mut host = TestHost::new();
    run(&mut interpreter, &mut host, "sorth.memory").unwrap();
    assert_eq!(interpreter.stack().len(), 1);
    assert!(top_int(&interpreter) > 0);
}

#[test]
fn a_word_keeps_its_code_and_its_entry() {
    let mut interpreter = new_interpreter();
    let mut host = TestHost::new();
    run(
        &mut interpreter,
        &mut host,
        ": twice description: \"Doubles.\" signature: \"n -- n\" dup + ; 4 twice",
    )
    .unwrap();
    assert_eq!(top_int(&interpreter), 8);
    let info = interpreter.find_word(&"twice".to_string()).unwrap().clone();
    assert_eq!(info.description, "Doubles.");
    assert_eq!(info.signature, "n -- n");
    let handler = interpreter.word_handler_info(info.handler_index).unwrap();
    assert_eq!(handler.name(), "twice");
    match handler.handler() {
        Handler::Scripted(function) => {
            assert_eq!(function.name, "twice");
            assert_eq!(function.code.len(), 2);
        }
        other => panic!("expected a scripted word, found {:?}", other),
    }
}

#[test]
fn an_empty_source_changes_nothing() {
    let mut interpreter = new_interpreter();
    let mut host = TestHost::new();
    let budget = interpreter.budget();
    run(&mut interpreter, &mut host, "   \n\t ").unwrap();
    assert_eq!(interpreter.stack().len(), 0);
    assert_eq!(interpreter.budget(), budget);
    interpreter.set_limits(0, 10);
    run(&mut interpreter, &mut host, "").unwrap();
    assert!(run(&mut interpreter, &mut host, "1").is_err());
}

#[test]
fn only_words_and_indices_are_executed() {
    let mut interpreter = new_interpreter();
    let mut host = TestHost::new();
    assert!(interpreter.execute_value(&mut host, &Value::Bool(true)).is_err());
    assert!(interpreter.execute_value(&mut host, &Value::Nil).is_err());
    assert!(interpreter.execute_value(&mut host, &Value::Int(-1)).is_err());
    assert!(interpreter.execute_value(&mut host, &Value::Int(1_000_000)).is_err());
    assert!(interpreter.execute_value(&mut host, &Value::String("no.such.word".to_string())).is_err());
    interpreter.push(Value::Int(3));
    interpreter.execute_value(&mut host, &Value::String("dup".to_string())).unwrap();
    assert_eq!(interpreter.stack().len(), 2);
    let index = interpreter.find_word(&"drop".to_string()).unwrap().handler_index;
    interpreter.execute_value(&mut host, &Value::Int(index as i64)).unwrap();
    assert_eq!(interpreter.stack().len(), 1);
    assert_eq!(interpreter.stack_max_depth(), 2);
}

#[test]
fn tokens_compile_to_instructions() {
    let mut interpreter = new_interpreter();
    let mut host = TestHost::new();
    let location = SourceLocation::new_from_info(&"t".to_string(), 2, 3);
    interpreter.context_new(Vec::new());
    process_token(&mut interpreter, &mut host, Token::Word(location.clone(), "dup".to_string())).unwrap();
    process_token(&mut interpreter, &mut host, Token::Word(location.clone(), "later".to_string())).unwrap();
    process_token(&mut interpreter, &mut host, Token::Number(location.clone(), NumberType::Int(7))).unwrap();
    process_token(&mut interpreter, &mut host, Token::String(location.clone(), "text".to_string())).unwrap();
    let dup = interpreter.find_word(&"dup".to_string()).unwrap().handler_index as i64;
    let code = &interpreter.context().construction().unwrap().code;
    assert_eq!(code.len(), 4);
    assert!(matches!(&code[0].op, Op::Execute(Value::Int(index)) if *index == dup));
    assert!(matches!(&code[1].op, Op::Execute(Value::String(name)) if name == "later"));
    assert!(matches!(&code[2].op, Op::PushConstantValue(Value::Int(7))));
    assert!(matches!(&code[3].op, Op::PushConstantValue(Value::String(text)) if text == "text"));
    assert_eq!(code[0].location.as_ref().unwrap().line(), 2);
    assert_eq!(code[3].location.as_ref().unwrap().column(), 3);
    interpreter.context_drop().unwrap();
    assert!(
        process_token(&mut interpreter, &mut host, Token::Number(location, NumberType::Int(7))).is_err()
    );
}

#[test]
fn definition_words_have_their_names() {
    let mut interpreter = new_interpreter();
    let mut host = TestHost::new();
    run(
        &mut interpreter,
        &mut host,
        "\"point\" 2 [].new dup \"x\" swap 0 swap []! dup \"y\" swap 1 swap []! 1 0 = 1 0 = #",
    )
    .unwrap();
    for name in [
        "point.new", "point.x", "point.x!", "point.x@", "point.x!!", "point.x@@", "point.y",
        "point.y!", "point.y@", "point.y!!", "point.y@@",
    ] {
        assert!(interpreter.find_word(&name.to_string()).is_some(), "{}", name);
    }
    let first = interpreter.find_word(&"point.new".to_string()).unwrap().handler_index;
    let last = interpreter.find_word(&"point.y@@".to_string()).unwrap().handler_index;
    assert_eq!(last, first + 10);
    assert!(matches!(
        interpreter.word_handler_info(first + 7).unwrap().handler(),
        Handler::FieldWrite(1)
    ));
}

#[test]
fn words_change_the_depth_as_their_signatures_say() {
    let cases: Vec<(&str, usize, usize)> = vec![
        ("dup", 1, 2),
        ("drop", 1, 0),
        ("swap", 2, 2),
        ("over", 2, 3),
        ("rot", 3, 3),
        ("+", 2, 1),
        ("-", 2, 1),
        ("*", 2, 1),
        ("=", 2, 1),
        ("<", 2, 1),
        ("&&", 2, 1),
        ("'", 1, 1),
        ("stack.depth", 0, 1),
        ("{}.new", 0, 1),
        ("unique_str", 0, 1),
        ("sorth.version", 0, 1),
    ];
    for (word, takes, gives) in cases {
        let mut interpreter = new_interpreter();
        let mut host = TestHost::new();
        for value in [7i64, 5, 3, 2] {
            interpreter.push(Value::Int(value));
        }
        let before = interpreter.stack().len();
        match interpreter.execute_word_named(&mut host, &None, &word.to_string()) {
            Ok(()) => assert_eq!(interpreter.stack().len() + takes, before + gives, "{}", word),
            Err(error) => panic!("{} failed: {}", word, error.error()),
        }
        assert_eq!(interpreter.dictionary().depth(), 2, "{}", word);
    }
}

#[test]
fn numeric_pops_refuse_nil() {
    let mut interpreter = new_interpreter();
    let host = TestHost::new();
    interpreter.push(Value::Nil);
    let error = interpreter.pop_as_int(&host).unwrap_err();
    assert_eq!(error.error(), "Expected numeric value.");
    assert_eq!(interpreter.stack().len(), 0);
    interpreter.push(Value::Nil);
    let error = interpreter.pop_as_float(&host).unwrap_err();
    assert_eq!(error.error(), "Expected numeric value.");
    interpreter.push(Value::Bool(true));
    assert_eq!(interpreter.pop_as_int(&host).unwrap(), 1);
    interpreter.push(Value::Float(2.75f64.to_bits()));
    assert_eq!(interpreter.pop_as_int(&host).unwrap(), 2);
    interpreter.push(Value::Int(3));
    assert_eq!(f64::from_bits(interpreter.pop_as_float(&host).unwrap()), 3.0);
    let error = interpreter.pop_as_int(&host).unwrap_err();
    assert_eq!(error.error(), "Stack underflow.");
}

#[test]
fn typed_pops_take_the_top_of_a_stack() {
    let host = TestHost::new();
    let mut stack = vec![
        Value::String("left".to_string()),
        Value::Int(12),
        Value::Bool(true),
        Value::Float(1.5f64.to_bits()),
        Value::Int(0),
        Value::Nil,
        Value::Int(7),
    ];
    assert_eq!(take_int(&host, &mut stack), Ok(7));
    assert_eq!(take_int(&host, &mut stack), Err("Expected numeric value.".to_string()));
    assert_eq!(stack.len(), 5);
    assert_eq!(take_bool(&mut stack), Ok(false));
    assert_eq!(take_float(&host, &mut stack).map(f64::from_bits), Ok(1.5));
    assert_eq!(take_int(&host, &mut stack), Ok(1));
    assert_eq!(take_string(&host, &mut stack), Ok("12".to_string()));
    assert_eq!(take_string(&host, &mut stack), Ok("left".to_string()));
    assert_eq!(take_string(&host, &mut stack), Err("Stack underflow.".to_string()));
    assert_eq!(take_bool(&mut stack), Err("Stack underflow.".to_string()));
    assert_eq!(take_float(&host, &mut stack), Err("Stack underflow.".to_string()));
    let mut stack = vec![Value::Vec(0), Value::Vec(0), Value::Vec(0)];
    assert_eq!(take_bool(&mut stack), Err("Expected boolean value.".to_string()));
    assert_eq!(take_string(&host, &mut stack), Err("Expected a string value.".to_string()));
    assert_eq!(take_float(&host, &mut stack), Err("Expected numeric value.".to_string()));
    assert!(stack.is_empty());
}

#[test]
fn a_word_of_the_host_ends_as_the_host_says() {
    let mut interpreter = new_interpreter();
    interpreter.push(Value::Int(4));
    assert!(interpreter.external_done(Ok(())).is_ok());
    let error = interpreter.external_done(Err("the disk is full".to_string())).unwrap_err();
    assert_eq!(error.error(), "the disk is full");
    assert_eq!(interpreter.stack().len(), 1);
    assert_eq!(top_int(&interpreter), 4);
}

#[test]
fn empty_array_pops_name_their_end() {
    let mut interpreter = new_interpreter();
    let mut host = TestHost::new();
    let error = run(&mut interpreter, &mut host, "0 [].new [].pop_front!").unwrap_err();
    assert_eq!(error, "[].pop_front from an empty array.");
    assert_eq!(interpreter.stack().len(), 0);
    let error = run(&mut interpreter, &mut host, "0 [].new [].pop_back!").unwrap_err();
    assert_eq!(error, "[].pop_back from an empty array.");
    assert_eq!(interpreter.stack().len(), 0);
}

#[test]
fn a_caught_error_leaves_only_its_message() {
    let mut interpreter = new_interpreter();
    let mut host = TestHost::new();
    let code = vec![
        Instruction::new(None, Op::MarkCatch(Value::Int(4))),
        push(Value::String("boom".to_string())),
        word("throw"),
        push(Value::Int(99)),
        Instruction::new(None, Op::JumpTarget(Value::Nil)),
    ];
    interpreter
        .execute_code(&mut host, &"try".to_string(), &code)
        .unwrap();
    assert_eq!(interpreter.stack().len(), 1);
    assert_eq!(top_string(&interpreter), "boom");
    let mut interpreter = new_interpreter();
    run(&mut interpreter, &mut host, ": risky 1 0 / ;").unwrap();
    let code = vec![
        Instruction::new(None, Op::MarkCatch(Value::Int(2))),
        word("risky"),
        Instruction::new(None, Op::JumpTarget(Value::Nil)),
    ];
    interpreter
        .execute_code(&mut host, &"try".to_string(), &code)
        .unwrap();
    assert_eq!(interpreter.stack().len(), 1);
    assert_eq!(top_string(&interpreter), "Division by zero.");
}

#[test]
fn a_block_that_leaves_a_context_marked_fails() {
    let mut interpreter = new_interpreter();
    let mut host = TestHost::new();
    let variables = interpreter.variables().len();
    let depth = interpreter.dictionary().depth();
    let code = vec![
        Instruction::new(None, Op::MarkContext),
        Instruction::new(None, Op::DefVariable(Value::String("inside".to_string()))),
        Instruction::new(None, Op::MarkContext),
        push(Value::Int(1)),
    ];
    let error = interpreter
        .execute_code(&mut host, &"open".to_string(), &code)
        .unwrap_err();
    assert_eq!(error.error(), "Unbalanced context handling detected.");
    assert_eq!(interpreter.variables().len(), variables);
    assert_eq!(interpreter.dictionary().depth(), depth);
    assert!(interpreter.find_word(&"inside".to_string()).is_none());
    assert_eq!(top_int(&interpreter), 1);
}

#[test]
fn a_failing_word_releases_what_it_marked() {
    let mut interpreter = new_interpreter();
    let mut host = TestHost::new();
    let code = vec![
        Instruction::new(None, Op::DefVariable(Value::String("mine".to_string()))),
        Instruction::new(None, Op::MarkContext),
        Instruction::new(None, Op::DefVariable(Value::String("inner".to_string()))),
        push(Value::Int(1)),
        push(Value::Int(0)),
        word("/"),
    ];
    interpreter.add_word(
        "test".to_string(),
        1,
        1,
        "opens".to_string(),
        Handler::Scripted(std::rc::Rc::new(ScriptFunction::new(
            "opens".to_string(),
            SourceLocation::new(),
            code,
        ))),
        String::new(),
        String::new(),
        WordRuntime::Normal,
        WordVisibility::Visible,
        WordType::Scripted,
    );
    let variables = interpreter.variables().len();
    let depth = interpreter.dictionary().depth();
    let error = run(&mut interpreter, &mut host, "opens").unwrap_err();
    assert_eq!(error, "Division by zero.");
    assert_eq!(interpreter.variables().len(), variables);
    assert_eq!(interpreter.dictionary().depth(), depth);
    assert!(interpreter.find_word(&"mine".to_string()).is_none());
    assert!(interpreter.find_word(&"inner".to_string()).is_none());
    assert_eq!(interpreter.stack().len(), 0);
}

#[test]
fn numbers_and_booleans_compare_by_their_number() {
    let mut interpreter = new_interpreter();
    let mut host = TestHost::new();
    run(&mut interpreter, &mut host, "1 1 1 = =").unwrap();
    assert!(top_bool(&interpreter));
    run(&mut interpreter, &mut host, "0 1 1 = =").unwrap();
    assert!(!top_bool(&interpreter));
    run(&mut interpreter, &mut host, "0 1 0 = =").unwrap();
    assert!(top_bool(&interpreter));
    run(&mut interpreter, &mut host, "0 0 [].new =").unwrap();
    assert!(!top_bool(&interpreter));
    run(&mut interpreter, &mut host, "{}.new 0 [].new =").unwrap();
    assert!(!top_bool(&interpreter));
    run(&mut interpreter, &mut host, "2 [].new 2 [].new =").unwrap();
    assert!(top_bool(&interpreter));
    run(&mut interpreter, &mut host, "2 [].new 3 [].new =").unwrap();
    assert!(!top_bool(&interpreter));
}

#[test]
fn an_integer_is_written_as_a_float() {
    let mut interpreter = new_interpreter();
    let mut host = TestHost::new();
    run(
        &mut interpreter,
        &mut host,
        "8 buffer.new dup 3 swap 8 buffer.float! dup 0 swap buffer.position! 8 buffer.float@",
    )
    .unwrap();
    match interpreter.stack().last() {
        Some(Value::Float(bits)) => assert_eq!(f64::from_bits(*bits), 3.0),
        other => panic!("expected a float, found {:?}", other),
    }
}

#[test]
fn words_may_nest_deeper_than_a_few_hundred_calls() {
    let mut interpreter = new_interpreter();
    let mut host = TestHost::new();
    let mut source = String::from(": w0 1 ;");
    for level in 1..400 {
        source.push_str(&format!(" : w{} w{} 1 + ;", level, level - 1));
    }
    source.push_str(" w399");
    run(&mut interpreter, &mut host, &source).unwrap();
    assert_eq!(top_int(&interpreter), 400);
}

#[test]
fn an_unknown_library_leaves_the_stack() {
    let mut interpreter = new_interpreter();
    let mut host = TestHost::new();
    run(
        &mut interpreter,
        &mut host,
        "\"libc.so.6\" \"c\" ffi.load \
         1 [].new dup \"ffi.string\" swap 0 swap []! \
         \"c\" swap \"strlen\" swap \"\" swap \"ffi.u64\" ffi.fn",
    )
    .unwrap_or_else(|error| panic!("{}", error));
    interpreter.reset_ffi();
    interpreter.push(Value::String("four".to_string()));
    let error = interpreter
        .execute_word_named(&mut host, &None, &"strlen".to_string())
        .unwrap_err();
    assert_eq!(error.error(), "Library c is not loaded.");
    assert_eq!(interpreter.stack().len(), 1);
    assert_eq!(top_string(&interpreter), "four");
}

#[test]
fn containers_are_equal_where_they_hold_the_same() {
    let mut interpreter = new_interpreter();
    let mut host = TestHost::new();
    run(
        &mut interpreter,
        &mut host,
        "{}.new dup 10 swap \"ten\" swap {}! {}.new dup 10 swap \"ten\" swap {}! =",
    )
    .unwrap();
    assert!(top_bool(&interpreter));
    run(
        &mut interpreter,
        &mut host,
        "{}.new dup 10 swap \"ten\" swap {}! {}.new dup 11 swap \"ten\" swap {}! =",
    )
    .unwrap();
    assert!(!top_bool(&interpreter));
    run(
        &mut interpreter,
        &mut host,
        "{}.new dup 10 swap \"ten\" swap {}! {}.new dup 10 swap \"zehn\" swap {}! =",
    )
    .unwrap();
    assert!(!top_bool(&interpreter));
    run(&mut interpreter, &mut host, "{}.new dup 10 swap \"ten\" swap {}! {}.new =").unwrap();
    assert!(!top_bool(&interpreter));
    run(
        &mut interpreter,
        &mut host,
        "4 buffer.new dup 7 swap 2 buffer.int! 4 buffer.new dup 7 swap 2 buffer.int! =",
    )
    .unwrap();
    assert!(top_bool(&interpreter));
    run(
        &mut interpreter,
        &mut host,
        "4 buffer.new dup 7 swap 2 buffer.int! 4 buffer.new dup 8 swap 2 buffer.int! =",
    )
    .unwrap();
    assert!(!top_bool(&interpreter));
    run(&mut interpreter, &mut host, "4 buffer.new dup 7 swap 2 buffer.int! 4 buffer.new =")
        .unwrap();
    assert!(!top_bool(&interpreter));
}

#[test]
fn booleans_are_ordered_as_numbers_and_containers_not_at_all() {
    let mut interpreter = new_interpreter();
    let mut host = TestHost::new();
    run(&mut interpreter, &mut host, "0 1 1 = <").unwrap();
    assert!(top_bool(&interpreter));
    run(&mut interpreter, &mut host, "1 1 1 = >=").unwrap();
    assert!(top_bool(&interpreter));
    run(&mut interpreter, &mut host, "2 1 1 = <=").unwrap();
    assert!(!top_bool(&interpreter));
    run(&mut interpreter, &mut host, "0 [].new 1 <").unwrap();
    assert!(!top_bool(&interpreter));
    run(&mut interpreter, &mut host, "0 [].new 1 >=").unwrap();
    assert!(!top_bool(&interpreter));
    run(&mut interpreter, &mut host, "\"a\" 1 <").unwrap();
    assert!(!top_bool(&interpreter));
    run(&mut interpreter, &mut host, "\"a\" \"b\" <").unwrap();
    assert!(top_bool(&interpreter));
}

#[test]
fn a_file_is_looked_for_in_the_last_search_path_first() {
    let mut interpreter = new_interpreter();
    let host = TestHost::new();
    interpreter.add_found_path(&"/lib".to_string(), true).unwrap();
    interpreter.add_found_path(&"/work".to_string(), true).unwrap();
    assert_eq!(interpreter.search_candidate(0), Some(&"/work".to_string()));
    assert_eq!(interpreter.search_candidate(1), Some(&"/lib".to_string()));
    assert_eq!(interpreter.search_candidate(2), None);
    let path = "extra.f".to_string();
    assert_eq!(interpreter.search_place(&path, 0), Some("extra.f".to_string()));
    assert_eq!(interpreter.search_place(&path, 1), Some("/work/extra.f".to_string()));
    assert_eq!(interpreter.search_place(&path, 2), Some("/lib/extra.f".to_string()));
    assert_eq!(interpreter.search_place(&path, 3), None);
    assert_eq!(interpreter.find_file(&host, &path).unwrap(), "/lib/extra.f");
    assert_eq!(
        interpreter.find_file(&host, &"main.f".to_string()).unwrap(),
        "/work/main.f"
    );
    interpreter
        .add_search_path_for_file(&host, &"/lib/extra.f".to_string())
        .unwrap();
    assert_eq!(interpreter.search_paths().last(), Some(&"/lib".to_string()));
}

#[test]
fn a_missing_key_is_named_and_nothing_is_pushed() {
    let mut interpreter = new_interpreter();
    let mut host = TestHost::new();
    let error = run(&mut interpreter, &mut host, "7 {}.new dup 10 swap \"ten\" swap {}! \"nine\" swap {}@")
        .unwrap_err();
    assert_eq!(error, "Key nine not found in hash table.");
    assert_eq!(interpreter.stack().len(), 1);
    assert_eq!(top_int(&interpreter), 7);
    let error = run(&mut interpreter, &mut host, "{}.new 12 swap {}@").unwrap_err();
    assert_eq!(error, "Key 12 not found in hash table.");
    assert_eq!(interpreter.stack().len(), 1);
}

#[test]
fn an_array_read_past_the_end_pushes_nothing() {
    let mut interpreter = new_interpreter();
    let mut host = TestHost::new();
    let error = run(&mut interpreter, &mut host, "7 3 [].new 3 swap []@").unwrap_err();
    assert_eq!(error, "Index is out of bounds for array.");
    assert_eq!(interpreter.stack().len(), 1);
    assert_eq!(top_int(&interpreter), 7);
    assert!(run(&mut interpreter, &mut host, "drop 3 [].new []@").is_err());
    assert_eq!(interpreter.stack().len(), 0);
}

#[test]
fn execute_fails_where_no_call_may_be_nested() {
    let mut interpreter = new_interpreter();
    let mut host = TestHost::new();
    interpreter.set_limits(u64::MAX, 0);
    interpreter.push(Value::Int(5));
    interpreter.push(Value::String("dup".to_string()));
    let error = sorth::runtime::built_ins::base_words::word_words::word_execute(
        &mut interpreter,
        &mut host,
    )
    .unwrap_err();
    assert_eq!(error.error(), "Too many calls are nested.");
    assert_eq!(interpreter.stack().len(), 1);
    assert_eq!(top_int(&interpreter), 5);
}

#[test]
fn the_core_words_are_found_under_their_names() {
    let mut interpreter = SorthInterpreter::new();
    register_base_words(&mut interpreter);
    for name in ["dup", "drop", "+", "/", "=", "throw", "[].new", "{}@", "buffer.new", "execute"] {
        let info = interpreter.find_word(&name.to_string()).unwrap().clone();
        let handler = interpreter.word_handler_info(info.handler_index).unwrap();
        assert_eq!(handler.name(), name);
        assert!(matches!(handler.handler(), Handler::Native(_)), "{}", name);
    }
    let first = interpreter.find_word(&"dup".to_string()).unwrap().handler_index;
    register_base_words(&mut interpreter);
    let second = interpreter.find_word(&"dup".to_string()).unwrap().handler_index;
    assert!(second > first);
    assert!(matches!(
        interpreter.word_handler_info(second).unwrap().handler(),
        Handler::Native(sorth::runtime::interpreter::NativeWord::Dup)
    ));
}

#[test]
fn a_token_is_compiled_under_the_name_that_it_is_given() {
    let mut interpreter = new_interpreter();
    let mut host = TestHost::new();
    let location = SourceLocation::new_from_info(&"t".to_string(), 4, 5);
    let named = SourceLocation::new_from_info(&"t".to_string(), 6, 7);
    interpreter.context_new(Vec::new());
    let float = Token::Number(location.clone(), NumberType::Float(1.5f64.to_bits()));
    compile_token(&mut interpreter, &mut host, float, Some((named.clone(), "1.5".to_string())))
        .unwrap();
    let float = Token::Number(location.clone(), NumberType::Float(2.5f64.to_bits()));
    compile_token(&mut interpreter, &mut host, float, Some((named.clone(), "dup".to_string())))
        .unwrap();
    let word = Token::Word(location.clone(), "swap".to_string());
    compile_token(&mut interpreter, &mut host, word, None).unwrap();
    let dup = interpreter.find_word(&"dup".to_string()).unwrap().handler_index as i64;
    {
        let code = &interpreter.context().construction().unwrap().code;
        assert_eq!(code.len(), 3);
        assert!(matches!(&code[0].op, Op::PushConstantValue(Value::Float(bits)) if f64::from_bits(*bits) == 1.5));
        assert_eq!(code[0].location.as_ref().unwrap().line(), 4);
        assert!(matches!(&code[1].op, Op::Execute(Value::Int(index)) if *index == dup));
        assert_eq!(code[1].location.as_ref().unwrap().line(), 6);
        assert!(matches!(&code[2].op, Op::Execute(Value::String(name)) if name == "swap"));
    }
    interpreter.push(Value::Int(8));
    let immediate = Token::Word(location.clone(), "[defined?]".to_string());
    interpreter.context_drop().unwrap();
    interpreter.context_new(vec![Token::Word(location.clone(), "dup".to_string())]);
    compile_token(
        &mut interpreter,
        &mut host,
        immediate,
        Some((named, "[defined?]".to_string())),
    )
    .unwrap();
    assert!(top_bool(&interpreter));
    assert_eq!(interpreter.context().construction().unwrap().code.len(), 0);
    interpreter.context_drop().unwrap();
}
