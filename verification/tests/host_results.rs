use sorth::lang::source_buffer::SourceLocation;
use sorth::runtime::built_ins::base_words::register_base_words;
use sorth::runtime::built_ins::base_words::sorth_words::push_memory;
use sorth::runtime::built_ins::base_words::sorth_words::stack_text;
use sorth::runtime::built_ins::ffi_words::bind_function;
use sorth::runtime::built_ins::ffi_words::check_alignment;
use sorth::runtime::built_ins::ffi_words::FfiInterface;
use sorth::runtime::built_ins::ffi_words::library_loaded;
use sorth::runtime::built_ins::ffi_words::prepare_call;
use sorth::runtime::built_ins::ffi_words::FfiType;
use sorth::runtime::built_ins::ffi_words::FfiWord;
use sorth::runtime::built_ins::ffi_words::NativeCall;
use sorth::runtime::built_ins::ffi_words::TypeInfo;
use sorth::runtime::data_structures::contextual_data::ContextualData;
use sorth::runtime::data_structures::heap::Heap;
use sorth::runtime::data_structures::value::Value;
use sorth::runtime::host::Host;
use sorth::runtime::interpreter::sorth_interpreter::SorthInterpreter;
use sorth::runtime::interpreter::Handler;

struct TestHost {
    output: String,
}

impl TestHost {
    fn new() -> TestHost {
        TestHost { output: String::new() }
    }
}

impl Host for TestHost {
    fn float_parse(&self, text: &String) -> Option<u64> {
        text.parse::<f64>().ok().map(|f| f.to_bits())
    }

    fn float_to_string(&self, bits: u64) -> String {
        f64::from_bits(bits).to_string()
    }

    fn float_from_int(&self, value: i64) -> u64 {
        (value as f64).to_bits()
    }

    fn float_to_int(&self, bits: u64) -> i64 {
        f64::from_bits(bits) as i64
    }

    fn float_add(&self, a: u64, b: u64) -> u64 {
        (f64::from_bits(a) + f64::from_bits(b)).to_bits()
    }

    fn float_subtract(&self, a: u64, b: u64) -> u64 {
        (f64::from_bits(a) - f64::from_bits(b)).to_bits()
    }

    fn float_multiply(&self, a: u64, b: u64) -> u64 {
        (f64::from_bits(a) * f64::from_bits(b)).to_bits()
    }

    fn float_divide(&self, a: u64, b: u64) -> u64 {
        (f64::from_bits(a) / f64::from_bits(b)).to_bits()
    }

    fn float_remainder(&self, a: u64, b: u64) -> u64 {
        (f64::from_bits(a) % f64::from_bits(b)).to_bits()
    }

    fn float_equal(&self, a: u64, b: u64) -> bool {
        f64::from_bits(a) == f64::from_bits(b)
    }

    fn float_less(&self, a: u64, b: u64) -> bool {
        f64::from_bits(a) < f64::from_bits(b)
    }

    fn float_narrow(&self, bits: u64) -> u32 {
        (f64::from_bits(bits) as f32).to_bits()
    }

    fn float_widen(&self, bits: u32) -> u64 {
        (f32::from_bits(bits) as f64).to_bits()
    }

    fn canonical_path(&self, path: &String) -> Option<String> {
        if path == "/lib" || path == "/lib/extra.f" || path == "/work/main.f" {
            Some(path.clone())
        } else {
            None
        }
    }

    fn read_file(&mut self, path: &String) -> Result<String, String> {
        if path == "/lib/extra.f" {
            Ok("40 2 +".to_string())
        } else {
            Err("no such file".to_string())
        }
    }

    fn write_output(&mut self, text: &String) {
        self.output.push_str(text);
    }

    fn execute_external(
        &mut self,
        word: usize,
        stack: &mut Vec<Value>,
        _heap: &Heap,
    ) -> Result<(), String> {
        if word == 7 {
            stack.push(Value::String("from the host".to_string()));
            Ok(())
        } else {
            Err("unknown external word".to_string())
        }
    }

    fn load_library(&mut self, name: &String) -> Result<usize, String> {
        if name == "libc.so.6" {
            Ok(1)
        } else {
            Err("not found".to_string())
        }
    }

    fn find_symbol(&mut self, library: usize, symbol: &String) -> Result<(), String> {
        if library == 1 && symbol == "strlen" {
            Ok(())
        } else {
            Err("no such symbol".to_string())
        }
    }

    fn call_native(
        &mut self,
        library: usize,
        symbol: &String,
        call: &NativeCall,
    ) -> Result<Vec<u8>, String> {
        if library != 1 || symbol != "strlen" || call.pointer_slots.len() != 1 {
            return Err("bad call".to_string());
        }
        let slot = call.pointer_slots[0];
        let mut raw = [0u8; 8];
        raw.copy_from_slice(&call.arguments[slot..slot + 8]);
        let offset = u64::from_le_bytes(raw) as usize;
        let mut length: u64 = 0;
        while call.overflow[offset + length as usize] != 0 {
            length += 1;
        }
        let mut result = length.to_le_bytes().to_vec();
        result.resize(call.return_size.max(8), 0);
        Ok(result)
    }

    fn read_c_string(&mut self, _address: u64) -> String {
        String::new()
    }
}

fn interpreter_with_words() -> SorthInterpreter {
    let mut interpreter = SorthInterpreter::new();
    register_base_words(&mut interpreter);
    interpreter.mark_context();
    interpreter
}

#[test]
fn a_loaded_library_is_registered_under_its_alias() {
    let mut interpreter = interpreter_with_words();
    library_loaded(&mut interpreter, "c".to_string(), &"libc.so".to_string(), Ok(7)).unwrap();
    assert_eq!(interpreter.ffi().libs.len(), 1);
    assert_eq!(interpreter.ffi().libs[0].0, "c");
    assert_eq!(interpreter.ffi().libs[0].1, 7);
    let error = library_loaded(
        &mut interpreter,
        "m".to_string(),
        &"libm.so".to_string(),
        Err("no such file".to_string()),
    )
    .unwrap_err();
    assert_eq!(error.error(), "Failed to load library libm.so: no such file.");
    assert_eq!(interpreter.ffi().libs.len(), 1);
}

#[test]
fn the_memory_that_the_system_told_is_pushed() {
    let mut interpreter = interpreter_with_words();
    push_memory(&mut interpreter, true, Some(4096)).unwrap();
    assert!(matches!(interpreter.stack().last(), Some(Value::Int(4096))));
    push_memory(&mut interpreter, true, Some(u64::MAX)).unwrap();
    assert!(matches!(interpreter.stack().last(), Some(Value::Int(i64::MAX))));
    let error = push_memory(&mut interpreter, true, None).unwrap_err();
    assert_eq!(error.error(), "Could not read process memory information.");
    let error = push_memory(&mut interpreter, false, Some(1)).unwrap_err();
    assert_eq!(error.error(), "Could not read process pid.");
    assert_eq!(interpreter.stack().len(), 2);
}

#[test]
fn a_function_that_was_found_is_bound_to_a_word() {
    let mut interpreter = interpreter_with_words();
    let names = vec![Value::String("ffi.string".to_string()), Value::String("ffi.i32".to_string())];
    bind_function(
        &mut interpreter,
        SourceLocation::new(),
        "c".to_string(),
        "strncmp".to_string(),
        "compare".to_string(),
        names,
        "ffi.i32".to_string(),
        Ok(()),
    )
    .unwrap();
    let info = interpreter.find_word(&"compare".to_string()).unwrap().clone();
    assert_eq!(info.signature, "ffi.string ffi.i32 -- ffi.i32");
    assert_eq!(info.description, "Call native function strncmp in library c.");
    match interpreter.word_handler_info(info.handler_index).unwrap().handler() {
        Handler::Foreign(word) => {
            assert_eq!(word.library_name, "c");
            assert_eq!(word.function_name, "strncmp");
            assert_eq!(word.arg_types.len(), 2);
            assert!(word.arg_types[0].ffi_type == FfiType::String);
            assert!(word.return_type.ffi_type == FfiType::I32);
        }
        other => panic!("expected a word for a native function, found {:?}", other),
    }
    let error = bind_function(
        &mut interpreter,
        SourceLocation::new(),
        "c".to_string(),
        "nothing".to_string(),
        "nothing".to_string(),
        Vec::new(),
        "ffi.void".to_string(),
        Err("undefined symbol".to_string()),
    )
    .unwrap_err();
    assert_eq!(
        error.error(),
        "Failed to get symbol nothing from library c: undefined symbol."
    );
    assert!(bind_function(
        &mut interpreter,
        SourceLocation::new(),
        "c".to_string(),
        "puts".to_string(),
        "puts".to_string(),
        vec![Value::String("ffi.text".to_string())],
        "ffi.i32".to_string(),
        Ok(()),
    )
    .is_err());
    assert!(bind_function(
        &mut interpreter,
        SourceLocation::new(),
        "c".to_string(),
        "puts".to_string(),
        "puts".to_string(),
        vec![Value::Int(1)],
        "ffi.i32".to_string(),
        Ok(()),
    )
    .is_err());
    assert!(interpreter.find_word(&"puts".to_string()).is_none());
}

#[test]
fn a_call_is_laid_out_from_the_stack() {
    let mut interpreter = interpreter_with_words();
    let host = TestHost::new();
    let word = FfiWord::new(
        "c".to_string(),
        "f".to_string(),
        vec![
            TypeInfo { ffi_type: FfiType::U16, name: "ffi.u16".to_string() },
            TypeInfo { ffi_type: FfiType::String, name: "ffi.string".to_string() },
        ],
        TypeInfo { ffi_type: FfiType::I8, name: "ffi.i8".to_string() },
    );
    interpreter.push(Value::Int(99));
    interpreter.push(Value::Int(0x0102));
    interpreter.push(Value::String("ab".to_string()));
    let call = prepare_call(&mut interpreter, &host, &word).unwrap();
    assert_eq!(interpreter.stack().len(), 1);
    assert_eq!(call.offsets, vec![0, 8]);
    assert_eq!(call.pointer_slots, vec![8]);
    assert_eq!(call.arguments.len(), 16);
    assert_eq!(&call.arguments[0..2], &[2, 1]);
    assert_eq!(&call.overflow[0..3], b"ab\0");
    assert_eq!(call.return_size, 8);
    assert!(call.return_type == FfiType::I8);
    assert!(call.argument_types[1] == FfiType::String);
    interpreter.push(Value::String("text".to_string()));
    interpreter.push(Value::String("ab".to_string()));
    assert!(prepare_call(&mut interpreter, &host, &word).is_err());
    let mut empty = interpreter_with_words();
    assert!(prepare_call(&mut empty, &host, &word).is_err());
}

#[test]
fn search_paths_follow_what_the_host_found() {
    let mut interpreter = interpreter_with_words();
    interpreter.add_found_path(&"/lib".to_string(), true).unwrap();
    let error = interpreter.add_found_path(&"/none".to_string(), false).unwrap_err();
    assert_eq!(error.error(), "Could not append search path /none.");
    assert_eq!(interpreter.search_paths().len(), 1);
    interpreter
        .add_directory_of(&"/lib/a.f".to_string(), true, Some("/lib".to_string()), true)
        .unwrap();
    assert_eq!(interpreter.search_paths().len(), 2);
    assert_eq!(interpreter.search_paths()[1], "/lib");
    let error =
        interpreter.add_directory_of(&"a.f".to_string(), false, None, false).unwrap_err();
    assert_eq!(error.error(), "Path a.f does not exist.");
    let error = interpreter.add_directory_of(&"a.f".to_string(), true, None, false).unwrap_err();
    assert_eq!(error.error(), "Could not get parent directory for file a.f.");
    let error = interpreter
        .add_directory_of(&"a.f".to_string(), true, Some("/gone".to_string()), false)
        .unwrap_err();
    assert_eq!(error.error(), "Could not append search path /gone.");
    assert_eq!(interpreter.file_found(&"a.f".to_string(), Some("/x/a.f".to_string())).unwrap(), "/x/a.f");
    let error = interpreter.file_found(&"a.f".to_string(), None).unwrap_err();
    assert_eq!(error.error(), "File a.f not found.");
}

#[test]
fn a_file_that_was_read_is_processed() {
    let mut interpreter = interpreter_with_words();
    let mut host = TestHost::new();
    interpreter
        .process_file_text(&mut host, &"/lib/extra.f".to_string(), Ok("1 2 +".to_string()))
        .unwrap();
    assert!(matches!(interpreter.stack().last(), Some(Value::Int(3))));
    assert_eq!(interpreter.search_paths().len(), 0);
    let error = interpreter
        .process_file_text(&mut host, &"/lib/extra.f".to_string(), Err("denied".to_string()))
        .unwrap_err();
    assert_eq!(error.error(), "Could not read file /lib/extra.f: denied");
    assert!(interpreter
        .process_file_text(&mut host, &"/lib/extra.f".to_string(), Ok("\"open".to_string()))
        .is_err());
    assert_eq!(interpreter.stack().len(), 1);
}

#[test]
fn the_stack_is_listed_from_the_bottom() {
    let mut interpreter = interpreter_with_words();
    let host = TestHost::new();
    assert_eq!(stack_text(&host, &interpreter), "Depth: 0\n");
    interpreter.push(Value::Int(-3));
    interpreter.push(Value::String("a \"b\"".to_string()));
    interpreter.push(Value::Bool(true));
    interpreter.push(Value::Nil);
    assert_eq!(
        stack_text(&host, &interpreter),
        "Depth: 4\n-3\n\"a \\\"b\\\"\"\ntrue\nnone\n"
    );
}

#[test]
fn every_power_of_two_is_an_alignment() {
    assert!(check_alignment(1));
    assert!(check_alignment(8));
    assert!(check_alignment(8192));
    assert!(check_alignment(1usize << (usize::BITS - 1)));
    assert!(!check_alignment(0));
    assert!(!check_alignment(12));
    assert_eq!(FfiInterface::alignment(4, 8), 4);
    assert_eq!(FfiInterface::alignment(8, 8192), 8184);
    assert_eq!(FfiInterface::alignment(16, 8), 0);
    let top = 1usize << (usize::BITS - 1);
    assert_eq!(FfiInterface::alignment(top, top), 0);
    assert_eq!(FfiInterface::alignment(1, top), top - 1);
}
