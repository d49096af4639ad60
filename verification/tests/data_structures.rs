use sorth::lang::code::Instruction;
use sorth::lang::code::Op;
use sorth::lang::source_buffer::SourceLocation;
use sorth::runtime::built_ins::ffi_words::NativeCall;
use sorth::runtime::data_structures::byte_buffer::Buffer;
use sorth::runtime::data_structures::byte_buffer::ByteBuffer;
use sorth::runtime::data_structures::contextual_data::ContextualData;
use sorth::runtime::data_structures::contextual_list::ContextualList;
use sorth::runtime::data_structures::data_object::DataObject;
use sorth::runtime::data_structures::data_object::DataObjectDefinition;
use sorth::runtime::data_structures::dictionary::Dictionary;
use sorth::runtime::data_structures::dictionary::WordInfo;
use sorth::runtime::data_structures::dictionary::WordRuntime;
use sorth::runtime::data_structures::dictionary::WordVisibility;
use sorth::runtime::data_structures::display::dictionary_text;
use sorth::runtime::data_structures::display::pretty_print_code;
use sorth::runtime::data_structures::display::value_text;
use sorth::runtime::data_structures::heap::DeepClone;
use sorth::runtime::data_structures::heap::Heap;
use sorth::runtime::data_structures::heap::HeapCell;
use sorth::runtime::data_structures::value::same_value;
use sorth::runtime::data_structures::value::value_format_indent;
use sorth::runtime::data_structures::value::value_format_indent_dec;
use sorth::runtime::data_structures::value::value_format_indent_inc;
use sorth::runtime::data_structures::value::ToValue;
use sorth::runtime::data_structures::value::Value;
use sorth::runtime::data_structures::value_hash::ValueHash;
use sorth::runtime::data_structures::value_vec::ValueVec;
use sorth::runtime::error::script_error_str;
use sorth::runtime::error::ScriptError;
use sorth::runtime::host::Host;
use sorth::runtime::interpreter::sorth_interpreter::SorthInterpreter;
use sorth::runtime::interpreter::CallItem;

struct TestHost {
    output: String,
}

impl TestHost {
    fn new() -> TestHost {
        TestHost { output: String::new() }
    }
}

impl Host for TestHost {
    fn float_parse(&self, text: &String) -> Option<u64> {
        text.parse::<f64>().ok().map(|f| f.to_bits())
    }

    fn float_to_string(&self, bits: u64) -> String {
        f64::from_bits(bits).to_string()
    }

    fn float_from_int(&self, value: i64) -> u64 {
        (value as f64).to_bits()
    }

    fn float_to_int(&self, bits: u64) -> i64 {
        f64::from_bits(bits) as i64
    }

    fn float_add(&self, a: u64, b: u64) -> u64 {
        (f64::from_bits(a) + f64::from_bits(b)).to_bits()
    }

    fn float_subtract(&self, a: u64, b: u64) -> u64 {
        (f64::from_bits(a) - f64::from_bits(b)).to_bits()
    }

    fn float_multiply(&self, a: u64, b: u64) -> u64 {
        (f64::from_bits(a) * f64::from_bits(b)).to_bits()
    }

    fn float_divide(&self, a: u64, b: u64) -> u64 {
        (f64::from_bits(a) / f64::from_bits(b)).to_bits()
    }

    fn float_remainder(&self, a: u64, b: u64) -> u64 {
        (f64::from_bits(a) % f64::from_bits(b)).to_bits()
    }

    fn float_equal(&self, a: u64, b: u64) -> bool {
        f64::from_bits(a) == f64::from_bits(b)
    }

    fn float_less(&self, a: u64, b: u64) -> bool {
        f64::from_bits(a) < f64::from_bits(b)
    }

    fn float_narrow(&self, bits: u64) -> u32 {
        (f64::from_bits(bits) as f32).to_bits()
    }

    fn float_widen(&self, bits: u32) -> u64 {
        (f32::from_bits(bits) as f64).to_bits()
    }

    fn canonical_path(&self, path: &String) -> Option<String> {
        if path == "/lib" || path == "/lib/extra.f" || path == "/work/main.f" {
            Some(path.clone())
        } else {
            None
        }
    }

    fn read_file(&mut self, path: &String) -> Result<String, String> {
        if path == "/lib/extra.f" {
            Ok("40 2 +".to_string())
        } else {
            Err("no such file".to_string())
        }
    }

    fn write_output(&mut self, text: &String) {
        self.output.push_str(text);
    }

    fn execute_external(
        &mut self,
        word: usize,
        stack: &mut Vec<Value>,
        _heap: &Heap,
    ) -> Result<(), String> {
        if word == 7 {
            stack.push(Value::String("from the host".to_string()));
            Ok(())
        } else {
            Err("unknown external word".to_string())
        }
    }

    fn load_library(&mut self, name: &String) -> Result<usize, String> {
        if name == "libc.so.6" {
            Ok(1)
        } else {
            Err("not found".to_string())
        }
    }

    fn find_symbol(&mut self, library: usize, symbol: &String) -> Result<(), String> {
        if library == 1 && symbol == "strlen" {
            Ok(())
        } else {
            Err("no such symbol".to_string())
        }
    }

    fn call_native(
        &mut self,
        library: usize,
        symbol: &String,
        call: &NativeCall,
    ) -> Result<Vec<u8>, String> {
        if library != 1 || symbol != "strlen" || call.pointer_slots.len() != 1 {
            return Err("bad call".to_string());
        }
        let slot = call.pointer_slots[0];
        let mut raw = [0u8; 8];
        raw.copy_from_slice(&call.arguments[slot..slot + 8]);
        let offset = u64::from_le_bytes(raw) as usize;
        let mut length: u64 = 0;
        while call.overflow[offset + length as usize] != 0 {
            length += 1;
        }
        let mut result = length.to_le_bytes().to_vec();
        result.resize(call.return_size.max(8), 0);
        Ok(result)
    }

    fn read_c_string(&mut self, _address: u64) -> String {
        String::new()
    }
}

#[test]
fn contextual_list_keeps_indices_across_contexts() {
    let mut list: ContextualList<i64> = ContextualList::new();
    assert_eq!(list.len(), 0);
    assert_eq!(list.insert(10), 0);
    assert_eq!(list.insert(11), 1);
    list.mark_context();
    assert_eq!(list.len(), 2);
    assert_eq!(list.insert(12), 2);
    list.mark_context();
    list.mark_context();
    assert_eq!(list.insert(13), 3);
    assert_eq!(*list.index(0), 10);
    assert_eq!(*list.index(2), 12);
    assert_eq!(*list.index(3), 13);
    list.set(1, 21);
    list.set(3, 23);
    assert_eq!(*list.index(1), 21);
    assert_eq!(*list.index(3), 23);
    list.release_context();
    assert_eq!(list.len(), 3);
    list.release_context();
    list.release_context();
    assert_eq!(list.len(), 2);
    assert_eq!(*list.index(1), 21);
}

fn info(name: &str, index: usize) -> WordInfo {
    let mut info = WordInfo::new();
    info.name = name.to_string();
    info.handler_index = index;
    info.description = format!("The word {}.", name);
    info
}

#[test]
fn dictionary_looks_up_the_innermost_context_first() {
    let mut dictionary = Dictionary::new();
    dictionary.insert("a".to_string(), info("a", 1));
    dictionary.insert("b".to_string(), info("b", 2));
    dictionary.mark_context();
    dictionary.insert("a".to_string(), info("a", 3));
    assert_eq!(dictionary.try_get(&"a".to_string()).unwrap().handler_index, 3);
    assert_eq!(dictionary.try_get(&"b".to_string()).unwrap().handler_index, 2);
    assert!(dictionary.try_get(&"c".to_string()).is_none());
    let merged = dictionary.get_merged();
    assert_eq!(merged.get(&"a".to_string()).unwrap().handler_index, 3);
    assert_eq!(merged.get(&"b".to_string()).unwrap().handler_index, 2);
    dictionary.try_get_mut(&"b".to_string()).unwrap().handler_index = 9;
    assert_eq!(dictionary.try_get(&"b".to_string()).unwrap().handler_index, 9);
    dictionary.try_get_mut(&"a".to_string()).unwrap().runtime = WordRuntime::Immediate;
    assert!(dictionary.try_get_mut(&"c".to_string()).is_none());
    dictionary.release_context();
    assert_eq!(dictionary.try_get(&"a".to_string()).unwrap().handler_index, 1);
    assert!(dictionary.try_get(&"a".to_string()).unwrap().runtime == WordRuntime::Normal);
    assert_eq!(dictionary.depth(), 1);
}

#[test]
fn dictionary_listing() {
    let mut dictionary = Dictionary::new();
    dictionary.insert("swap".to_string(), info("swap", 12));
    let mut hidden = info("secret", 3);
    hidden.visibility = WordVisibility::Hidden;
    dictionary.insert("secret".to_string(), hidden);
    let mut immediate = info("if", 7);
    immediate.runtime = WordRuntime::Immediate;
    dictionary.insert("if".to_string(), immediate);
    assert_eq!(
        dictionary_text(&dictionary),
        "2 words defined.\n\n\
         if           7  immediate  --  The word if.\n\
         swap        12             --  The word swap.\n"
    );
}

#[test]
fn byte_buffer_reads_what_was_written() {
    let mut buffer = ByteBuffer::new(16);
    assert_eq!(buffer.len(), 16);
    buffer.write_int(2, -2);
    buffer.write_int(4, 0x11223344);
    buffer.write_float(8, 0x4009_21fb_5444_2d18);
    assert_eq!(buffer.position(), 14);
    assert_eq!(&buffer.bytes()[0..6], &[0xfe, 0xff, 0x44, 0x33, 0x22, 0x11]);
    buffer.set_position(0);
    assert_eq!(buffer.read_int(2, true), -2);
    buffer.set_position(0);
    assert_eq!(buffer.read_int(2, false), 65534);
    assert_eq!(buffer.read_int(4, true), 0x11223344);
    assert_eq!(buffer.read_float(8), 0x4009_21fb_5444_2d18);
    buffer.set_position(0);
    buffer.write_int(1, 200);
    buffer.set_position(0);
    assert_eq!(buffer.read_int(1, true), -56);
    buffer.set_position(0);
    assert_eq!(buffer.read_int(1, false), 200);
    buffer.set_position(8);
    buffer.write_int(8, -1);
    buffer.set_position(8);
    assert_eq!(buffer.read_int(8, false), -1);
    buffer.increment_position(0);
    assert_eq!(buffer.position(), 16);
}

#[test]
fn byte_buffer_resize_and_strings() {
    let mut buffer = ByteBuffer::new(4);
    buffer.write_string(4, &"héllo".to_string());
    assert_eq!(buffer.bytes(), &[b'h', 0xc3, 0xa9, b'l']);
    buffer.set_position(0);
    assert_eq!(buffer.read_string(4), "hél");
    buffer.resize(6);
    assert_eq!(buffer.bytes(), &[b'h', 0xc3, 0xa9, b'l', 0, 0]);
    assert_eq!(buffer.position(), 4);
    buffer.resize(2);
    assert_eq!(buffer.position(), 1);
    buffer.set_position(0);
    assert_eq!(buffer.read_string(2), "h\u{fffd}");
    buffer.resize(0);
    assert_eq!(buffer.position(), 0);
    let copy = buffer.clone();
    assert_eq!(copy.len(), 0);
}

#[test]
fn value_vec_operations() {
    let mut values = ValueVec::from_vec(vec![Value::Int(1), Value::Int(2)]);
    values.push_front(Value::Int(0));
    values.push_back(Value::Int(3));
    values.insert(2, Value::Int(9));
    values.remove(0);
    values.set(0, Value::Int(7));
    let now: Vec<String> = values.to_vec().iter().map(|v| format!("{:?}", v)).collect();
    assert_eq!(now, vec!["Int(7)", "Int(9)", "Int(2)", "Int(3)"]);
    assert!(matches!(values.pop_front(), Some(Value::Int(7))));
    assert!(matches!(values.pop_back(), Some(Value::Int(3))));
    values.resize(4);
    assert_eq!(values.len(), 4);
    assert!(matches!(values.get(3), Value::Nil));
    values.resize(0);
    assert!(values.pop_front().is_none());
    assert!(values.pop_back().is_none());
    assert_eq!(ValueVec::new(3).len(), 3);
}

#[test]
fn value_hash_operations() {
    let mut table = ValueHash::new();
    table.insert(Value::Int(1), Value::String("one".to_string()));
    table.insert(Value::String("1".to_string()), Value::String("text".to_string()));
    table.insert(Value::Float(1.0f64.to_bits()), Value::String("float".to_string()));
    table.insert(Value::Int(1), Value::String("uno".to_string()));
    assert_eq!(table.len(), 3);
    assert!(matches!(table.get(&Value::Int(1)), Some(Value::String(s)) if s == "uno"));
    assert!(matches!(table.get(&Value::String("1".to_string())), Some(Value::String(s)) if s == "text"));
    assert!(table.get(&Value::Int(2)).is_none());
    let nan = Value::Float(f64::NAN.to_bits());
    table.insert(nan.clone(), Value::Int(0));
    assert!(table.get(&nan).is_none());
    let mut other = ValueHash::new();
    other.insert(Value::Int(2), Value::Int(22));
    other.insert(Value::Int(1), Value::Int(11));
    table.extend(&other);
    assert!(matches!(table.get(&Value::Int(1)), Some(Value::Int(11))));
    assert!(matches!(table.get(&Value::Int(2)), Some(Value::Int(22))));
    assert_eq!(table.iter().len(), table.len());
}

#[test]
fn deep_clone_copies_nested_containers() {
    let mut heap = Heap::new();
    let inner = heap.allocate(HeapCell::Vec(ValueVec::from_vec(vec![Value::Int(1)])));
    let mut table = ValueHash::new();
    table.insert(Value::String("list".to_string()), Value::Vec(inner));
    let outer = heap.allocate(HeapCell::Hash(table));
    let buffer = heap.allocate(HeapCell::Buffer(ByteBuffer::new(2)));
    let all = heap.allocate(HeapCell::Vec(ValueVec::from_vec(vec![
        Value::HashMap(outer),
        Value::ByteBuffer(buffer),
        Value::String("text".to_string()),
    ])));
    let before = heap.cells.len();
    let copy = Value::Vec(all).deep_clone(&mut heap, 8).unwrap();
    assert_eq!(heap.cells.len(), before + 4);
    let copied = match copy {
        Value::Vec(handle) => {
            assert!(handle >= before);
            heap.vec(handle).unwrap().to_vec()
        }
        other => panic!("expected an array, found {:?}", other),
    };
    let table = match &copied[0] {
        Value::HashMap(handle) => {
            assert!(*handle >= before);
            heap.hash(*handle).unwrap()
        }
        other => panic!("expected a hash map, found {:?}", other),
    };
    match table.get(&Value::String("list".to_string())) {
        Some(Value::Vec(handle)) => {
            assert!(*handle >= before);
            assert_eq!(heap.vec(*handle).unwrap().len(), 1);
        }
        other => panic!("expected an array, found {:?}", other),
    }
    assert!(matches!(&copied[1], Value::ByteBuffer(handle) if *handle >= before));
    assert!(matches!(&copied[2], Value::String(text) if text == "text"));
    assert!(Value::Vec(all).deep_clone(&mut heap, 1).is_none());
    let cell = heap.take(inner);
    heap.put(inner, HeapCell::Vec(ValueVec::from_vec(vec![Value::Vec(inner)])));
    assert!(matches!(cell, HeapCell::Vec(_)));
    assert!(Value::Vec(inner).deep_clone(&mut heap, 8).is_none());
}

#[test]
fn data_objects_start_with_clones_of_the_defaults() {
    let mut heap = Heap::new();
    let list = heap.allocate(HeapCell::Vec(ValueVec::new(1)));
    let definition = DataObjectDefinition::new(
        "point".to_string(),
        vec!["x".to_string(), "tags".to_string()],
        vec![Value::Int(1), Value::Vec(list)],
        true,
    );
    assert_eq!(definition.name(), "point");
    assert_eq!(definition.field_names().len(), 2);
    assert_eq!(definition.defaults().len(), 2);
    assert!(*definition.visibility() == WordVisibility::Hidden);
    let object = DataObject::new(&definition, &mut heap).unwrap();
    assert!(matches!(object.fields[0], Value::Int(1)));
    assert!(matches!(object.fields[1], Value::Vec(handle) if handle != list));
    assert_eq!(object.definition_ptr.name(), "point");
}

#[test]
fn values_know_their_kind() {
    let host = TestHost::new();
    assert!(Value::Nil.is_numeric());
    assert!(Value::Bool(true).is_numeric());
    assert!(!Value::String("1".to_string()).is_numeric());
    assert!(Value::both_are_numeric(&Value::Int(1), &Value::Float(0)));
    assert!(!Value::Bool(true).is_stringable());
    assert!(Value::Int(1).is_stringable());
    assert_eq!(Value::Int(-12).get_string_val(&host), "-12");
    assert_eq!(Value::Nil.get_string_val(&host), "");
    assert_eq!(Value::Float(2.5f64.to_bits()).get_string_val(&host), "2.5");
    assert!(!Value::Float((-0.0f64).to_bits()).get_bool_val());
    assert!(Value::Float(f64::NAN.to_bits()).get_bool_val());
    assert!(!Value::String(String::new()).get_bool_val());
    assert!(Value::Vec(0).get_bool_val());
    assert_eq!(Value::Bool(true).get_int_val(&host), 1);
    assert_eq!(Value::Float(2.9f64.to_bits()).get_int_val(&host), 2);
    assert_eq!(Value::Int(2).get_float_val(&host), 2.0f64.to_bits());
    assert_eq!(Value::Bool(true).get_float_val(&host), 1.0f64.to_bits());
    assert!(matches!(5i64.to_value(), Value::Int(5)));
    assert!(matches!(true.to_value(), Value::Bool(true)));
    assert!(matches!("s".to_string().to_value(), Value::String(s) if s == "s"));
    assert!(same_value(&Value::Int(1), &Value::Int(1)));
    assert!(!same_value(&Value::Int(1), &Value::Float(1)));
    assert!(matches!(Value::default(), Value::Nil));
    assert_eq!(value_format_indent(2), 8);
    assert_eq!(value_format_indent_inc(2), 3);
    assert_eq!(value_format_indent_dec(2), 1);
    assert_eq!(value_format_indent_dec(0), 0);
}

#[test]
fn values_are_shown() {
    let host = TestHost::new();
    let mut heap = Heap::new();
    let list = heap.allocate(HeapCell::Vec(ValueVec::from_vec(vec![
        Value::Int(1),
        Value::String("two".to_string()),
    ])));
    let mut table = ValueHash::new();
    table.insert(Value::String("k".to_string()), Value::Vec(list));
    table.insert(Value::Int(2), Value::Bool(false));
    let table = heap.allocate(HeapCell::Hash(table));
    assert_eq!(value_text(&host, &heap, &Value::Nil, 0, 8), "none");
    assert_eq!(value_text(&host, &heap, &Value::Vec(list), 0, 8), "[ 1, \"two\" ]");
    assert_eq!(
        value_text(&host, &heap, &Value::HashMap(table), 0, 8),
        "{\n    \"k\" -> [ 1, \"two\" ] ,\n    2 -> false \n}"
    );
    let buffer = heap.allocate(HeapCell::Buffer(ByteBuffer::new(3)));
    assert_eq!(
        value_text(&host, &heap, &Value::ByteBuffer(buffer), 0, 8),
        "          00 01 02 03 04 05 06 07  08 09 0a 0b 0c 0d 0e 0f  | 0123456789abcdef |\n\
         00000000  00 00 00                                          | ...              |\n"
    );
    let code = vec![
        Instruction::new(None, Op::PushConstantValue(Value::String("s".to_string()))),
        Instruction::new(None, Op::Jump(Value::Int(-1))),
        Instruction::new(None, Op::JumpTarget(Value::Nil)),
        Instruction::new(None, Op::ReadVariable),
    ];
    assert_eq!(
        pretty_print_code(&host, &heap, &code),
        "   0: PushConstantValue \"s\"\n   1: Jump              -1\n   2: JumpTarget        \n   3: ReadVariable\n"
    );
}

#[test]
fn errors_carry_location_and_call_stack() {
    let location = SourceLocation::new_from_info(&"a.f".to_string(), 3, 9);
    assert_eq!(location.to_string(), "a.f (3, 9)");
    let item = CallItem::new("word".to_string(), location.clone());
    assert_eq!(item.word(), "word");
    assert_eq!(item.location().line(), 3);
    assert_eq!(item.to_string(), "a.f (3, 9): word");
    let outer = CallItem::new("outer".to_string(), SourceLocation::new());
    let error = ScriptError::new(Some(location.clone()), "It broke.".to_string(), Some(vec![outer, item]));
    assert_eq!(error.error(), "It broke.");
    assert_eq!(error.location().as_ref().unwrap().column(), 9);
    assert_eq!(error.call_stack().as_ref().unwrap().len(), 2);
    assert_eq!(
        error.to_string(),
        "a.f (3, 9): It broke.\n\nCall stack\n  a.f (3, 9): word\n  unspecified (1, 1): outer\n"
    );
    let plain: Result<(), ScriptError> = ScriptError::new_as_result(None, "Plain.".to_string(), None);
    assert_eq!(plain.unwrap_err().to_string(), "Plain.");
    let interpreter = SorthInterpreter::new();
    let raised: Result<(), ScriptError> = script_error_str(&interpreter, "Raised.");
    let raised = raised.unwrap_err();
    assert!(raised.location().is_none());
    assert_eq!(raised.call_stack().as_ref().unwrap().len(), 0);
    assert_eq!(raised.clone().error(), "Raised.");
}

#[test]
fn a_deep_clone_clones_the_keys_of_a_hash_map() {
    let mut heap = Heap::new();
    let first = heap.allocate(HeapCell::Vec(ValueVec::from_vec(vec![Value::Int(1)])));
    let second = heap.allocate(HeapCell::Vec(ValueVec::from_vec(vec![Value::Int(1)])));
    let mut table = ValueHash::new();
    table.insert(Value::Vec(first), Value::Int(10));
    table.insert(Value::String("name".to_string()), Value::Int(20));
    table.insert(Value::Vec(second), Value::Int(30));
    let handle = heap.allocate(HeapCell::Hash(table));
    let copy = match heap.deep_clone(&Value::HashMap(handle), 8) {
        Some(Value::HashMap(copy)) => copy,
        other => panic!("expected a hash map, found {:?}", other),
    };
    assert!(copy > handle);
    let entries = heap.hash(copy).unwrap().iter();
    assert_eq!(entries.len(), 3);
    let mut seen: Vec<usize> = Vec::new();
    for (index, (key, value)) in entries.iter().enumerate() {
        match (index, key, value) {
            (0, Value::Vec(key), Value::Int(10)) | (2, Value::Vec(key), Value::Int(30)) => {
                assert!(*key > handle);
                assert!(!seen.contains(key));
                seen.push(*key);
                let items = heap.vec(*key).unwrap().to_vec();
                assert!(matches!(items.as_slice(), [Value::Int(1)]));
            }
            (1, Value::String(name), Value::Int(20)) => assert_eq!(name, "name"),
            other => panic!("unexpected entry {:?}", other),
        }
    }
    assert_eq!(heap.hash(handle).unwrap().iter().len(), 3);
    assert!(matches!(heap.deep_clone(&Value::HashMap(handle), 1), None));
}

#[test]
fn a_deep_clone_of_code_clones_what_its_instructions_carry() {
    let mut heap = Heap::new();
    let array = heap.allocate(HeapCell::Vec(ValueVec::from_vec(vec![Value::Int(1), Value::Int(2)])));
    let inner = vec![Instruction::new(None, Op::PushConstantValue(Value::Vec(array)))];
    let code = vec![
        Instruction::new(None, Op::PushConstantValue(Value::Vec(array))),
        Instruction::new(None, Op::ReadVariable),
        Instruction::new(None, Op::Execute(Value::String("dup".to_string()))),
        Instruction::new(None, Op::PushConstantValue(Value::Code(inner))),
    ];
    let before = array + 1;
    let copy = match heap.deep_clone(&Value::Code(code), 8) {
        Some(Value::Code(copy)) => copy,
        other => panic!("expected code, found {:?}", other),
    };
    assert_eq!(copy.len(), 4);
    let first = match &copy[0].op {
        Op::PushConstantValue(Value::Vec(handle)) => *handle,
        other => panic!("expected a pushed array, found {:?}", other),
    };
    assert!(first >= before);
    assert!(matches!(copy[1].op, Op::ReadVariable));
    match &copy[2].op {
        Op::Execute(Value::String(name)) => assert_eq!(name, "dup"),
        other => panic!("expected a call, found {:?}", other),
    }
    let second = match &copy[3].op {
        Op::PushConstantValue(Value::Code(inner)) => match &inner[0].op {
            Op::PushConstantValue(Value::Vec(handle)) => *handle,
            other => panic!("expected a pushed array, found {:?}", other),
        },
        other => panic!("expected pushed code, found {:?}", other),
    };
    assert!(second >= before);
    assert_ne!(first, second);
    match heap.take(first) {
        HeapCell::Vec(items) => {
            assert!(matches!(items.to_vec().as_slice(), [Value::Int(1), Value::Int(2)]));
            heap.put(first, HeapCell::Vec(ValueVec::from_vec(vec![Value::Int(9)])));
        }
        other => panic!("expected an array, found {:?}", other),
    }
    assert!(matches!(heap.vec(array).unwrap().to_vec().as_slice(), [Value::Int(1), Value::Int(2)]));
    assert!(matches!(heap.deep_clone(&Value::Code(Vec::new()), 0), None));
}
