//! What the runtime asks of the program that embeds it.

use vstd::prelude::*;
use crate::runtime::built_ins::ffi_words::NativeCall;
use crate::runtime::data_structures::heap::Heap;
use crate::runtime::data_structures::value::Value;

verus! {

/// The services of the embedding program. The library holds no floating point
/// arithmetic, reads no file and loads no native code: it asks its host.
/// Floating point numbers cross this interface as the bit patterns of IEEE 754
/// numbers, 64 bits wide unless a method says otherwise. Nothing is assumed of
/// what a method returns.
pub trait Host {
    /// Parses the decimal notation of a floating point number.
    fn float_parse(&self, text: &String) -> Option<u64>;

    /// The decimal notation of a floating point number.
    fn float_to_string(&self, bits: u64) -> String;

    /// The floating point number nearest to an integer.
    fn float_from_int(&self, value: i64) -> u64;

    /// A floating point number without its fraction, as an integer.
    fn float_to_int(&self, bits: u64) -> i64;

    /// The sum of two floating point numbers.
    fn float_add(&self, a: u64, b: u64) -> u64;

    /// The difference of two floating point numbers.
    fn float_subtract(&self, a: u64, b: u64) -> u64;

    /// The product of two floating point numbers.
    fn float_multiply(&self, a: u64, b: u64) -> u64;

    /// The quotient of two floating point numbers.
    fn float_divide(&self, a: u64, b: u64) -> u64;

    /// The remainder of the division of two floating point numbers, with the
    /// sign of the first.
    fn float_remainder(&self, a: u64, b: u64) -> u64;

    /// Whether two floating point numbers are equal as numbers.
    fn float_equal(&self, a: u64, b: u64) -> bool;

    /// Whether the first floating point number is less than the second.
    fn float_less(&self, a: u64, b: u64) -> bool;

    /// The 32-bit floating point number nearest to a 64-bit one.
    fn float_narrow(&self, bits: u64) -> u32;

    /// A 32-bit floating point number as a 64-bit one.
    fn float_widen(&self, bits: u32) -> u64;

    /// The absolute path of an existing file or directory, or nothing if
    /// `path` names none.
    fn canonical_path(&self, path: &String) -> Option<String>;

    /// The text of the file at `path`, or why it could not be read.
    fn read_file(&mut self, path: &String) -> core::result::Result<String, String>;

    /// Writes a text to the console.
    fn write_output(&mut self, text: &String);

    /// Runs the word that the host registered under `word` on the value
    /// stack. The heap is there to be read.
    fn execute_external(
        &mut self,
        word: usize,
        stack: &mut Vec<Value>,
        heap: &Heap,
    ) -> core::result::Result<(), String>;

    /// Loads the native library with the given file name, and gives the
    /// number by which the host knows it from now on.
    fn load_library(&mut self, name: &String) -> core::result::Result<usize, String>;

    /// Looks up a function in a loaded library.
    fn find_symbol(&mut self, library: usize, symbol: &String) -> core::result::Result<(), String>;

    /// Calls a function of a loaded library, and gives the bytes of its
    /// result.
    fn call_native(
        &mut self,
        library: usize,
        symbol: &String,
        call: &NativeCall,
    ) -> core::result::Result<Vec<u8>, String>;

    /// The text of the C string at the given address, read as UTF-8.
    fn read_c_string(&mut self, address: u64) -> String;
}

} // verus!
