//! An assembler for CHIP-8: source text is parsed into statements, and the
//! statements are turned into the opcode words that the machine runs.

pub mod grammar;
pub mod labels;
pub mod parse;
pub mod translate;

use vstd::prelude::*;
use vstd::string::StringSliceAdditionalSpecFns;
use crate::assembler::grammar::program_at;
use crate::assembler::parse::parse_source;
use crate::assembler::translate::{translate, translate_spec, try_translate, TranslateError};

verus! {

/// The program that a source text stands for, from the bytes of the text:
/// the statements of the text, translated.
pub open spec fn compile_spec(source: Seq<u8>) -> Result<Seq<u8>, TranslateError> {
    translate_spec(program_at(source, 0).0)
}

/// Compiles a source text into the bytes of a program, or says why its
/// statements stand for none.
pub fn try_compile(source: &str) -> (r: Result<Vec<u8>, TranslateError>)
    ensures
        match compile_spec(source.spec_bytes()) {
            Ok(bytes) => r matches Ok(binary) && binary@ == bytes,
            Err(e) => r == Err::<Vec<u8>, TranslateError>(e),
        },
{
    let statements = parse_source(source);
    try_translate(&statements)
}

/// Compiles a source text whose statements stand for a program into the
/// bytes of the program.
pub fn compile(source: &str) -> (binary: Box<[u8]>)
    requires
        compile_spec(source.spec_bytes()) is Ok,
    ensures
        binary@ == compile_spec(source.spec_bytes())->Ok_0,
{
    let statements = parse_source(source);
    translate(statements)
}

} // verus!
