//! Decoding a byte range into instructions with the Capstone engine, fixed to
//! x86-64 and AT&T syntax.

use capstone::arch::x86::{ArchMode, ArchSyntax};
use capstone::arch::{BuildsCapstone, BuildsCapstoneSyntax};
use capstone::Capstone;
use vstd::prelude::*;

verus! {

/// Capstone's error type, `capstone::Error`. The library carries such a
/// value from the decoder to the caller and never looks inside.
#[verifier::external_type_specification]
#[verifier::external_body]
pub struct ExCapstoneError(capstone::Error);

/// One decoded instruction. Only its mnemonic is kept; the decoder may fail
/// to resolve one, in which case it is `None`.
#[derive(Debug)]
pub struct Instruction {
    pub mnemonic: Option<String>,
}

impl View for Instruction {
    type V = Option<Seq<char>>;

    open spec fn view(&self) -> Option<Seq<char>> {
        match self.mnemonic {
            Some(name) => Some(name@),
            None => None,
        }
    }
}

/// The mnemonics of a run of instructions, in order.
pub open spec fn mnemonics(instructions: Seq<Instruction>) -> Seq<Option<Seq<char>>> {
    Seq::new(instructions.len(), |i: int| instructions[i]@)
}

/// The mnemonics of the instructions that Capstone decodes from `code`
/// placed at address `base`, in x86-64 mode with AT&T syntax.
pub uninterp spec fn x86_64_mnemonics(code: Seq<u8>, base: u64) -> Seq<Option<Seq<char>>>;

/// What decoding `code` at `base` yields when it succeeds. An empty range
/// holds no instruction and is never handed to the engine.
pub open spec fn decoded_mnemonics(code: Seq<u8>, base: u64) -> Seq<Option<Seq<char>>> {
    if code.len() == 0 {
        Seq::empty()
    } else {
        x86_64_mnemonics(code, base)
    }
}

/// Builds a Capstone engine (`Capstone::new().x86()`, 64-bit mode, AT&T
/// syntax, details on) and calls `Capstone::disasm_all` on `code` with `base`
/// as the address of its first byte. Each instruction is reduced to what
/// `Insn::mnemonic` returns for it.
///
/// Trusted: whenever the call succeeds, the mnemonics that come back are a
/// function of the bytes and the address alone. Nothing is claimed about
/// when it fails: the engine reports an error when it cannot be set up or
/// runs out of memory.
#[verifier::external_body]
fn capstone_disasm_all(code: &[u8], base: u64) -> (r: Result<Vec<Instruction>, capstone::Error>)
    ensures
        r matches Ok(instructions) ==> mnemonics(instructions@) == x86_64_mnemonics(code@, base),
{
    let engine = Capstone::new()
        .x86()
        .mode(ArchMode::Mode64)
        .syntax(ArchSyntax::Att)
        .detail(true)
        .build()?;
    let decoded = engine.disasm_all(code, base)?;
    Ok(
        decoded.iter().map(
            |insn| Instruction { mnemonic: insn.mnemonic().map(|name| name.to_owned()) },
        ).collect(),
    )
}

/// Decodes `code`, whose first byte sits at address `base`, into the
/// instructions it holds. An empty range decodes to no instructions and
/// cannot fail; on any other range the engine decides, and a successful
/// result is determined by the bytes and the address.
pub fn disassemble(code: &[u8], base: u64) -> (r: Result<Vec<Instruction>, capstone::Error>)
    ensures
        code@.len() == 0 ==> r is Ok,
        r matches Ok(instructions) ==> mnemonics(instructions@) == decoded_mnemonics(code@, base),
{
    if code.len() == 0 {
        Ok(Vec::new())
    } else {
        capstone_disasm_all(code, base)
    }
}

} // verus!
