//! The analysis itself: from a parsed container and the bytes of its file
//! to the report.

use crate::container::{in_bounds, section_bytes, section_named, Container, CODE_SECTION};
use crate::decode::{decoded_mnemonics, disassemble, mnemonics, Instruction};
use crate::digest::{hex_string, is_hex_digest, sha256, sha256_hex};
use crate::error::AnalysisError;
use crate::input::AnalysisRequest;
use crate::tally::{
    lemma_tally_of_empty, lemma_tally_total, tally_mnemonics, tally_of, total_count, MnemonicTally,
};
use vstd::prelude::*;
use vstd::slice::slice_subrange;

verus! {

/// The report on one file.
#[derive(Debug)]
pub struct AnalysisResult {
    /// The path that was analysed.
    pub filename: String,
    /// The SHA-256 digest of the whole file, in lowercase hexadecimal.
    pub sha256: String,
    /// The number of instructions decoded from the code section.
    pub instruction_count: u64,
    /// How often each mnemonic occurs among them.
    pub instructions: MnemonicTally,
}

/// A report as a mathematical value.
pub struct ReportView {
    pub filename: Seq<char>,
    pub sha256: Seq<char>,
    pub instruction_count: nat,
    pub instructions: Map<Seq<char>, nat>,
}

impl View for AnalysisResult {
    type V = ReportView;

    open spec fn view(&self) -> ReportView {
        ReportView {
            filename: self.filename@,
            sha256: self.sha256@,
            instruction_count: self.instruction_count as nat,
            instructions: self.instructions@,
        }
    }
}

impl AnalysisResult {
    /// The invariant of a report: its tally is well formed and counts no
    /// more instructions than were decoded.
    pub open spec fn wf(&self) -> bool {
        &&& self.instructions.wf()
        &&& total_count(self.instructions@) <= self.instruction_count
    }
}

/// The report on a file named `filename` with content `file` whose code
/// section decodes to instructions with the mnemonics `names`.
pub open spec fn report_of(
    filename: Seq<char>,
    file: Seq<u8>,
    names: Seq<Option<Seq<char>>>,
) -> ReportView {
    ReportView {
        filename,
        sha256: hex_string(sha256(file)),
        instruction_count: names.len(),
        instructions: tally_of(names),
    }
}

/// The report that a successful run on `container` and `file` produces, or
/// `None` where no run can succeed: the container has no code section, or
/// the section does not lie within the file.
pub open spec fn analysis_of(filename: Seq<char>, container: Container, file: Seq<u8>) -> Option<
    ReportView,
> {
    match section_named(container.sections@, CODE_SECTION@) {
        Some(code) => if in_bounds(code, file.len()) {
            Some(
                report_of(
                    filename,
                    file,
                    decoded_mnemonics(section_bytes(file, code), code.offset),
                ),
            )
        } else {
            None
        },
        None => None,
    }
}

/// Assembles the report from the path, the digest and the decoded
/// instructions.
pub fn assemble(filename: String, sha256: String, instructions: &Vec<Instruction>) -> (report:
    AnalysisResult)
    ensures
        report.wf(),
        report@ == (ReportView {
            filename: filename@,
            sha256: sha256@,
            instruction_count: instructions@.len(),
            instructions: tally_of(mnemonics(instructions@)),
        }),
{
    proof {
        lemma_tally_total(mnemonics(instructions@));
    }
    let tally = tally_mnemonics(instructions);
    AnalysisResult {
        filename,
        sha256,
        instruction_count: instructions.len() as u64,
        instructions: tally,
    }
}

/// Ends a run on what the decoder returned: a report on its instructions,
/// or its error.
pub fn conclude(
    filename: String,
    sha256: String,
    decoded: Result<Vec<Instruction>, capstone::Error>,
) -> (r: Result<AnalysisResult, AnalysisError>)
    ensures
        match decoded {
            Ok(instructions) => r matches Ok(report) && report.wf() && report@ == (ReportView {
                filename: filename@,
                sha256: sha256@,
                instruction_count: instructions@.len(),
                instructions: tally_of(mnemonics(instructions@)),
            }),
            Err(cause) => r matches Err(AnalysisError::Decode(e)) && e == cause,
        },
{
    match decoded {
        Ok(instructions) => Ok(assemble(filename, sha256, &instructions)),
        Err(cause) => Err(AnalysisError::Decode(cause)),
    }
}

/// Carries out a request on the parsed container and the bytes of the file
/// it names: finds the code section in `container`, fingerprints `file`,
/// decodes the section's bytes with the section's file offset as
/// their address, and reports the mnemonic counts.
///
/// The run fails if the container has no code section or the section
/// reaches beyond the file. Otherwise only the decoder can fail it, and not
/// on an empty section. The symbol table plays no part.
pub fn analyze(request: AnalysisRequest, container: &Container, file: &[u8]) -> (r: Result<
    AnalysisResult,
    AnalysisError,
>)
    ensures
        match section_named(container.sections@, CODE_SECTION@) {
            None => r matches Err(AnalysisError::SectionNotFound),
            Some(code) => if !in_bounds(code, file@.len()) {
                r matches Err(AnalysisError::SectionOutOfBounds)
            } else {
                match r {
                    Ok(report) => report.wf() && is_hex_digest(report.sha256@) && analysis_of(
                        request.path@,
                        *container,
                        file@,
                    ) == Some(report@),
                    Err(e) => e is Decode && code.size > 0,
                }
            },
        },
{
    let code = match container.find_section(CODE_SECTION) {
        Some(code) => code,
        None => {
            return Err(AnalysisError::SectionNotFound);
        },
    };
    let file_len = file.len() as u64;
    if code.offset > file_len || code.size > file_len - code.offset {
        return Err(AnalysisError::SectionOutOfBounds);
    }
    let digest = sha256_hex(file);
    let start = code.offset as usize;
    let end = start + code.size as usize;
    let bytes = slice_subrange(file, start, end);
    conclude(request.path, digest, disassemble(bytes, code.offset))
}

/// The instruction count of a report is the number of decoded
/// instructions; the counts of its tally add up to the number of those
/// that carry a mnemonic, which is all of them exactly when none lacks
/// one.
pub proof fn lemma_report_counts(filename: Seq<char>, file: Seq<u8>, names: Seq<Option<Seq<char>>>)
    ensures
        report_of(filename, file, names).instruction_count == names.len(),
        total_count(report_of(filename, file, names).instructions) <= report_of(
            filename,
            file,
            names,
        ).instruction_count,
        total_count(report_of(filename, file, names).instructions) == report_of(
            filename,
            file,
            names,
        ).instruction_count <==> (forall|i: int|
            0 <= i < names.len() ==> (#[trigger] names[i]) is Some),
{
    lemma_tally_total(names);
}

/// Two runs on the same path, container and bytes that both succeed
/// produce the same report.
pub proof fn lemma_rerun_same_report(
    first: AnalysisResult,
    second: AnalysisResult,
    filename: Seq<char>,
    container: Container,
    file: Seq<u8>,
)
    requires
        analysis_of(filename, container, file) == Some(first@),
        analysis_of(filename, container, file) == Some(second@),
    ensures
        first@ == second@,
        first@.filename == second@.filename,
        first@.sha256 == second@.sha256,
        first@.instruction_count == second@.instruction_count,
        first@.instructions == second@.instructions,
{
}

/// An empty code section yields a report with no instructions and an empty
/// tally.
pub proof fn lemma_empty_section(filename: Seq<char>, container: Container, file: Seq<u8>)
    requires
        section_named(container.sections@, CODE_SECTION@) matches Some(code) && code.size == 0
            && in_bounds(code, file.len()),
    ensures
        analysis_of(filename, container, file) matches Some(report) && report.instruction_count
            == 0 && report.instructions == Map::<Seq<char>, nat>::empty(),
{
    lemma_tally_of_empty();
}

/// The report does not depend on the symbol table: a container without one
/// is analysed like the same container with one.
pub proof fn lemma_symbols_play_no_part(
    filename: Seq<char>,
    with: Container,
    without: Container,
    file: Seq<u8>,
)
    requires
        with.sections@ == without.sections@,
        without.symbols is None,
    ensures
        analysis_of(filename, without, file) == analysis_of(filename, with, file),
{
}

} // verus!
