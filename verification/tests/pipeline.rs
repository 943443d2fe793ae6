use insn_tally::container::{Container, SectionEntry, SymbolEntry};
use insn_tally::decode::{disassemble, Instruction};
use insn_tally::digest::sha256_hex;
use insn_tally::error::AnalysisError;
use insn_tally::input::{resolve_input, AnalysisRequest};
use insn_tally::report::{analyze, assemble, conclude, AnalysisResult};

fn request(path: &str) -> AnalysisRequest {
    AnalysisRequest { path: path.to_string() }
}

fn args(list: &[&str]) -> Vec<String> {
    list.iter().map(|a| a.to_string()).collect()
}

fn text_at(offset: u64, size: u64) -> Container {
    Container {
        sections: vec![
            SectionEntry { name: String::new(), offset: 0, size: 0 },
            SectionEntry { name: ".text".to_string(), offset, size },
        ],
        symbols: None,
    }
}

fn lines(report: &AnalysisResult) -> Vec<(String, u64)> {
    let mut lines: Vec<(String, u64)> =
        report.instructions.entries().iter().map(|e| (e.mnemonic.clone(), e.count)).collect();
    lines.sort();
    lines
}

fn decoded_names(code: &[u8], base: u64) -> Vec<Option<String>> {
    disassemble(code, base).unwrap().into_iter().map(|i| i.mnemonic).collect()
}

#[test]
fn exactly_one_path_is_accepted() {
    let r = resolve_input(&args(&["prog", "a.out"]));
    assert_eq!(r.unwrap().path, "a.out");
}

#[test]
fn no_path_is_a_usage_error() {
    assert!(matches!(resolve_input(&args(&["prog"])), Err(AnalysisError::Usage)));
    assert!(matches!(resolve_input(&args(&[])), Err(AnalysisError::Usage)));
}

#[test]
fn two_or_more_paths_are_a_usage_error() {
    assert!(matches!(resolve_input(&args(&["prog", "a", "b"])), Err(AnalysisError::Usage)));
    assert!(matches!(resolve_input(&args(&["prog", "a", "b", "c"])), Err(AnalysisError::Usage)));
}

#[test]
fn decoding_nothing_gives_nothing() {
    assert!(disassemble(&[], 0).unwrap().is_empty());
    assert!(disassemble(&[], 0x1000).unwrap().is_empty());
}

#[test]
fn decoder_reads_two_pushes() {
    let names = decoded_names(&[0x55, 0x53], 0);
    assert_eq!(names.len(), 2);
    assert_eq!(names[0], names[1]);
    assert!(names[0].as_ref().unwrap().starts_with("push"));
}

#[test]
fn decoder_reads_a_small_function() {
    // push %rbp; mov %rsp,%rbp; pop %rbp; ret
    let names = decoded_names(&[0x55, 0x48, 0x89, 0xe5, 0x5d, 0xc3], 0x1000);
    assert_eq!(
        names,
        vec![
            Some("pushq".to_string()),
            Some("movq".to_string()),
            Some("popq".to_string()),
            Some("retq".to_string()),
        ]
    );
}

#[test]
fn decoder_stops_at_the_first_broken_instruction() {
    // nop; nop; then a lone REX prefix with nothing to follow
    let names = decoded_names(&[0x90, 0x90, 0x48], 0);
    assert_eq!(names, vec![Some("nop".to_string()), Some("nop".to_string())]);
}

#[test]
fn report_is_assembled_from_its_parts() {
    let instructions = vec![
        Instruction { mnemonic: Some("push".to_string()) },
        Instruction { mnemonic: None },
        Instruction { mnemonic: Some("push".to_string()) },
        Instruction { mnemonic: Some("ret".to_string()) },
    ];
    let report = assemble("a.out".to_string(), "00ff".to_string(), &instructions);
    assert_eq!(report.filename, "a.out");
    assert_eq!(report.sha256, "00ff");
    assert_eq!(report.instruction_count, 4);
    assert_eq!(lines(&report), vec![("push".to_string(), 2), ("ret".to_string(), 1)]);
    assert!(report.instructions.total() <= report.instruction_count);
}

#[test]
fn decoder_success_concludes_with_a_report() {
    let decoded = Ok(vec![Instruction { mnemonic: Some("nop".to_string()) }]);
    let report = conclude("f".to_string(), "d".to_string(), decoded).unwrap();
    assert_eq!(report.instruction_count, 1);
    assert_eq!(report.instructions.count("nop"), 1);
}

#[test]
fn decoder_error_concludes_with_that_error() {
    let r = conclude("f".to_string(), "d".to_string(), Err(capstone::Error::OutOfMemory));
    assert!(matches!(r, Err(AnalysisError::Decode(capstone::Error::OutOfMemory))));
    let r = conclude("f".to_string(), "d".to_string(), Err(capstone::Error::UnsupportedArch));
    assert!(matches!(r, Err(AnalysisError::Decode(capstone::Error::UnsupportedArch))));
}

#[test]
fn missing_code_section_is_fatal() {
    let c = Container {
        sections: vec![SectionEntry { name: ".data".to_string(), offset: 0, size: 4 }],
        symbols: None,
    };
    let r = analyze(request("f"), &c, &[0x90; 16]);
    assert!(matches!(r, Err(AnalysisError::SectionNotFound)));
    let none = Container { sections: vec![], symbols: None };
    assert!(matches!(analyze(request("f"), &none, &[]), Err(AnalysisError::SectionNotFound)));
}

#[test]
fn section_beyond_the_file_is_fatal() {
    let file = [0x90u8; 16];
    assert!(matches!(
        analyze(request("f"), &text_at(8, 9), &file),
        Err(AnalysisError::SectionOutOfBounds)
    ));
    assert!(matches!(
        analyze(request("f"), &text_at(17, 0), &file),
        Err(AnalysisError::SectionOutOfBounds)
    ));
    assert!(matches!(
        analyze(request("f"), &text_at(u64::MAX, 2), &file),
        Err(AnalysisError::SectionOutOfBounds)
    ));
    assert!(matches!(
        analyze(request("f"), &text_at(1, u64::MAX), &file),
        Err(AnalysisError::SectionOutOfBounds)
    ));
}

#[test]
fn section_may_end_with_the_file() {
    let file = [0x90u8; 16];
    let report = analyze(request("f"), &text_at(8, 8), &file).unwrap();
    assert_eq!(report.instruction_count, 8);
    let report = analyze(request("f"), &text_at(0, 16), &file).unwrap();
    assert_eq!(report.instruction_count, 16);
}

#[test]
fn empty_code_section_gives_an_empty_report() {
    let file = [0x7f, b'E', b'L', b'F', 0x55, 0x53];
    for offset in [0u64, 4, 6] {
        let report = analyze(request("empty"), &text_at(offset, 0), &file).unwrap();
        assert_eq!(report.instruction_count, 0);
        assert_eq!(report.instructions.len(), 0);
        assert!(report.instructions.entries().is_empty());
        assert_eq!(report.filename, "empty");
        assert_eq!(report.sha256, sha256_hex(&file));
    }
}

#[test]
fn two_pushes_are_counted_twice() {
    let file = [0x7f, b'E', b'L', b'F', 0x55, 0x53];
    let report = analyze(request("two"), &text_at(4, 2), &file).unwrap();
    assert_eq!(report.instruction_count, 2);
    assert_eq!(lines(&report), vec![("pushq".to_string(), 2)]);
    assert_eq!(report.instructions.count("pushq"), 2);
}

#[test]
fn only_the_code_section_is_decoded_but_the_whole_file_is_hashed() {
    let mut file = vec![0xc3u8; 4];
    file.extend_from_slice(&[0x55, 0x48, 0x89, 0xe5, 0x5d, 0xc3]);
    file.extend_from_slice(&[0x90; 5]);
    let report = analyze(request("whole"), &text_at(4, 6), &file).unwrap();
    assert_eq!(report.filename, "whole");
    assert_eq!(report.sha256, sha256_hex(&file));
    assert_ne!(report.sha256, sha256_hex(&file[4..10]));
    assert_eq!(report.instruction_count, 4);
    assert_eq!(
        lines(&report),
        vec![
            ("movq".to_string(), 1),
            ("popq".to_string(), 1),
            ("pushq".to_string(), 1),
            ("retq".to_string(), 1),
        ]
    );
}

#[test]
fn counts_add_up_to_the_instruction_count() {
    let mut file = Vec::new();
    for _ in 0..10 {
        file.extend_from_slice(&[0x55, 0x48, 0x89, 0xe5, 0x90, 0x5d, 0xc3]);
    }
    let report = analyze(request("sum"), &text_at(0, file.len() as u64), &file).unwrap();
    assert_eq!(report.instruction_count, 50);
    assert_eq!(report.instructions.total(), 50);
    assert_eq!(report.instructions.count("nop"), 10);
    assert_eq!(report.instructions.len(), 5);
}

#[test]
fn analysis_without_symbol_table_is_complete() {
    let file = [0x55, 0x48, 0x89, 0xe5, 0x5d, 0xc3];
    let without = Container {
        sections: vec![SectionEntry { name: ".text".to_string(), offset: 0, size: 6 }],
        symbols: None,
    };
    let with = Container {
        sections: vec![SectionEntry { name: ".text".to_string(), offset: 0, size: 6 }],
        symbols: Some(vec![SymbolEntry { name: "main".to_string(), shndx: 14, value: 0, size: 6 }]),
    };
    let a = analyze(request("s"), &without, &file).unwrap();
    let b = analyze(request("s"), &with, &file).unwrap();
    assert_eq!(a.filename, "s");
    assert_eq!(a.sha256.len(), 64);
    assert_eq!(a.instruction_count, 4);
    assert_eq!(a.instructions.len(), 4);
    assert_eq!(a.sha256, b.sha256);
    assert_eq!(a.instruction_count, b.instruction_count);
    assert_eq!(lines(&a), lines(&b));
}

#[test]
fn rerun_gives_the_same_report() {
    let file: Vec<u8> = vec![0x55, 0x53, 0x48, 0x31, 0xc0, 0x5b, 0x5d, 0xc3, 0x00, 0x01];
    let c = text_at(0, 8);
    let first = analyze(request("again"), &c, &file).unwrap();
    let second = analyze(request("again"), &c, &file).unwrap();
    assert_eq!(first.filename, second.filename);
    assert_eq!(first.sha256, second.sha256);
    assert_eq!(first.instruction_count, second.instruction_count);
    assert_eq!(lines(&first), lines(&second));
}

#[test]
fn base_address_is_the_file_offset() {
    // The same bytes at two offsets decode to the same mnemonics.
    let code = [0xe8, 0x00, 0x00, 0x00, 0x00, 0xc3];
    let mut file = vec![0u8; 32];
    file[8..14].copy_from_slice(&code);
    file[20..26].copy_from_slice(&code);
    let low = analyze(request("o"), &text_at(8, 6), &file).unwrap();
    let high = analyze(request("o"), &text_at(20, 6), &file).unwrap();
    assert_eq!(low.instruction_count, 2);
    assert_eq!(lines(&low), lines(&high));
}
