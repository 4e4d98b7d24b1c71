use viewdeb::extractors::elf::{
    analyze_elf, bracketed_from, elf_invocations, header_field, parse_dependencies,
    parse_interpreter, parse_program_headers, parse_section_headers, readelf_invocation,
};
use viewdeb::text::{chars_of, split_lines, string_of};

const HEADER: &str = "ELF Header:\n  Magic:   7f 45 4c 46 02 01 01 00\n  Class:                             ELF64\n  Type:                              DYN (Position-Independent Executable file)\n  Machine:                           Advanced Micro Devices X86-64\n  Version:                           0x1\n  Entry point address:               0x1060\n  Flags:                             0x0\n";

const SEGMENTS: &str = "\nElf file type is DYN (Shared object file)\nEntry point 0x1060\nThere are 2 program headers, starting at offset 64\n\nProgram Headers:\n  Type           Offset   VirtAddr\n  PHDR           0x000040 0x000040\n  INTERP         0x000318 0x000318\n      [Requesting program interpreter: /lib64/ld-linux-x86-64.so.2]\n\n Section to Segment mapping:\n  Segment Sections...\n   00     \nDone\n  after\n";

const SECTIONS: &str = "There are 3 section headers:\n\nSection Headers:\n  [Nr] Name   Type\n  [ 0]        NULL\n       0000000000000000  0\n  [ 1] .interp PROGBITS\n  1 direct\nKey to Flags:\n  2 late\n";

const DYNAMIC: &str = "Dynamic section at offset 0x2dc8 contains 3 entries:\n 0x0000000000000001 (NEEDED)             Shared library: [libc.so.6]\n 0x0000000000000001 (NEEDED)  Shared library: [libm.so.6]\n 0x000000000000000c (INIT)  0x1000 [not.this]\n NEEDED without bracket\n NEEDED [unclosed\n";

fn ok(s: &str) -> Result<String, String> {
    Ok(s.to_string())
}

fn failed() -> Result<String, String> {
    Err("Command timed out after 500ms".to_string())
}

#[test]
fn all_four_listings_are_read() {
    let info = analyze_elf(ok(HEADER), ok(SEGMENTS), ok(SECTIONS), ok(DYNAMIC)).unwrap();
    assert_eq!(info.elf_type, "DYN (Position-Independent Executable file)");
    assert_eq!(info.machine, "Advanced Micro Devices X86-64");
    assert_eq!(info.entry, "0x1060");
    assert_eq!(
        info.program_headers,
        vec![
            "  PHDR           0x000040 0x000040",
            "  INTERP         0x000318 0x000318",
            "      [Requesting program interpreter: /lib64/ld-linux-x86-64.so.2]",
            " Section to Segment mapping:",
            "  Segment Sections...",
            "   00     ",
        ]
    );
    assert_eq!(info.section_headers, vec!["       0000000000000000  0", "  1 direct"]);
    assert_eq!(info.dependencies, Some(vec!["libc.so.6".to_string(), "libm.so.6".to_string()]));
    assert_eq!(
        info.interpreter.as_deref(),
        Some("Requesting program interpreter: /lib64/ld-linux-x86-64.so.2")
    );
}

#[test]
fn a_failed_header_run_fails_the_analysis() {
    let r = analyze_elf(Err("Command exited with code 1: no".to_string()), ok(SEGMENTS), ok(SECTIONS), ok(DYNAMIC));
    assert_eq!(r.unwrap_err(), "Failed to read ELF header: Command exited with code 1: no");
}

#[test]
fn a_failed_dynamic_run_leaves_the_dependencies_absent() {
    let info = analyze_elf(ok(HEADER), ok(SEGMENTS), ok(SECTIONS), failed()).unwrap();
    assert!(info.dependencies.is_none());
    assert_eq!(info.elf_type, "DYN (Position-Independent Executable file)");
    assert_eq!(info.machine, "Advanced Micro Devices X86-64");
    assert_eq!(info.entry, "0x1060");
    assert_eq!(info.program_headers.len(), 6);
    assert_eq!(info.section_headers.len(), 2);
    assert!(info.interpreter.is_some());
}

#[test]
fn only_the_header_run_is_required() {
    let info = analyze_elf(ok(HEADER), failed(), failed(), failed()).unwrap();
    assert_eq!(info.elf_type, "DYN (Position-Independent Executable file)");
    assert!(info.program_headers.is_empty());
    assert!(info.section_headers.is_empty());
    assert!(info.dependencies.is_none());
    assert!(info.interpreter.is_none());
}

#[test]
fn an_empty_header_gives_the_defaults() {
    let info = analyze_elf(ok(""), ok(""), ok(""), ok("")).unwrap();
    assert_eq!(info.elf_type, "unknown");
    assert_eq!(info.machine, "unknown");
    assert_eq!(info.entry, "0x0");
    assert!(info.program_headers.is_empty());
    assert!(info.section_headers.is_empty());
    assert!(info.dependencies.is_none());
    assert!(info.interpreter.is_none());
}

#[test]
fn a_header_field_is_what_follows_the_first_colon() {
    let lines = split_lines(&chars_of("  Type: a: b \nEntry point\nMachine:\n"));
    assert_eq!(header_field(&lines, "Type:", "unknown"), "a: b");
    assert_eq!(header_field(&lines, "Entry point", "0x0"), "0x0");
    assert_eq!(header_field(&lines, "Machine:", "unknown"), "");
    assert_eq!(header_field(&lines, "Absent", "none"), "none");
}

#[test]
fn the_last_matching_header_line_wins() {
    let lines = split_lines(&chars_of("Type: one\nType: two\nOther: x\n"));
    assert_eq!(header_field(&lines, "Type:", "unknown"), "two");
}

#[test]
fn program_headers_need_a_marker_first() {
    assert_eq!(parse_program_headers("  PHDR 1\n  LOAD 2\n"), Vec::<String>::new());
    assert_eq!(parse_program_headers("Program Headers:\n  PHDR 1\n\n  LOAD 2\n"), vec!["  PHDR 1", "  LOAD 2"]);
}

#[test]
fn a_line_that_is_not_indented_closes_the_block() {
    assert_eq!(
        parse_program_headers("Program Headers:\n  A\nstop\n  B\n  Type\n  C\n"),
        vec!["  A", "  C"]
    );
    assert_eq!(parse_program_headers("Program Headers:\n\tA\n  B\n"), Vec::<String>::new());
}

#[test]
fn section_headers_keep_the_lines_that_begin_with_a_digit() {
    assert_eq!(
        parse_section_headers("Section Headers:\n  [ 1] x\n  12 y\n   z\n 3\nend\n 4\n"),
        vec!["  12 y", " 3"]
    );
    assert_eq!(parse_section_headers(" 1\n 2\n"), Vec::<String>::new());
    assert_eq!(parse_section_headers("  [Nr] Name\n 7 seven\n"), vec![" 7 seven"]);
}

#[test]
fn the_interpreter_is_the_bracketed_token_after_interp() {
    assert_eq!(parse_interpreter("[a] INTERP x\n y [b] [c]").as_deref(), Some("b"));
    assert_eq!(parse_interpreter("INTERP [unclosed"), None);
    assert_eq!(parse_interpreter("INTERP no bracket"), None);
    assert_eq!(parse_interpreter("[a] interp [b]"), None);
    assert_eq!(parse_interpreter("INTERP[]").as_deref(), Some(""));
    assert_eq!(parse_interpreter(""), None);
}

#[test]
fn dependencies_are_absent_where_none_is_needed() {
    assert_eq!(parse_dependencies(""), None);
    assert_eq!(parse_dependencies(" (INIT) [x]\n"), None);
    assert_eq!(parse_dependencies(" (NEEDED) no bracket\n"), None);
    assert_eq!(
        parse_dependencies("[early] NEEDED [late]\nNEEDED ] [b]\n"),
        Some(vec!["early".to_string(), "b".to_string()])
    );
}

#[test]
fn a_bracketed_token_starts_at_the_first_opening_bracket() {
    let s = chars_of("a[b[c]d]");
    assert_eq!(bracketed_from(&s, 0).map(|t| string_of(&t)).as_deref(), Some("b[c"));
    assert_eq!(bracketed_from(&s, 2).map(|t| string_of(&t)).as_deref(), Some("c"));
    assert_eq!(bracketed_from(&s, 4), None);
    assert_eq!(bracketed_from(&s, 8), None);
}

#[test]
fn readelf_runs_for_half_a_second_in_the_c_locale() {
    let inv = readelf_invocation("-h", "/tmp/x/usr/bin/foo");
    assert_eq!(inv.program, "readelf");
    assert_eq!(inv.args, vec!["-h", "/tmp/x/usr/bin/foo"]);
    assert_eq!(inv.timeout_ms, 500);
    assert_eq!(inv.env, vec![("LC_ALL".to_string(), "C".to_string())]);
}

#[test]
fn four_runs_describe_a_binary() {
    let runs = elf_invocations("bin/ls");
    let flags: Vec<&str> = runs.iter().map(|r| r.args[0].as_str()).collect();
    assert_eq!(flags, vec!["-h", "-l", "-S", "-d"]);
    for run in &runs {
        assert_eq!(run.program, "readelf");
        assert_eq!(run.args[1], "bin/ls");
        assert_eq!(run.args.len(), 2);
        assert_eq!(run.timeout_ms, 500);
    }
}
