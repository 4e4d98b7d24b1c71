use viewdeb::commands::parse::{next_step, parse_deb_package, Contents, Findings, Gathered, Step};
use viewdeb::extractors::deb::{EntryKind, EntryMetadata, WalkEntry};
use viewdeb::extractors::elf::ElfOutputs;

fn entry(path: &str, kind: EntryKind, size: u64) -> WalkEntry {
    WalkEntry {
        path: path.to_string(),
        kind,
        metadata: Some(EntryMetadata { size, mode: 0o755, modified_ms: Some(5) }),
    }
}

fn payload(binaries: usize) -> Vec<WalkEntry> {
    let mut entries = vec![
        entry("", EntryKind::Directory, 4096),
        entry("usr", EntryKind::Directory, 4096),
        entry("usr/bin", EntryKind::Directory, 4096),
    ];
    for i in 0..binaries {
        entries.push(entry(&format!("usr/bin/tool{}", i), EntryKind::File, 100));
    }
    entries.push(entry("usr/share/applications/tool.desktop", EntryKind::File, 50));
    entries.push(entry("usr/share/applications/other.desktop", EntryKind::File, 50));
    entries.push(entry("usr/bin/tool-link", EntryKind::Symlink, 9));
    entries
}

fn contents(binaries: usize) -> Contents {
    Contents {
        control: Ok("Package: tool\nVersion: 1.2\nArchitecture: amd64\nDescription: a tool\n more\n".to_string()),
        entries: Ok(payload(binaries)),
        scripts: Some(vec![("postinst".to_string(), "#!/bin/sh\n".to_string())]),
        md5sums: Some("d41d8cd9  usr/bin/tool0\n".to_string()),
        conffiles: None,
    }
}

fn outputs(machine: &str) -> ElfOutputs {
    ElfOutputs {
        header: Ok(format!("  Type: EXEC\n  Machine: {}\n  Entry point address: 0x40\n", machine)),
        segments: Err("Command timed out after 500ms".to_string()),
        sections: Ok("Section Headers:\n 1 one\n".to_string()),
        dynamic: Ok(" (NEEDED) [libc.so.6]\n".to_string()),
    }
}

fn inspected(paths: &[String], desktop: &[String]) -> Findings {
    Findings {
        binaries: paths.iter().map(|p| (p.clone(), outputs(p))).collect(),
        desktop_files: desktop
            .iter()
            .map(|p| (p.clone(), Ok(format!("[Desktop Entry]\nName={}\n[Other]\nName=no\n", p))))
            .collect(),
    }
}

fn accepted() -> Gathered {
    Gathered::start(Some("deb".to_string()), true, Ok(2048))
}

fn unpacked(binaries: usize) -> Gathered {
    let mut g = accepted();
    g.scratch = Some(Ok(()));
    g.extraction = Some(Ok(()));
    g.contents = Some(contents(binaries));
    g
}

fn chosen(g: &Gathered) -> (Vec<String>, Vec<String>) {
    match next_step(g) {
        Step::Analyze { binaries, desktop_files } => (binaries, desktop_files),
        other => panic!("expected the inspection to be due, not {:?}", other),
    }
}

#[test]
fn the_steps_come_in_their_order() {
    let mut g = accepted();
    assert!(matches!(next_step(&g), Step::CreateScratch));
    g.scratch = Some(Ok(()));
    assert!(matches!(next_step(&g), Step::Extract));
    g.extraction = Some(Ok(()));
    assert!(matches!(next_step(&g), Step::ReadContents));
    g.contents = Some(contents(2));
    let (binaries, desktop_files) = chosen(&g);
    assert_eq!(binaries, vec!["usr/bin/tool0", "usr/bin/tool1"]);
    assert_eq!(
        desktop_files,
        vec!["usr/share/applications/tool.desktop", "usr/share/applications/other.desktop"]
    );
    g.findings = Some(inspected(&binaries, &desktop_files));
    assert!(matches!(next_step(&g), Step::Finish));
}

#[test]
fn nothing_is_begun_on_an_input_that_fails_the_checks() {
    let g = Gathered::start(Some("zip".to_string()), true, Ok(1));
    assert!(matches!(next_step(&g), Step::Finish));
    assert_eq!(
        parse_deb_package(g).unwrap_err(),
        "Invalid file type. Only .deb and .udeb files are supported"
    );
    let g = Gathered::start(None, true, Ok(1));
    assert!(matches!(next_step(&g), Step::Finish));
    assert_eq!(parse_deb_package(g).unwrap_err(), "Invalid file path");
    let g = Gathered::start(Some("deb".to_string()), false, Err("gone".to_string()));
    assert!(matches!(next_step(&g), Step::Finish));
    assert_eq!(parse_deb_package(g).unwrap_err(), "File does not exist");
    let g = Gathered::start(Some("deb".to_string()), true, Ok(500 * 1024 * 1024 + 1));
    assert!(matches!(next_step(&g), Step::Finish));
    assert_eq!(parse_deb_package(g).unwrap_err(), "File size exceeds 500MB limit");
}

#[test]
fn a_package_of_exactly_the_limit_goes_on() {
    let g = Gathered::start(Some("deb".to_string()), true, Ok(500 * 1024 * 1024));
    assert!(matches!(next_step(&g), Step::CreateScratch));
}

#[test]
fn a_failed_scratch_directory_ends_the_run() {
    let mut g = accepted();
    g.scratch = Some(Err("Permission denied (os error 13)".to_string()));
    assert!(matches!(next_step(&g), Step::Finish));
    assert_eq!(
        parse_deb_package(g).unwrap_err(),
        "Failed to create temp directory: Permission denied (os error 13)"
    );
}

#[test]
fn a_failed_unpacking_ends_the_run() {
    let mut g = accepted();
    g.scratch = Some(Ok(()));
    g.extraction = Some(Err("Failed to extract package data: Command timed out after 60000ms".to_string()));
    assert!(matches!(next_step(&g), Step::Finish));
    assert_eq!(
        parse_deb_package(g).unwrap_err(),
        "Extract failed: Failed to extract package data: Command timed out after 60000ms"
    );
}

#[test]
fn a_missing_control_file_ends_the_run() {
    let mut g = unpacked(1);
    g.contents = Some(Contents { control: Err("No such file".to_string()), ..contents(1) });
    assert!(matches!(next_step(&g), Step::Finish));
    assert_eq!(parse_deb_package(g).unwrap_err(), "Failed to read control file: No such file");
}

#[test]
fn the_control_file_is_missed_before_the_payload() {
    let mut g = unpacked(1);
    g.contents = Some(Contents {
        control: Err("one".to_string()),
        entries: Err("two".to_string()),
        ..contents(1)
    });
    assert_eq!(parse_deb_package(g).unwrap_err(), "Failed to read control file: one");
}

#[test]
fn an_unreadable_payload_ends_the_run() {
    let mut g = unpacked(1);
    g.contents = Some(Contents {
        entries: Err("Failed to read directory: denied".to_string()),
        ..contents(1)
    });
    assert!(matches!(next_step(&g), Step::Finish));
    assert_eq!(parse_deb_package(g).unwrap_err(), "Failed to read directory: denied");
}

#[test]
fn a_full_run_gives_a_full_report() {
    let mut g = unpacked(2);
    let (binaries, desktop_files) = chosen(&g);
    g.findings = Some(inspected(&binaries, &desktop_files));
    g.parse_time = 321;
    let report = parse_deb_package(g).unwrap();

    assert_eq!(report.metadata.package, "tool");
    assert_eq!(report.metadata.version, "1.2");
    assert_eq!(report.metadata.architecture, "amd64");
    assert_eq!(report.metadata.description.as_deref(), Some("a tool\nmore"));

    let paths: Vec<&str> = report.files.iter().map(|f| f.path.as_str()).collect();
    assert_eq!(
        paths,
        vec![
            "usr",
            "usr/bin",
            "usr/bin/tool0",
            "usr/bin/tool1",
            "usr/share/applications/tool.desktop",
            "usr/share/applications/other.desktop",
        ]
    );

    assert_eq!(report.scripts.unwrap().postinst.as_deref(), Some("#!/bin/sh\n"));
    assert!(report.control_files.control.starts_with("Package: tool\n"));
    assert_eq!(report.control_files.md5sums.as_deref(), Some("d41d8cd9  usr/bin/tool0\n"));
    assert!(report.control_files.conffiles.is_none());

    let elf = report.elf_info.unwrap();
    assert_eq!(elf.len(), 2);
    let tool1 = elf.get("usr/bin/tool1").unwrap();
    assert_eq!(tool1.elf_type, "EXEC");
    assert_eq!(tool1.machine, "usr/bin/tool1");
    assert_eq!(tool1.entry, "0x40");
    assert!(tool1.program_headers.is_empty());
    assert!(tool1.interpreter.is_none());
    assert_eq!(tool1.section_headers, vec![" 1 one"]);
    assert_eq!(tool1.dependencies, Some(vec!["libc.so.6".to_string()]));

    let desktop = report.desktop_info.unwrap();
    assert_eq!(desktop.len(), 2);
    let tool = desktop.get("usr/share/applications/tool.desktop").unwrap();
    assert_eq!(tool.len(), 1);
    assert_eq!(tool.get("Name").map(|s| s.as_str()), Some("usr/share/applications/tool.desktop"));

    assert_eq!(report.stats.file_count, 6);
    assert_eq!(report.stats.extracted_size, 300);
    assert_eq!(report.stats.elf_count, 2);
    assert_eq!(report.stats.desktop_count, 2);
    assert_eq!(report.stats.original_size, 2048);
    assert_eq!(report.stats.parse_time, 321);
}

#[test]
fn of_thirty_five_binaries_twenty_are_in_the_report() {
    let mut g = unpacked(35);
    let (binaries, desktop_files) = chosen(&g);
    assert_eq!(binaries.len(), 20);
    let every: Vec<String> = (0..35).map(|i| format!("usr/bin/tool{}", i)).collect();
    g.findings = Some(inspected(&every, &desktop_files));
    let report = parse_deb_package(g).unwrap();
    assert_eq!(report.stats.elf_count, 35);
    let elf = report.elf_info.unwrap();
    assert_eq!(elf.len(), 20);
    for i in 0..20 {
        assert_eq!(elf.key_at(i), &format!("usr/bin/tool{}", i));
    }
    for i in 20..35 {
        assert!(!elf.contains_key(&format!("usr/bin/tool{}", i)));
    }
}

#[test]
fn findings_that_fail_are_left_out() {
    let mut g = unpacked(3);
    let (binaries, desktop_files) = chosen(&g);
    let mut findings = inspected(&binaries, &desktop_files);
    findings.binaries[1].1.header = Err("Command exited with code 1: not an ELF file".to_string());
    findings.desktop_files[0].1 = Err("stream did not contain valid UTF-8".to_string());
    g.findings = Some(findings);
    let report = parse_deb_package(g).unwrap();
    let elf = report.elf_info.unwrap();
    assert_eq!(elf.len(), 2);
    assert!(elf.contains_key("usr/bin/tool0"));
    assert!(!elf.contains_key("usr/bin/tool1"));
    assert!(elf.contains_key("usr/bin/tool2"));
    let desktop = report.desktop_info.unwrap();
    assert_eq!(desktop.len(), 1);
    assert!(desktop.contains_key("usr/share/applications/other.desktop"));
    assert_eq!(report.stats.elf_count, 3);
    assert_eq!(report.stats.desktop_count, 2);
}

#[test]
fn a_report_without_findings_has_no_maps() {
    let mut g = unpacked(0);
    g.contents = Some(Contents {
        entries: Ok(vec![entry("etc", EntryKind::Directory, 0), entry("etc/motd", EntryKind::File, 7)]),
        scripts: None,
        ..contents(0)
    });
    let (binaries, desktop_files) = chosen(&g);
    assert!(binaries.is_empty());
    assert!(desktop_files.is_empty());
    g.findings = Some(Findings { binaries: Vec::new(), desktop_files: Vec::new() });
    let report = parse_deb_package(g).unwrap();
    assert!(report.elf_info.is_none());
    assert!(report.desktop_info.is_none());
    assert!(report.scripts.is_none());
    assert_eq!(report.stats.file_count, 2);
    assert_eq!(report.stats.extracted_size, 7);
}

#[test]
fn findings_for_paths_that_were_not_chosen_count_for_nothing() {
    let mut g = unpacked(1);
    let stray = vec!["usr/bin/tool0".to_string(), "usr/bin/ghost".to_string(), "usr".to_string()];
    g.findings = Some(inspected(&stray, &["etc/x.desktop".to_string()]));
    let report = parse_deb_package(g).unwrap();
    let elf = report.elf_info.unwrap();
    assert_eq!(elf.len(), 1);
    assert!(elf.contains_key("usr/bin/tool0"));
    assert!(report.desktop_info.is_none());
}
