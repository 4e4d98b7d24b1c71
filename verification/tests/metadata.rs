use viewdeb::extractors::deb::DebExtractor;

#[test]
fn a_control_file_is_read_field_by_field() {
    let text = "Package: foo\nVersion: 1.0-1\nArchitecture: amd64\nMaintainer: A Person <a@b.c>\n\
                Installed-Size: 123\nSection: utils\nPriority: optional\n\
                Homepage: https://example.org/foo\nDepends: libc6 (>= 2.34), libx\n\
                Pre-Depends: dpkg\nRecommends: r\nSuggests: s\nConflicts: c\nBreaks: b\n\
                Replaces: p\nDescription: a tool\n";
    let m = DebExtractor::parse_metadata(text);
    assert_eq!(m.package, "foo");
    assert_eq!(m.version, "1.0-1");
    assert_eq!(m.architecture, "amd64");
    assert_eq!(m.maintainer.as_deref(), Some("A Person <a@b.c>"));
    assert_eq!(m.installed_size.as_deref(), Some("123"));
    assert_eq!(m.section.as_deref(), Some("utils"));
    assert_eq!(m.priority.as_deref(), Some("optional"));
    assert_eq!(m.homepage.as_deref(), Some("https://example.org/foo"));
    assert_eq!(m.depends.as_deref(), Some("libc6 (>= 2.34), libx"));
    assert_eq!(m.pre_depends.as_deref(), Some("dpkg"));
    assert_eq!(m.recommends.as_deref(), Some("r"));
    assert_eq!(m.suggests.as_deref(), Some("s"));
    assert_eq!(m.conflicts.as_deref(), Some("c"));
    assert_eq!(m.breaks.as_deref(), Some("b"));
    assert_eq!(m.replaces.as_deref(), Some("p"));
    assert_eq!(m.description.as_deref(), Some("a tool"));
}

#[test]
fn an_empty_text_gives_the_defaults() {
    let m = DebExtractor::parse_metadata("");
    assert_eq!(m.package, "");
    assert_eq!(m.version, "");
    assert_eq!(m.architecture, "");
    assert!(m.maintainer.is_none());
    assert!(m.installed_size.is_none());
    assert!(m.section.is_none());
    assert!(m.priority.is_none());
    assert!(m.homepage.is_none());
    assert!(m.description.is_none());
    assert!(m.depends.is_none());
    assert!(m.pre_depends.is_none());
    assert!(m.recommends.is_none());
    assert!(m.suggests.is_none());
    assert!(m.conflicts.is_none());
    assert!(m.breaks.is_none());
    assert!(m.replaces.is_none());
}

#[test]
fn required_fields_that_are_missing_stay_empty() {
    let m = DebExtractor::parse_metadata("Version: 2\nSection: net\n");
    assert_eq!(m.package, "");
    assert_eq!(m.version, "2");
    assert_eq!(m.architecture, "");
    assert_eq!(m.section.as_deref(), Some("net"));
}

#[test]
fn any_text_is_accepted() {
    for text in ["\u{0}\u{1}", ":::", "no colon here", " \t ", "\n\n\n", "Package", ": value",
        "Description\n more", "é: ü"]
    {
        let m = DebExtractor::parse_metadata(text);
        assert_eq!(m.package, "");
        assert!(m.description.is_none());
    }
}

#[test]
fn reading_twice_gives_the_same() {
    let text = "Package: a\nDescription: x\n y\n";
    let one = DebExtractor::parse_metadata(text);
    let two = DebExtractor::parse_metadata(text);
    assert_eq!(one.package, two.package);
    assert_eq!(one.description, two.description);
    assert_eq!(one.version, two.version);
}

#[test]
fn the_description_takes_its_continuation_lines() {
    let m = DebExtractor::parse_metadata(
        "Package: foo\nDescription: short\n long line one\n .\n\tlong two  \nSection: x\n",
    );
    assert_eq!(m.description.as_deref(), Some("short\nlong line one\n.\nlong two"));
    assert_eq!(m.section.as_deref(), Some("x"));
}

#[test]
fn other_fields_take_no_continuation_lines() {
    let m = DebExtractor::parse_metadata("Depends: a,\n b,\n c\nDescription: d\n");
    assert_eq!(m.depends.as_deref(), Some("a,"));
    assert_eq!(m.description.as_deref(), Some("d"));
}

#[test]
fn a_blank_line_ends_the_current_field() {
    let m = DebExtractor::parse_metadata("Description: a\n\n b\n");
    assert_eq!(m.description.as_deref(), Some("a"));
    let m = DebExtractor::parse_metadata("Description: a\n  \t \n b\n");
    assert_eq!(m.description.as_deref(), Some("a"));
}

#[test]
fn a_line_without_a_colon_is_passed_over() {
    let m = DebExtractor::parse_metadata("Description: a\nnoise\n b\n");
    assert_eq!(m.description.as_deref(), Some("a\nb"));
}

#[test]
fn a_new_field_ends_the_description() {
    let m = DebExtractor::parse_metadata("Description: a\nSection: utils\n b\n");
    assert_eq!(m.description.as_deref(), Some("a"));
    let m = DebExtractor::parse_metadata("Description: a\nUnknown: u\n b\n");
    assert_eq!(m.description.as_deref(), Some("a"));
}

#[test]
fn a_later_field_replaces_an_earlier_one() {
    let m = DebExtractor::parse_metadata("Package: a\nPackage: b\nDescription: x\n y\nDescription: z\n");
    assert_eq!(m.package, "b");
    assert_eq!(m.description.as_deref(), Some("z"));
}

#[test]
fn keys_and_values_are_trimmed_and_split_at_the_first_colon() {
    let m = DebExtractor::parse_metadata("Package :  foo  \nHomepage:http://h:80/\nVersion:\n");
    assert_eq!(m.package, "foo");
    assert_eq!(m.homepage.as_deref(), Some("http://h:80/"));
    assert_eq!(m.version, "");
}

#[test]
fn keys_are_matched_exactly() {
    let m = DebExtractor::parse_metadata("package: a\nPACKAGE: b\nX-Package: c\n Package: d\n");
    assert_eq!(m.package, "");
}

#[test]
fn carriage_returns_before_line_feeds_are_dropped() {
    let m = DebExtractor::parse_metadata("Package: foo\r\nDescription: a\r\n b\r\n");
    assert_eq!(m.package, "foo");
    assert_eq!(m.description.as_deref(), Some("a\nb"));
}
