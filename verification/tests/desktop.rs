use viewdeb::extractors::elf::analyze_desktop;

fn value<'a>(m: &'a viewdeb::string_map::StringMap<String>, key: &str) -> Option<&'a str> {
    m.get(key).map(|s| s.as_str())
}

#[test]
fn a_second_section_does_not_overwrite_the_first() {
    let m = analyze_desktop("[Desktop Entry]\nName=Foo\nExec=foo %U\n[Desktop Action New]\nName=Bar\n");
    assert_eq!(m.len(), 2);
    assert_eq!(value(&m, "Name"), Some("Foo"));
    assert_eq!(value(&m, "Exec"), Some("foo %U"));
    assert_eq!(m.key_at(0), "Name");
    assert_eq!(m.key_at(1), "Exec");
}

#[test]
fn nothing_is_read_before_the_desktop_entry_header() {
    let m = analyze_desktop("Name=Early\n# comment\n[Desktop Entry]\nName=Foo\n");
    assert_eq!(m.len(), 1);
    assert_eq!(value(&m, "Name"), Some("Foo"));
}

#[test]
fn a_section_before_the_desktop_entry_is_passed_over() {
    let m = analyze_desktop("[Other]\nName=X\n[Desktop Entry]\nName=Foo\n");
    assert_eq!(m.len(), 1);
    assert_eq!(value(&m, "Name"), Some("Foo"));
}

#[test]
fn without_the_header_nothing_is_read() {
    assert!(analyze_desktop("Name=Foo\nExec=foo\n").is_empty());
    assert!(analyze_desktop("").is_empty());
    assert!(analyze_desktop("[desktop entry]\nName=Foo\n").is_empty());
}

#[test]
fn a_later_key_replaces_an_earlier_one() {
    let m = analyze_desktop("[Desktop Entry]\nName=One\nIcon=i\nName=Two\n");
    assert_eq!(m.len(), 2);
    assert_eq!(value(&m, "Name"), Some("Two"));
    assert_eq!(value(&m, "Icon"), Some("i"));
}

#[test]
fn keys_and_values_are_trimmed_and_split_at_the_first_equals_sign() {
    let m = analyze_desktop("  [Desktop Entry]  \n  Name [de] =  Foo = Bar  \nEmpty=\n=novalue\nplain line\n");
    assert_eq!(value(&m, "Name [de]"), Some("Foo = Bar"));
    assert_eq!(value(&m, "Empty"), Some(""));
    assert_eq!(value(&m, ""), Some("novalue"));
    assert_eq!(m.len(), 3);
}

#[test]
fn a_repeated_desktop_entry_header_does_not_end_the_reading() {
    let m = analyze_desktop("[Desktop Entry]\nA=1\n[Desktop Entry]\nB=2\n[X]\nC=3\n[Desktop Entry]\nD=4\n");
    assert_eq!(m.len(), 2);
    assert_eq!(value(&m, "A"), Some("1"));
    assert_eq!(value(&m, "B"), Some("2"));
    assert!(!m.contains_key("C"));
    assert!(!m.contains_key("D"));
}

#[test]
fn a_line_in_brackets_with_an_equals_sign_still_ends_the_reading() {
    let m = analyze_desktop("[Desktop Entry]\nA=1\n[a=b]\nB=2\n");
    assert_eq!(m.len(), 1);
    let m = analyze_desktop("[Desktop Entry]\n[a]=b\nB=2\n");
    assert_eq!(value(&m, "[a]"), Some("b"));
    assert_eq!(value(&m, "B"), Some("2"));
}
