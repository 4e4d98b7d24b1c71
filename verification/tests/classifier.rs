use viewdeb::extractors::deb::DebExtractor;

#[test]
fn a_library_under_a_binary_directory_is_elf() {
    assert!(DebExtractor::is_likely_elf_file("usr/lib/libfoo.so"));
}

#[test]
fn a_text_file_under_a_binary_directory_is_not_elf() {
    assert!(!DebExtractor::is_likely_elf_file("usr/bin/readme.txt"));
}

#[test]
fn a_plain_name_under_opt_is_elf() {
    assert!(DebExtractor::is_likely_elf_file("opt/myapp/app"));
}

#[test]
fn a_path_outside_and_without_a_generic_name_is_not_elf() {
    assert!(!DebExtractor::is_likely_elf_file("usr/share/doc/foo/changelog"));
    assert!(!DebExtractor::is_likely_elf_file("etc/foo.conf"));
    assert!(!DebExtractor::is_likely_elf_file(""));
}

#[test]
fn every_binary_directory_counts_with_and_without_a_leading_slash() {
    for dir in ["bin/", "sbin/", "usr/bin/", "usr/sbin/", "usr/local/bin/", "usr/local/sbin/",
        "lib/", "lib64/", "usr/lib/", "usr/lib64/", "usr/libexec/", "opt/"]
    {
        assert!(DebExtractor::is_likely_elf_file(&format!("{}tool", dir)));
        assert!(DebExtractor::is_likely_elf_file(&format!("/{}tool", dir)));
        assert!(!DebExtractor::is_likely_elf_file(&format!("x{}tool", dir)));
        assert!(!DebExtractor::is_likely_elf_file(&format!("//{}tool", dir)));
    }
}

#[test]
fn object_endings_decide_for_elf() {
    for ending in [".so", ".a", ".la", ".o"] {
        assert!(DebExtractor::is_likely_elf_file(&format!("usr/lib/x{}", ending)));
    }
    assert!(!DebExtractor::is_likely_elf_file("usr/share/x.so"));
}

#[test]
fn plain_endings_decide_against_elf() {
    for ending in [".png", ".jpg", ".jpeg", ".gif", ".svg", ".txt", ".xml", ".html", ".css",
        ".js", ".py", ".sh", ".desktop", ".json", ".conf", ".service"]
    {
        assert!(!DebExtractor::is_likely_elf_file(&format!("usr/lib/x{}", ending)));
    }
    assert!(DebExtractor::is_likely_elf_file("usr/lib/x.bin"));
    assert!(DebExtractor::is_likely_elf_file("usr/lib/x.so.1"));
}

#[test]
fn endings_are_judged_in_lowercase() {
    assert!(!DebExtractor::is_likely_elf_file("usr/bin/README.TXT"));
    assert!(!DebExtractor::is_likely_elf_file("opt/app/Icon.PNG"));
    assert!(DebExtractor::is_likely_elf_file("usr/lib/LIBFOO.SO"));
    assert!(!DebExtractor::is_likely_elf_file("USR/LIB/libfoo.so"));
}

#[test]
fn generic_names_count_anywhere_whatever_their_case() {
    for name in ["cc-switch", "app", "runner", "daemon", "server"] {
        assert!(DebExtractor::is_likely_elf_file(&format!("srv/thing/{}", name)));
        assert!(DebExtractor::is_likely_elf_file(&name.to_uppercase()));
    }
    assert!(!DebExtractor::is_likely_elf_file("srv/thing/apps"));
    assert!(!DebExtractor::is_likely_elf_file("srv/app/readme"));
    assert!(!DebExtractor::is_likely_elf_file("srv/app/"));
}

#[test]
fn the_rule_is_the_same_on_every_call() {
    for path in ["usr/lib/libfoo.so", "usr/bin/readme.txt", "opt/myapp/app", "var/x"] {
        assert_eq!(DebExtractor::is_likely_elf_file(path), DebExtractor::is_likely_elf_file(path));
    }
}

#[test]
fn the_rule_takes_the_lowercase_form_as_given() {
    assert!(DebExtractor::classify_path("usr/bin/a.txt", "usr/bin/a"));
    assert!(!DebExtractor::classify_path("usr/bin/a", "usr/bin/a.txt"));
    assert!(DebExtractor::classify_path("usr/bin/a.txt", "x.so"));
    assert!(DebExtractor::classify_path("srv/App", "whatever"));
}

#[test]
fn the_magic_number_is_four_bytes() {
    assert!(DebExtractor::is_elf_file(&[0x7F, 0x45, 0x4C, 0x46]));
    assert!(DebExtractor::is_elf_file(&[0x7F, 0x45, 0x4C, 0x46, 2, 1, 1]));
    assert!(!DebExtractor::is_elf_file(&[0x7F, 0x45, 0x4C]));
    assert!(!DebExtractor::is_elf_file(&[]));
    assert!(!DebExtractor::is_elf_file(&[0x7F, 0x45, 0x4C, 0x47]));
    assert!(!DebExtractor::is_elf_file(&[0x23, 0x21, 0x2F, 0x62]));
}
