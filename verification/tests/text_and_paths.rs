use embedded_gdb_mcp::normalize_path;
use embedded_gdb_mcp::path::normalize_path as normalize;
use embedded_gdb_mcp::text::{
    blank, chars_of, contains, i64_to_decimal, parse_u32_digits, push_decimal, white_space,
};
use embedded_gdb_mcp::GdbError;

#[test]
fn relative_program_is_joined_to_working_dir() {
    assert_eq!(normalize_path("a.out", Some("/home/me")), "/home/me/a.out");
    assert_eq!(normalize_path("bin/a.out", Some("/home/me/")), "/home/me/bin/a.out");
}

#[test]
fn absolute_program_is_kept() {
    assert_eq!(normalize_path("/usr/bin/ls", Some("/home/me")), "/usr/bin/ls");
}

#[test]
fn program_without_working_dir_is_kept() {
    assert_eq!(normalize_path("a.out", None), "a.out");
    assert_eq!(normalize("./x", None), "./x");
}

#[test]
fn path_edges_follow_std_path_join() {
    for (program, wd) in [
        ("a.out", ""),
        ("", "/tmp"),
        ("", "/tmp/"),
        ("../x", "rel/dir"),
        ("a", "/"),
        ("ü/β", "/ä"),
    ] {
        let expected = if std::path::Path::new(program).is_absolute() {
            program.to_string()
        } else {
            std::path::Path::new(wd).join(program).to_string_lossy().into_owned()
        };
        assert_eq!(normalize_path(program, Some(wd)), expected, "{program:?} in {wd:?}");
    }
}

#[test]
fn normalizing_twice_against_absolute_dir_changes_nothing() {
    let once = normalize_path("src/main.c", Some("/work"));
    assert_eq!(normalize_path(&once, Some("/work")), once);
}

#[test]
fn error_messages() {
    assert_eq!(
        GdbError::SessionNotFound("17".to_string()).to_message(),
        "No active GDB session with ID: 17"
    );
    assert_eq!(GdbError::GdbNotReady.to_message(), "GDB session is not ready");
    assert_eq!(
        GdbError::GdbProcessError("boom".to_string()).to_message(),
        "GDB process error: boom"
    );
    assert_eq!(GdbError::GdbTimeout.to_message(), "GDB command timed out");
    assert_eq!(GdbError::GdbStdinNotAvailable.to_message(), "GDB stdin is not available");
    assert_eq!(GdbError::IoError("broken pipe".to_string()).to_message(), "IO error: broken pipe");
    assert_eq!(GdbError::Other("plain".to_string()).to_message(), "plain");
}

#[test]
fn decimal_formatting() {
    for n in [0u64, 7, 10, 42, 1000, 4294967295, u64::MAX] {
        let mut s = String::from("n=");
        push_decimal(&mut s, n);
        assert_eq!(s, format!("n={}", n));
    }
    for n in [0i64, -1, 42, i64::MIN, i64::MAX, 1725029869000] {
        assert_eq!(i64_to_decimal(n), n.to_string());
    }
}

#[test]
fn parsing_digits() {
    let parse = |s: &str| {
        let v = chars_of(s);
        parse_u32_digits(&v, 0, v.len())
    };
    assert_eq!(parse("0"), Some(0));
    assert_eq!(parse("0042"), Some(42));
    assert_eq!(parse("4294967295"), Some(u32::MAX));
    assert_eq!(parse("4294967296"), None);
    assert_eq!(parse("99999999999999999999"), None);
    assert_eq!(parse(""), None);
    assert_eq!(parse("12a"), None);
    assert_eq!(parse("٣"), None);
    for s in ["0", "17", "4294967295", "4294967296", "", "1 2"] {
        assert_eq!(parse(s), s.parse::<u32>().ok(), "{s:?}");
    }
}

#[test]
fn decimal_parses_back() {
    for n in [0u32, 9, 10, 12345, u32::MAX] {
        let mut s = String::new();
        push_decimal(&mut s, n as u64);
        let v = chars_of(&s);
        assert_eq!(parse_u32_digits(&v, 0, v.len()), Some(n));
    }
}

#[test]
fn white_space_is_unicode_white_space() {
    for code in 0u32..=0x10FFFF {
        if let Some(c) = char::from_u32(code) {
            assert_eq!(white_space(c), c.is_whitespace(), "U+{code:04X}");
        }
    }
}

#[test]
fn blank_means_empty_after_trim() {
    for s in ["", " \t\n", "\u{3000}\r\n", " x ", "0"] {
        assert_eq!(blank(&chars_of(s)), s.trim().is_empty(), "{s:?}");
    }
}

#[test]
fn contains_finds_pieces() {
    let hay = chars_of("~\"done\"\n^done,value=\"1\"\n");
    assert!(contains(&hay, &chars_of("^done")));
    assert!(!contains(&hay, &chars_of("(gdb)")));
    assert!(contains(&hay, &chars_of("")));
    assert!(!contains(&chars_of(""), &chars_of("x")));
}
