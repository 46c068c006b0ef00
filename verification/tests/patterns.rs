use embedded_gdb_mcp::pattern::{
    decimal_digit, find_breakpoint_number, find_info_line_location, find_info_source_file,
    listed_line_numbers, listing_is_blank,
};

fn regex_breakpoint(s: &str) -> Option<String> {
    let re = regex::Regex::new(r"Breakpoint (\d+)").unwrap();
    re.captures(s).and_then(|c| c.get(1)).map(|m| m.as_str().to_string())
}

fn regex_info_line(s: &str) -> Option<(String, String)> {
    let re = regex::Regex::new(r#"Line (\d+) of "([^"]+)""#).unwrap();
    re.captures(s)
        .map(|c| (c.get(1).unwrap().as_str().to_string(), c.get(2).unwrap().as_str().to_string()))
}

fn regex_info_source(s: &str) -> Option<String> {
    let re = regex::Regex::new(r"Current source file is (.+?)(?: |$)").unwrap();
    re.captures(s).and_then(|c| c.get(1)).map(|m| m.as_str().to_string())
}

fn regex_listed_lines(s: &str) -> Vec<u32> {
    let re = regex::Regex::new(r"^\s*(\d+)\s+").unwrap();
    s.lines()
        .filter_map(|line| re.captures(line).and_then(|c| c.get(1)?.as_str().parse::<u32>().ok()))
        .collect()
}

#[test]
fn decimal_digits_are_unicode_digits() {
    let re = regex::Regex::new(r"\A\d\z").unwrap();
    let mut samples: Vec<char> = (0u32..0x800).filter_map(char::from_u32).collect();
    samples.extend(['\u{0966}', '\u{09EF}', '\u{FF10}', '\u{FF19}', '\u{1D7CE}', '\u{2000}', '\u{3000}', 'Ⅻ', '²']);
    for c in samples {
        let mut buf = [0u8; 4];
        assert_eq!(decimal_digit(c), re.is_match(c.encode_utf8(&mut buf)), "{c:?}");
    }
}

#[test]
fn breakpoint_number_from_break_output() {
    let out = "Breakpoint 1 at 0x1139: file main.c, line 5.\n(gdb) \n";
    assert_eq!(find_breakpoint_number(out).as_deref(), Some("1"));
    assert_eq!(find_breakpoint_number("No symbol table is loaded.\n"), None);
    assert_eq!(find_breakpoint_number("Breakpoint x then Breakpoint 12 at 0x0").as_deref(), Some("12"));
    assert_eq!(find_breakpoint_number("Breakpoint 305"), Some("305".to_string()));
}

#[test]
fn breakpoint_number_agrees_with_regex() {
    for s in [
        "",
        "Breakpoint ",
        "Breakpoint 7",
        "xxBreakpoint 42 at",
        "Breakpoint  3",
        "BreakpointBreakpoint 9",
        "Breakpoint ٣٤ at",
        "Breakpoint 1\nBreakpoint 2",
    ] {
        assert_eq!(find_breakpoint_number(s), regex_breakpoint(s), "{s:?}");
    }
}

#[test]
fn info_line_location_agrees_with_regex() {
    for s in [
        "Line 5 of \"main.c\" starts at address 0x1139 <main+4> and ends at 0x1141 <main+12>.\n",
        "Line 12 of \"/src/a b.c\" is at address",
        "Line of \"x\"",
        "Line 3 of \"\" Line 4 of \"y\"",
        "Line 3 of \"unterminated",
        "Line 77 of \"a\nb\"",
        "No line number information available.",
        "Line ٣ of \"u.c\"",
    ] {
        assert_eq!(find_info_line_location(s), regex_info_line(s), "{s:?}");
    }
}

#[test]
fn info_source_file_agrees_with_regex() {
    for s in [
        "Current source file is main.c\nCompilation directory is /tmp\n",
        "Current source file is /tmp/main.c Located in /tmp/main.c",
        "Current source file is x",
        "Current source file is ",
        "Current source file is  two",
        "Current source file is \nCurrent source file is b.c",
        "No current source file.\n",
    ] {
        assert_eq!(find_info_source_file(s), regex_info_source(s), "{s:?}");
    }
}

#[test]
fn listed_line_numbers_agree_with_regex() {
    for s in [
        "1\t#include <stdio.h>\n2\t\n3\tint main(void) {\n4\t    return 0;\n5\t}\n",
        "  10 \tcode\r\n  11\r\n12\tend",
        "no numbers here\n\n",
        "99999999999 too big\n7 ok\n",
        "",
        "\n\n3 x",
        "4\r",
        "\u{3000}8\u{2003}wide spaces\n",
    ] {
        assert_eq!(listed_line_numbers(s), regex_listed_lines(s), "{s:?}");
    }
}

#[test]
fn blank_listing() {
    assert!(listing_is_blank(" \n\t\n"));
    assert!(!listing_is_blank("1\tx\n"));
}

#[test]
fn white_space_is_regex_white_space() {
    let re = regex::Regex::new(r"\A\s\z").unwrap();
    for code in (0u32..0x3100).chain(0xFEFF..0xFF00) {
        if let Some(c) = char::from_u32(code) {
            let mut buf = [0u8; 4];
            assert_eq!(
                embedded_gdb_mcp::text::white_space(c),
                re.is_match(c.encode_utf8(&mut buf)),
                "U+{code:04X}"
            );
        }
    }
}

#[test]
fn listed_line_reads_back_its_number() {
    for n in [1u32, 42, 4294967295] {
        let listing = format!(" \t{}\tint x = {};\n", n, n);
        assert_eq!(listed_line_numbers(&listing), vec![n]);
    }
}
