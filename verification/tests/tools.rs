use embedded_gdb_mcp::session::SessionState;
use embedded_gdb_mcp::tools::{
    after_info_line, after_info_source, begin_source_probe, default_examine_count,
    default_examine_format, default_gdb_path, default_line_count, describe_session,
    describe_sessions, file_command, list_sessions_message, load_message, sessions_json,
    source_location_json, start_failure_message, start_message, vscode_uri,
};
use embedded_gdb_mcp::{
    SessionRegistry,
    GdbAttachArgs, GdbBacktraceArgs, GdbCommandArgs, GdbContinueArgs, GdbError, GdbExamineArgs,
    GdbFinishArgs, GdbInfoRegistersArgs, GdbListSourceArgs, GdbLoadArgs, GdbLoadCoreArgs,
    GdbNextArgs, GdbPrintArgs, GdbSetBreakpointArgs, GdbStepArgs, GdbTerminateArgs, SourceInfo,
    SourceProbe,
};

fn sid() -> String {
    "1700000000000".to_string()
}

#[test]
fn defaults() {
    assert_eq!(default_gdb_path(), "gdb");
    assert_eq!(default_examine_format(), "x");
    assert_eq!(default_examine_count(), 1);
    assert_eq!(default_line_count(), 10);
}

#[test]
fn start_messages() {
    assert_eq!(
        start_message("42", "(gdb)\n"),
        "GDB session started with ID: 42\n\nOutput:\n(gdb)\n"
    );
    let e = GdbError::GdbProcessError("Failed to spawn GDB: No such file".to_string());
    assert_eq!(
        start_failure_message(&e),
        "Failed to start GDB: GDB process error: Failed to spawn GDB: No such file"
    );
}

#[test]
fn load_commands_and_message() {
    assert_eq!(file_command("/w/a.out"), "file \"/w/a.out\"");
    let a = GdbLoadArgs { session_id: sid(), program: "a.out".into(), arguments: Some(vec!["-v".into(), "x y".into()]) };
    assert_eq!(a.set_args_command().as_deref(), Some("set args -v x y"));
    let b = GdbLoadArgs { session_id: sid(), program: "a.out".into(), arguments: Some(vec![]) };
    assert_eq!(b.set_args_command(), None);
    let c = GdbLoadArgs { session_id: sid(), program: "a.out".into(), arguments: None };
    assert_eq!(c.set_args_command(), None);
    assert_eq!(load_message("/w/a.out", "L\n", ""), "Program loaded: /w/a.out\n\nOutput:\nL\n");
    assert_eq!(load_message("/w/a.out", "L\n", "S\n"), "Program loaded: /w/a.out\n\nOutput:\nL\n\nS\n");
}

#[test]
fn command_and_terminate_messages() {
    let a = GdbCommandArgs { session_id: sid(), command: "info frame".into() };
    assert_eq!(a.message("out"), "Command: info frame\n\nOutput:\nout");
    let t = GdbTerminateArgs { session_id: "9".into() };
    assert_eq!(t.message(), "GDB session terminated: 9");
}

#[test]
fn session_listing() {
    let mut st = SessionState::new("5".into(), Some("/w".into()));
    st.load_program("p");
    let info = describe_session(&"5".to_string(), Some(&st), Some("/cwd"));
    assert_eq!((info.id.as_str(), info.target.as_str(), info.working_dir.as_str()), ("5", "/w/p", "/w"));
    let bare = SessionState::new("6".into(), None);
    let info = describe_session(&"6".to_string(), Some(&bare), Some("/cwd"));
    assert_eq!((info.target.as_str(), info.working_dir.as_str()), ("No program loaded", "/cwd"));
    let info = describe_session(&"7".to_string(), None, None);
    assert_eq!((info.target.as_str(), info.working_dir.as_str()), ("No program loaded", "unknown"));
    assert_eq!(list_sessions_message(2, "[]"), "Active GDB Sessions (2):\n\n[]");
}

#[test]
fn attach_and_core() {
    let a = GdbAttachArgs { session_id: sid(), pid: 4321 };
    assert_eq!(a.command(), "attach 4321");
    assert_eq!(a.message("ok"), "Attached to process 4321\n\nOutput:\nok");
    let c = GdbLoadCoreArgs { session_id: sid(), program: "a.out".into(), core_path: "core.1".into() };
    let (f, k, b) = c.commands();
    assert_eq!((f.as_str(), k.as_str(), b.as_str()), ("file \"a.out\"", "core-file \"core.1\"", "backtrace"));
    assert_eq!(c.message("F", "C", "B"), "Core file loaded: core.1\n\nOutput:\nF\nC\n\nBacktrace:\nB");
}

#[test]
fn breakpoints() {
    let a = GdbSetBreakpointArgs { session_id: sid(), location: "main.c:5".into(), condition: Some("x > 3".into()) };
    assert_eq!(a.command(), "break main.c:5");
    let out = "&\"break main.c:5\\n\"\n~\"Breakpoint 2 at 0x1151: file main.c, line 5.\\n\"\n^done\n";
    assert_eq!(a.condition_command(out).as_deref(), Some("condition 2 x > 3"));
    assert_eq!(a.condition_command("^error,msg=\"No symbol table\"\n"), None);
    assert_eq!(
        a.message("O", "C"),
        "Breakpoint set at: main.c:5 with condition: x > 3\n\nOutput:\nO\nC"
    );
    let b = GdbSetBreakpointArgs { session_id: sid(), location: "main".into(), condition: None };
    assert_eq!(b.condition_command(out), None);
    assert_eq!(b.message("O", ""), "Breakpoint set at: main\n\nOutput:\nO");
}

#[test]
fn running() {
    let c = GdbContinueArgs { session_id: sid() };
    assert_eq!(c.command(), "continue");
    assert_eq!(c.message("o"), "Continued execution\n\nOutput:\no");
    let f = GdbFinishArgs { session_id: sid() };
    assert_eq!(f.command(), "finish");
    assert_eq!(f.message("o"), "Finished current function\n\nOutput:\no");
    for (instructions, cmd, kind) in [(true, "stepi", "instruction"), (false, "step", "line")] {
        let s = GdbStepArgs { session_id: sid(), instructions };
        assert_eq!(s.command(), cmd);
        assert_eq!(s.message("o"), format!("Stepped {}\n\nOutput:\no", kind));
    }
    for (instructions, cmd, kind) in [(true, "nexti", "instruction"), (false, "next", "function call")] {
        let s = GdbNextArgs { session_id: sid(), instructions };
        assert_eq!(s.command(), cmd);
        assert_eq!(s.message("o"), format!("Stepped over {}\n\nOutput:\no", kind));
    }
}

#[test]
fn backtraces() {
    let cases = [
        (false, None, "backtrace", "Backtrace:\n\no"),
        (true, None, "backtrace full", "Backtrace (full):\n\no"),
        (false, Some(5), "backtrace 5", "Backtrace (limit: 5):\n\no"),
        (true, Some(0), "backtrace full 0", "Backtrace (full) (limit: 0):\n\no"),
    ];
    for (full, limit, cmd, msg) in cases {
        let b = GdbBacktraceArgs { session_id: sid(), full, limit };
        assert_eq!(b.command(), cmd);
        assert_eq!(b.message("o"), msg);
    }
}

#[test]
fn values_and_memory() {
    let p = GdbPrintArgs { session_id: sid(), expression: "argc".into() };
    assert_eq!(p.command(), "print argc");
    assert_eq!(p.message("$1 = 1"), "Print argc:\n\n$1 = 1");
    let x = GdbExamineArgs { session_id: sid(), expression: "$sp".into(), format: "x".into(), count: 4 };
    assert_eq!(x.command(), "x/4x $sp");
    assert_eq!(x.message("m"), "Examine $sp (format: x, count: 4):\n\nm");
    let r = GdbInfoRegistersArgs { session_id: sid(), register: Some("rip".into()) };
    assert_eq!(r.command(), "info registers rip");
    assert_eq!(r.message("v"), "Register info for rip:\n\nv");
    let all = GdbInfoRegistersArgs { session_id: sid(), register: None };
    assert_eq!(all.command(), "info registers");
    assert_eq!(all.message("v"), "Register info:\n\nv");
}

#[test]
fn listing_commands() {
    let l = GdbListSourceArgs { session_id: sid(), location: Some("main".into()), line_count: 10 };
    let (size, list) = l.commands();
    assert_eq!((size.as_str(), list.as_str()), ("set listsize 10", "list main"));
    assert_eq!(l.message("1\tx\n"), "Source code at main:\n\n1\tx\n");
    let n = GdbListSourceArgs { session_id: sid(), location: None, line_count: 25 };
    let (size, list) = n.commands();
    assert_eq!((size.as_str(), list.as_str()), ("set listsize 25", "list"));
    assert_eq!(n.message("o"), "Source code:\n\no");
}

fn finished(p: SourceProbe) -> Option<SourceInfo> {
    match p {
        SourceProbe::Finished(info) => info,
        SourceProbe::Query(c) => panic!("unexpected query {c}"),
    }
}

fn query(p: SourceProbe) -> String {
    match p {
        SourceProbe::Query(c) => c,
        SourceProbe::Finished(_) => panic!("finished early"),
    }
}

#[test]
fn source_probe_through_info_line() {
    let listing = "3\tint main(void) {\n4\t  return 0;\n5\t}\n";
    assert!(finished(begin_source_probe("  \n")).is_none());
    assert_eq!(query(begin_source_probe(listing)), "info line");
    // In the machine interface the quotes come escaped, and the reply names no location.
    let escaped = "~\"Line 4 of \\\"main.c\\\" starts at address 0x1139\"\n^done\n";
    assert_eq!(query(after_info_line(listing, Some(escaped))), "info source");
    let plain = "Line 4 of \"/src/main.c\" starts at address";
    let info = finished(after_info_line(listing, Some(plain))).unwrap();
    assert_eq!(
        (info.file_path.as_str(), info.line_start, info.line_end, info.current_line),
        ("/src/main.c", 3, 5, 4)
    );
    assert_eq!(vscode_uri(&info), "vscode://file/src/main.c:3");
    assert!(finished(after_info_line(listing, None)).is_none());
    assert!(finished(after_info_line(listing, Some("Line 99999999999 of \"x.c\""))).is_none());
    assert!(finished(after_info_line("no numbers\n", Some(plain))).is_none());
}

#[test]
fn source_probe_through_info_source() {
    let listing = "10\ta;\n11\tb;\n";
    assert_eq!(query(after_info_line(listing, Some("No line number information available.\n"))), "info source");
    let info = after_info_source(listing, Some("Current source file is /src/x.c Compilation dir")).unwrap();
    assert_eq!(
        (info.file_path.as_str(), info.line_start, info.line_end, info.current_line),
        ("/src/x.c", 10, 11, 0)
    );
    assert!(after_info_source(listing, Some("Current source file is x.c\nmore")).is_none());
    assert!(after_info_source(listing, None).is_none());
}

#[test]
fn listing_json_objects() {
    let info = SourceInfo { file_path: "/src/m.c".into(), line_start: 3, line_end: 12, current_line: 4 };
    // serde_json orders the keys of an object.
    let expected = [
        "{\"currentLine\":4,\"filePath\":\"/src/m.c\",\"lineEnd\":12,\"lineStart\":3,",
        "\"type\":\"source_location\",\"vscodeUri\":\"vscode://file/src/m.c:3\"}"
    ]
    .concat();
    assert_eq!(source_location_json(&info), expected);
}

#[test]
fn sessions_are_listed_once_each() {
    let mut reg: SessionRegistry<u8> = SessionRegistry::new();
    for (id, wd) in [("1", Some("/a")), ("2", None), ("3", None)] {
        let mut st = SessionState::new(id.to_string(), wd.map(|w| w.to_string()));
        let _ = st.finish_startup(Ok("(gdb)\n".to_string()));
        reg.register(st, 0).unwrap();
    }
    reg.load_program(&"1".to_string(), "p").unwrap();
    reg.load_program(&"3".to_string(), "q").unwrap();
    let infos = describe_sessions(&reg, &vec![false, false, true], Some("/cwd"));
    let rows: Vec<(String, String, String)> =
        infos.iter().map(|i| (i.id.clone(), i.target.clone(), i.working_dir.clone())).collect();
    assert_eq!(
        rows,
        vec![
            ("1".to_string(), "/a/p".to_string(), "/a".to_string()),
            ("2".to_string(), "No program loaded".to_string(), "/cwd".to_string()),
            ("3".to_string(), "No program loaded".to_string(), "/cwd".to_string()),
        ]
    );
    let json = sessions_json(&infos);
    let expected = [
        "[\n",
        "  {\n    \"id\": \"1\",\n    \"target\": \"/a/p\",\n    \"working_dir\": \"/a\"\n  },\n",
        "  {\n    \"id\": \"2\",\n    \"target\": \"No program loaded\",\n    \"working_dir\": \"/cwd\"\n  },\n",
        "  {\n    \"id\": \"3\",\n    \"target\": \"No program loaded\",\n    \"working_dir\": \"/cwd\"\n  }\n",
        "]",
    ]
    .concat();
    assert_eq!(json, expected);
    assert_eq!(sessions_json(&Vec::new()), "[]");
    assert_eq!(
        list_sessions_message(infos.len(), &json),
        format!("Active GDB Sessions (3):\n\n{}", expected)
    );
}
