use embedded_gdb_mcp::session::{command_line, process_failure, CommandStep, ProcessStep};
use embedded_gdb_mcp::{GdbError, ReadEvent, ReplyCollector, ReplyKind, SessionRegistry, SessionState};

fn message(r: Option<Result<String, GdbError>>) -> Option<Result<String, String>> {
    r.map(|r| r.map_err(|e| e.to_message()))
}

fn ready(id: &str, working_dir: Option<&str>) -> SessionState {
    let mut s = SessionState::new(id.to_string(), working_dir.map(|w| w.to_string()));
    let _ = s.finish_startup(Ok("(gdb)\n".to_string()));
    s
}

#[test]
fn registry_finds_what_was_registered() {
    let mut reg: SessionRegistry<u32> = SessionRegistry::new();
    assert!(reg.register(ready("100", None), 1).is_ok());
    assert!(reg.register(ready("200", None), 2).is_ok());
    assert_eq!(reg.len(), 2);
    let (st, h) = reg.get(&"100".to_string()).unwrap();
    assert_eq!((st.id.as_str(), st.ready, *h), ("100", true, 1));
    assert!(reg.get(&"300".to_string()).is_none());
    assert!(reg.register(ready("100", Some("/w")), 3).is_ok());
    assert_eq!(reg.len(), 2);
    let (st, h) = reg.get(&"100".to_string()).unwrap();
    assert_eq!((st.working_dir.as_deref(), *h), (Some("/w"), 3));
    let (st, v) = reg.entry(0);
    assert_eq!((st.id.as_str(), *v), ("100", 3));
    let (st, v) = reg.entry(1);
    assert_eq!((st.id.as_str(), *v), ("200", 2));
}

#[test]
fn registry_refuses_sessions_that_are_not_ready() {
    let mut reg: SessionRegistry<u32> = SessionRegistry::new();
    let r = reg.register(SessionState::new("1".to_string(), None), 1);
    assert_eq!(r.err().map(|e| e.to_message()), Some("GDB session is not ready".to_string()));
    assert_eq!(reg.len(), 0);
}

#[test]
fn registry_forgets_what_was_removed() {
    let mut reg: SessionRegistry<&str> = SessionRegistry::new();
    reg.register(ready("a", None), "first").unwrap();
    reg.register(ready("b", None), "second").unwrap();
    let (st, h) = reg.remove(&"a".to_string()).unwrap();
    assert_eq!((st.id.as_str(), h), ("a", "first"));
    assert!(reg.remove(&"a".to_string()).is_none());
    assert_eq!(reg.get(&"b".to_string()).map(|(_, h)| *h), Some("second"));
    match reg.lookup(&"a".to_string()) {
        Err(e) => assert_eq!(e.to_message(), "No active GDB session with ID: a"),
        Ok(_) => panic!("removed session still found"),
    }
    assert_eq!(reg.len(), 1);
}

#[test]
fn registry_records_loaded_programs() {
    let mut reg: SessionRegistry<u8> = SessionRegistry::new();
    reg.register(ready("s", Some("/w")), 0).unwrap();
    assert_eq!(reg.load_program(&"s".to_string(), "a.out").ok().as_deref(), Some("/w/a.out"));
    let (st, _) = reg.get(&"s".to_string()).unwrap();
    assert_eq!((st.target.as_deref(), st.ready, st.id.as_str()), (Some("/w/a.out"), true, "s"));
    let missing = reg.load_program(&"t".to_string(), "a.out");
    assert_eq!(missing.err().map(|e| e.to_message()), Some("No active GDB session with ID: t".to_string()));
}

#[test]
fn startup_reply_ends_at_prompt() {
    let mut c = ReplyCollector::new(ReplyKind::Startup);
    assert!(c.feed(ReadEvent::Line("=thread-group-added,id=\"i1\"\n".to_string())).is_none());
    assert!(c.feed(ReadEvent::Line("^error,msg=\"x\"\n".to_string())).is_none());
    let r = c.feed(ReadEvent::Line("(gdb) \n".to_string()));
    assert_eq!(
        message(r),
        Some(Ok("=thread-group-added,id=\"i1\"\n^error,msg=\"x\"\n(gdb) \n".to_string()))
    );
}

#[test]
fn command_reply_ends_at_done_or_error() {
    let mut c = ReplyCollector::new(ReplyKind::Command);
    assert!(c.feed(ReadEvent::Line("&\"bad\\n\"\n".to_string())).is_none());
    let r = c.feed(ReadEvent::Line("^error,msg=\"No symbol\"\n".to_string()));
    assert_eq!(message(r), Some(Ok("&\"bad\\n\"\n^error,msg=\"No symbol\"\n".to_string())));
    let r = c.feed(ReadEvent::Line("^done\n".to_string()));
    assert_eq!(message(r), Some(Ok("^done\n".to_string())));
}

#[test]
fn reply_failures() {
    let mut c = ReplyCollector::new(ReplyKind::Command);
    assert_eq!(
        message(c.feed(ReadEvent::Closed)),
        Some(Err("GDB process error: GDB process closed unexpectedly".to_string()))
    );
    assert_eq!(
        message(c.feed(ReadEvent::ReadFailed("bad fd".to_string()))),
        Some(Err("GDB process error: Failed to read GDB output: bad fd".to_string()))
    );
    assert_eq!(
        message(c.feed(ReadEvent::TimedOut)),
        Some(Err("GDB command timed out".to_string()))
    );
}

#[test]
fn session_becomes_ready_once() {
    let mut s = SessionState::new("1".to_string(), Some("/w".to_string()));
    assert!(!s.ready);
    assert!(s.quit_command().is_none());
    let r = s.finish_startup(Err(GdbError::GdbTimeout));
    assert!(r.is_err() && !s.ready);
    let r = s.finish_startup(Ok("(gdb)\n".to_string()));
    assert_eq!(r.ok().as_deref(), Some("(gdb)\n"));
    assert!(s.ready);
    let _ = s.finish_startup(Err(GdbError::GdbTimeout));
    assert!(s.ready);
    assert_eq!(s.quit_command().as_deref(), Some("quit"));
}

#[test]
fn loading_records_normalized_target() {
    let mut s = SessionState::new("1".to_string(), Some("/w".to_string()));
    assert_eq!(s.load_program("a.out"), "/w/a.out");
    assert_eq!(s.target.as_deref(), Some("/w/a.out"));
    let mut t = SessionState::new("2".to_string(), None);
    assert_eq!(t.load_program("a.out"), "a.out");
    assert_eq!(t.target.as_deref(), Some("a.out"));
}

#[test]
fn process_failures_and_command_lines() {
    let text = |step, d| process_failure(step, d).to_message();
    assert_eq!(text(ProcessStep::Spawn, "not found"), "GDB process error: Failed to spawn GDB: not found");
    assert_eq!(text(ProcessStep::OpenStdin, ""), "GDB process error: Failed to open GDB stdin");
    assert_eq!(text(ProcessStep::OpenStdout, ""), "GDB process error: Failed to open GDB stdout");
    assert_eq!(text(ProcessStep::Write, "pipe"), "GDB process error: Failed to write to GDB: pipe");
    assert_eq!(text(ProcessStep::Flush, "pipe"), "GDB process error: Failed to flush GDB stdin: pipe");
    assert_eq!(command_line("info registers"), "info registers\n");
}

fn describe(step: CommandStep) -> String {
    match step {
        CommandStep::AwaitPrompt => "await".to_string(),
        CommandStep::Write(line) => format!("write {line:?}"),
        CommandStep::Fail(e) => format!("fail {}", e.to_message()),
    }
}

#[test]
fn commands_wait_for_the_prompt_first() {
    let mut s = SessionState::new("1".to_string(), None);
    assert_eq!(describe(s.begin_command("next")), "await");
    let step = s.after_prompt_wait(Err(GdbError::GdbTimeout), "next");
    assert_eq!(describe(step), "fail GDB session is not ready");
    assert!(!s.ready);
    let step = s.after_prompt_wait(Ok("(gdb)\n".to_string()), "next");
    assert_eq!(describe(step), "write \"next\\n\"");
    assert!(s.ready);
    assert_eq!(describe(s.begin_command("finish")), "write \"finish\\n\"");
}
