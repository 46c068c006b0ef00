//! The state of a GDB session apart from the process itself: whether GDB has
//! shown its prompt, the loaded program, the working directory; the reading of
//! a reply line by line; the failures of the process; and the table of open
//! sessions.
use vstd::prelude::*;

use crate::error::GdbError;
use crate::path::{normalize_path, normalized_path};
use crate::text::{chars_of, contains, contains_text, occurs_at, push_str};

verus! {

/// The view of an optional string.
pub open spec fn opt_view(o: Option<String>) -> Option<Seq<char>> {
    match o {
        Some(s) => Some(s@),
        None => None,
    }
}

// ---------------------------------------------------------------------------
// One session
// ---------------------------------------------------------------------------

/// What is known of one GDB session besides its process.
#[derive(Clone)]
pub struct SessionState {
    /// The id under which the session is registered.
    pub id: String,
    /// Whether GDB has shown its prompt.
    pub ready: bool,
    /// The program loaded last, by its normalized path.
    pub target: Option<String>,
    /// The directory that relative program paths are taken from.
    pub working_dir: Option<String>,
}

impl SessionState {
    /// A session that has just been started: not ready, with no program.
    pub fn new(id: String, working_dir: Option<String>) -> (s: SessionState)
        ensures
            s.id == id,
            !s.ready,
            s.target is None,
            s.working_dir == working_dir,
    {
        SessionState { id, ready: false, target: None, working_dir }
    }

    /// Takes note of how waiting for the prompt ended: the session is ready
    /// from the first time the prompt was seen.  The outcome is handed back.
    pub fn finish_startup(&mut self, outcome: Result<String, GdbError>) -> (r: Result<
        String,
        GdbError,
    >)
        ensures
            r == outcome,
            final(self).ready == (old(self).ready || outcome is Ok),
            final(self).id == old(self).id,
            final(self).target == old(self).target,
            final(self).working_dir == old(self).working_dir,
    {
        if outcome.is_ok() {
            self.ready = true;
        }
        outcome
    }

    /// The first step of sending `command`: write it, when GDB has shown its
    /// prompt; otherwise first wait for the prompt.
    pub fn begin_command(&self, command: &str) -> (step: CommandStep)
        ensures
            self.ready ==> (step matches CommandStep::Write(line) && line@ == command_line_of(
                command@,
            )),
            !self.ready ==> step matches CommandStep::AwaitPrompt,
    {
        if self.ready {
            CommandStep::Write(command_line(command))
        } else {
            CommandStep::AwaitPrompt
        }
    }

    /// The step after waiting for the prompt before `command`, given how the
    /// wait ended (what was read is dropped): the session is ready once the
    /// prompt was seen, and then the command is written; otherwise the
    /// command fails because the session is not ready.
    pub fn after_prompt_wait(&mut self, outcome: Result<String, GdbError>, command: &str) -> (step:
        CommandStep)
        ensures
            final(self).ready == (old(self).ready || outcome is Ok),
            final(self).id == old(self).id,
            final(self).target == old(self).target,
            final(self).working_dir == old(self).working_dir,
            final(self).ready ==> (step matches CommandStep::Write(line) && line@
                == command_line_of(command@)),
            !final(self).ready ==> (step matches CommandStep::Fail(e) && e == GdbError::GdbNotReady),
    {
        if outcome.is_ok() {
            self.ready = true;
        }
        if self.ready {
            CommandStep::Write(command_line(command))
        } else {
            CommandStep::Fail(GdbError::GdbNotReady)
        }
    }

    /// Records `program` as the session's target, by its path normalized
    /// against the working directory, and returns that path.
    pub fn load_program(&mut self, program: &str) -> (p: String)
        ensures
            p@ == normalized_path(program@, opt_view(old(self).working_dir)),
            opt_view(final(self).target) == Some(p@),
            final(self).id == old(self).id,
            final(self).ready == old(self).ready,
            final(self).working_dir == old(self).working_dir,
    {
        let p = match &self.working_dir {
            Some(wd) => normalize_path(program, Some(wd.as_str())),
            None => normalize_path(program, None),
        };
        self.target = Some(p.clone());
        p
    }

    /// The command that ends the session politely: `quit`, when GDB is ready
    /// to read it.
    pub fn quit_command(&self) -> (c: Option<String>)
        ensures
            self.ready ==> opt_view(c) == Some("quit"@),
            !self.ready ==> c is None,
    {
        if self.ready {
            let mut c = String::new();
            push_str(&mut c, "quit");
            Some(c)
        } else {
            None
        }
    }
}

/// The text written to GDB to run `command`: the command and a line feed.
pub open spec fn command_line_of(command: Seq<char>) -> Seq<char> {
    command + "\n"@
}

/// The text written to GDB to run `command`.
pub fn command_line(command: &str) -> (s: String)
    ensures
        s@ == command_line_of(command@),
{
    let mut s = String::new();
    push_str(&mut s, command);
    push_str(&mut s, "\n");
    s
}

/// What to do to send a command.
pub enum CommandStep {
    /// GDB has not shown its prompt: wait for it, as at startup, first.
    AwaitPrompt,
    /// Write this text to GDB, then read its reply.
    Write(String),
    /// Give up with this error.
    Fail(GdbError),
}

// ---------------------------------------------------------------------------
// Failures of the process
// ---------------------------------------------------------------------------

/// The steps at which talking to the GDB process can fail.
pub enum ProcessStep {
    /// Starting the process.
    Spawn,
    /// Taking hold of its standard input.
    OpenStdin,
    /// Taking hold of its standard output.
    OpenStdout,
    /// Writing a command.
    Write,
    /// Flushing a command.
    Flush,
}

/// How a failure at `step` is described, given the system's own description.
pub open spec fn process_failure_text(step: ProcessStep, detail: Seq<char>) -> Seq<char> {
    match step {
        ProcessStep::Spawn => "Failed to spawn GDB: "@ + detail,
        ProcessStep::OpenStdin => "Failed to open GDB stdin"@,
        ProcessStep::OpenStdout => "Failed to open GDB stdout"@,
        ProcessStep::Write => "Failed to write to GDB: "@ + detail,
        ProcessStep::Flush => "Failed to flush GDB stdin: "@ + detail,
    }
}

/// The error for a failure at `step`.
pub fn process_failure(step: ProcessStep, detail: &str) -> (e: GdbError)
    ensures
        e matches GdbError::GdbProcessError(m) && m@ == process_failure_text(step, detail@),
{
    let mut m = String::new();
    match step {
        ProcessStep::Spawn => {
            push_str(&mut m, "Failed to spawn GDB: ");
            push_str(&mut m, detail);
        },
        ProcessStep::OpenStdin => push_str(&mut m, "Failed to open GDB stdin"),
        ProcessStep::OpenStdout => push_str(&mut m, "Failed to open GDB stdout"),
        ProcessStep::Write => {
            push_str(&mut m, "Failed to write to GDB: ");
            push_str(&mut m, detail);
        },
        ProcessStep::Flush => {
            push_str(&mut m, "Failed to flush GDB stdin: ");
            push_str(&mut m, detail);
        },
    }
    GdbError::GdbProcessError(m)
}

// ---------------------------------------------------------------------------
// Reading a reply
// ---------------------------------------------------------------------------

/// What is being waited for.
pub enum ReplyKind {
    /// The prompt that GDB prints once it has started.
    Startup,
    /// The answer to a command.
    Command,
}

/// Whether `line` ends what is waited for: the prompt `(gdb)` or `^done`,
/// and for a command also `^error`.
pub open spec fn ends_reply(kind: ReplyKind, line: Seq<char>) -> bool {
    ||| contains_text(line, "(gdb)"@)
    ||| contains_text(line, "^done"@)
    ||| (kind == ReplyKind::Command && contains_text(line, "^error"@))
}

/// The prompt `(gdb)` and `^done` end a reply of either kind wherever they
/// stand in a line, and `^error` ends the answer to a command; a line with
/// neither `(` nor `^` in it ends no reply.
pub proof fn law_reply_markers(kind: ReplyKind, before: Seq<char>, after: Seq<char>, plain: Seq<char>)
    ensures
        ends_reply(kind, before + "(gdb)"@ + after),
        ends_reply(kind, before + "^done"@ + after),
        ends_reply(ReplyKind::Command, before + "^error"@ + after),
        (forall|i: int| 0 <= i < plain.len() ==> plain[i] != '(' && plain[i] != '^')
            ==> !ends_reply(kind, plain),
{
    let k = before.len() as int;
    let prompt = "(gdb)"@;
    let done = "^done"@;
    let failed = "^error"@;
    let a = before + prompt + after;
    let b = before + done + after;
    let c = before + failed + after;
    assert(a.subrange(k, k + prompt.len()) =~= prompt);
    assert(occurs_at(a, k, prompt));
    assert(b.subrange(k, k + done.len()) =~= done);
    assert(occurs_at(b, k, done));
    assert(c.subrange(k, k + failed.len()) =~= failed);
    assert(occurs_at(c, k, failed));
    if forall|i: int| 0 <= i < plain.len() ==> plain[i] != '(' && plain[i] != '^' {
        reveal_strlit("(gdb)");
        reveal_strlit("^done");
        reveal_strlit("^error");
        assert forall|i: int| !occurs_at(plain, i, prompt) && !occurs_at(plain, i, done)
            && !occurs_at(plain, i, failed) by {
            if occurs_at(plain, i, prompt) {
                assert(plain.subrange(i, i + prompt.len())[0] == plain[i]);
            }
            if occurs_at(plain, i, done) {
                assert(plain.subrange(i, i + done.len())[0] == plain[i]);
            }
            if occurs_at(plain, i, failed) {
                assert(plain.subrange(i, i + failed.len())[0] == plain[i]);
            }
        }
    }
}

/// The lines one after the other.
pub open spec fn joined_lines(lines: Seq<Seq<char>>) -> Seq<char>
    decreases lines.len(),
{
    if lines.len() == 0 {
        Seq::empty()
    } else {
        joined_lines(lines.drop_last()) + lines.last()
    }
}

/// What happened when a line was read from GDB.
pub enum ReadEvent {
    /// A line, with its line feed.
    Line(String),
    /// The output of GDB came to an end.
    Closed,
    /// Reading failed; the text says how.
    ReadFailed(String),
    /// The time allowed for the reply ran out.
    TimedOut,
}

/// The reply read so far.
pub struct ReplyCollector {
    kind: ReplyKind,
    output: String,
    lines: Ghost<Seq<Seq<char>>>,
}

impl ReplyCollector {
    /// The lines read so far, none of which ended the reply.
    pub closed spec fn lines_read(&self) -> Seq<Seq<char>> {
        self.lines@
    }

    /// What is being waited for.
    pub closed spec fn kind(&self) -> ReplyKind {
        self.kind
    }

    #[verifier::type_invariant]
    spec fn well_formed(&self) -> bool {
        &&& self.output@ == joined_lines(self.lines@)
        &&& forall|i: int| 0 <= i < self.lines@.len() ==> !ends_reply(self.kind, #[trigger] self.lines@[i])
    }

    /// Starts waiting for a reply of the given kind.
    pub fn new(kind: ReplyKind) -> (c: ReplyCollector)
        ensures
            c.kind() == kind,
            c.lines_read() == Seq::<Seq<char>>::empty(),
    {
        ReplyCollector { kind, output: String::new(), lines: Ghost(Seq::empty()) }
    }

    /// Takes in what happened at the last read.  `None` means: read on.
    /// Otherwise the reply is complete, or failed, and the collector starts
    /// afresh.  A complete reply is every line read, up to and including the
    /// first one that ends it.
    pub fn feed(&mut self, event: ReadEvent) -> (r: Option<Result<String, GdbError>>)
        ensures
            final(self).kind() == old(self).kind(),
            r is Some ==> final(self).lines_read() == Seq::<Seq<char>>::empty(),
            match event {
                ReadEvent::Line(l) => if ends_reply(old(self).kind(), l@) {
                    r matches Some(Ok(out)) && out@ == joined_lines(
                        old(self).lines_read().push(l@),
                    )
                } else {
                    r is None && final(self).lines_read() == old(self).lines_read().push(l@)
                },
                ReadEvent::Closed => r matches Some(Err(GdbError::GdbProcessError(m))) && m@
                    == "GDB process closed unexpectedly"@,
                ReadEvent::ReadFailed(d) => r matches Some(Err(GdbError::GdbProcessError(m)))
                    && m@ == "Failed to read GDB output: "@ + d@,
                ReadEvent::TimedOut => r matches Some(Err(GdbError::GdbTimeout)),
            },
            match event {
                ReadEvent::Line(l) => (contains_text(l@, "(gdb)"@) || contains_text(l@, "^done"@))
                    ==> (r matches Some(Ok(out)) && out@ == joined_lines(
                    old(self).lines_read().push(l@),
                )),
                _ => true,
            },
    {
        proof {
            use_type_invariant(&*self);
        }
        let kind = match self.kind {
            ReplyKind::Command => ReplyKind::Command,
            ReplyKind::Startup => ReplyKind::Startup,
        };
        match event {
            ReadEvent::Line(l) => {
                let line = chars_of(l.as_str());
                let prompt = chars_of("(gdb)");
                let done = chars_of("^done");
                let failed = chars_of("^error");
                let is_command = match kind {
                    ReplyKind::Command => true,
                    ReplyKind::Startup => false,
                };
                let ends = contains(&line, &prompt) || contains(&line, &done) || (is_command
                    && contains(&line, &failed));
                let ghost pushed = self.lines@.push(l@);
                assert(pushed.drop_last() =~= self.lines@);
                let mut output = String::new();
                push_str(&mut output, self.output.as_str());
                push_str(&mut output, l.as_str());
                if ends {
                    *self = ReplyCollector { kind, output: String::new(), lines: Ghost(Seq::empty()) };
                    Some(Ok(output))
                } else {
                    assert forall|i: int| 0 <= i < pushed.len() implies !ends_reply(
                        kind,
                        #[trigger] pushed[i],
                    ) by {
                        if i < pushed.len() - 1 {
                            assert(pushed[i] == old(self).lines@[i]);
                        }
                    }
                    *self = ReplyCollector { kind, output, lines: Ghost(pushed) };
                    None
                }
            },
            ReadEvent::Closed => {
                *self = ReplyCollector { kind, output: String::new(), lines: Ghost(Seq::empty()) };
                let mut m = String::new();
                push_str(&mut m, "GDB process closed unexpectedly");
                Some(Err(GdbError::GdbProcessError(m)))
            },
            ReadEvent::ReadFailed(d) => {
                *self = ReplyCollector { kind, output: String::new(), lines: Ghost(Seq::empty()) };
                let mut m = String::new();
                push_str(&mut m, "Failed to read GDB output: ");
                push_str(&mut m, d.as_str());
                Some(Err(GdbError::GdbProcessError(m)))
            },
            ReadEvent::TimedOut => {
                *self = ReplyCollector { kind, output: String::new(), lines: Ghost(Seq::empty()) };
                Some(Err(GdbError::GdbTimeout))
            },
        }
    }
}

} // verus!
