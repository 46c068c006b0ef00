//! The debugging tools: the arguments each one takes, the GDB commands it
//! sends, and the text it answers with.
use vstd::prelude::*;

use crate::error::{error_message, GdbError};
use crate::pattern::{
    breakpoint_number_of, find_breakpoint_number, find_info_line_location,
    find_info_source_file, info_line_location_of, info_source_file_of, listed_line_numbers,
    listed_line_numbers_of, listing_is_blank,
};
use crate::json::{
    compact_json_object, json_array_text, json_object_text, number_fields_view, pretty_json_array,
    rows_view, text_fields_view,
};
use crate::registry::SessionRegistry;
use crate::session::{opt_view, SessionState};
use crate::text::{decimal, is_blank, parse_u32_digits, parsed_u32, push_decimal, push_str, chars_of};

verus! {

// ---------------------------------------------------------------------------
// Defaults of the arguments
// ---------------------------------------------------------------------------

/// GDB is looked up as `gdb` unless a path is given.
pub fn default_gdb_path() -> (s: String)
    ensures
        s@ == "gdb"@,
{
    let mut s = String::new();
    push_str(&mut s, "gdb");
    s
}

/// Memory is shown in hexadecimal unless a format is given.
pub fn default_examine_format() -> (s: String)
    ensures
        s@ == "x"@,
{
    let mut s = String::new();
    push_str(&mut s, "x");
    s
}

/// One unit of memory is shown unless a count is given.
pub fn default_examine_count() -> (n: u32)
    ensures
        n == 1,
{
    1
}

/// Ten lines of source are asked for unless a count is given.
pub fn default_line_count() -> (n: u32)
    ensures
        n == 10,
{
    10
}

// ---------------------------------------------------------------------------
// Shared pieces
// ---------------------------------------------------------------------------

/// The views of a vector of strings.
pub open spec fn strings_view(v: Seq<String>) -> Seq<Seq<char>> {
    v.map_values(|s: String| s@)
}

/// The parts one after the other, `sep` between each two.
pub open spec fn joined_with(parts: Seq<Seq<char>>, sep: Seq<char>) -> Seq<char>
    decreases parts.len(),
{
    if parts.len() == 0 {
        Seq::empty()
    } else if parts.len() == 1 {
        parts[0]
    } else {
        joined_with(parts.drop_last(), sep) + sep + parts.last()
    }
}

/// Appends `parts`, `sep` between each two, to `s`.
fn push_joined(s: &mut String, parts: &Vec<String>, sep: &str)
    ensures
        final(s)@ == old(s)@ + joined_with(strings_view(parts@), sep@),
{
    let ghost start = s@;
    let ghost views = strings_view(parts@);
    let mut i: usize = 0;
    while i < parts.len()
        invariant
            i <= parts@.len(),
            views == strings_view(parts@),
            s@ == start + joined_with(views.take(i as int), sep@),
        decreases parts@.len() - i,
    {
        assert(views.take(i + 1).drop_last() =~= views.take(i as int));
        assert(views.take(i + 1).last() == parts@[i as int]@);
        if i != 0 {
            push_str(s, sep);
        } else {
            assert(views.take(1) =~= seq![parts@[0]@]);
        }
        push_str(s, parts[i].as_str());
        i = i + 1;
    }
    assert(views.take(parts@.len() as int) =~= views);
}

/// The text `"{title}\n\nOutput:\n{output}"` that most tools answer with.
pub open spec fn titled_output(title: Seq<char>, output: Seq<char>) -> Seq<char> {
    title + "\n\nOutput:\n"@ + output
}

fn titled(title: String, output: &str) -> (s: String)
    ensures
        s@ == titled_output(title@, output@),
{
    let mut s = title;
    push_str(&mut s, "\n\nOutput:\n");
    push_str(&mut s, output);
    s
}

/// A fixed command.
fn literal(t: &str) -> (s: String)
    ensures
        s@ == t@,
{
    let mut s = String::new();
    push_str(&mut s, t);
    s
}

/// The command that loads the executable at `path`: `file "PATH"`.
pub fn file_command(path: &str) -> (s: String)
    ensures
        s@ == "file \""@ + path@ + "\""@,
{
    let mut s = String::new();
    push_str(&mut s, "file \"");
    push_str(&mut s, path);
    push_str(&mut s, "\"");
    s
}

// ---------------------------------------------------------------------------
// gdb_start
// ---------------------------------------------------------------------------

/// Arguments of `gdb_start`.
pub struct GdbStartArgs {
    /// Path to the GDB executable.
    pub gdb_path: String,
    /// Working directory for GDB.
    pub working_dir: Option<String>,
}

/// The answer to a started session.
pub fn start_message(session_id: &str, startup_output: &str) -> (s: String)
    ensures
        s@ == "GDB session started with ID: "@ + session_id@ + "\n\nOutput:\n"@ + startup_output@,
{
    let mut s = String::new();
    push_str(&mut s, "GDB session started with ID: ");
    push_str(&mut s, session_id);
    push_str(&mut s, "\n\nOutput:\n");
    push_str(&mut s, startup_output);
    s
}

/// The answer when GDB could not be started.
pub fn start_failure_message(e: &GdbError) -> (s: String)
    ensures
        s@ == "Failed to start GDB: "@ + error_message(*e),
{
    let mut s = String::new();
    push_str(&mut s, "Failed to start GDB: ");
    let m = e.to_message();
    push_str(&mut s, m.as_str());
    s
}

// ---------------------------------------------------------------------------
// gdb_load
// ---------------------------------------------------------------------------

/// Arguments of `gdb_load`.
pub struct GdbLoadArgs {
    /// GDB session ID.
    pub session_id: String,
    /// Path to the program to debug.
    pub program: String,
    /// Command-line arguments for the program.
    pub arguments: Option<Vec<String>>,
}

impl GdbLoadArgs {
    /// The command that sets the program's arguments, when there are any:
    /// `set args` and the arguments, separated by spaces.
    pub fn set_args_command(&self) -> (c: Option<String>)
        ensures
            match self.arguments {
                Some(v) => if v@.len() > 0 {
                    opt_view(c) == Some(
                        "set args "@ + joined_with(strings_view(v@), " "@),
                    )
                } else {
                    c is None
                },
                None => c is None,
            },
    {
        match &self.arguments {
            Some(v) => {
                if v.len() > 0 {
                    let mut s = String::new();
                    push_str(&mut s, "set args ");
                    push_joined(&mut s, v, " ");
                    Some(s)
                } else {
                    None
                }
            },
            None => None,
        }
    }
}

/// The answer to a loaded program; the output of `set args` follows on a line
/// of its own when there is any.
pub fn load_message(path: &str, load_output: &str, args_output: &str) -> (s: String)
    ensures
        s@ == "Program loaded: "@ + path@ + "\n\nOutput:\n"@ + load_output@ + (if args_output@.len()
            == 0 {
            Seq::<char>::empty()
        } else {
            "\n"@ + args_output@
        }),
{
    let mut s = String::new();
    push_str(&mut s, "Program loaded: ");
    push_str(&mut s, path);
    push_str(&mut s, "\n\nOutput:\n");
    push_str(&mut s, load_output);
    if !args_output.is_empty() {
        push_str(&mut s, "\n");
        push_str(&mut s, args_output);
    } else {
        assert(s@ + Seq::<char>::empty() == s@);
    }
    s
}

// ---------------------------------------------------------------------------
// gdb_command
// ---------------------------------------------------------------------------

/// Arguments of `gdb_command`.
pub struct GdbCommandArgs {
    /// GDB session ID.
    pub session_id: String,
    /// GDB command to execute.
    pub command: String,
}

impl GdbCommandArgs {
    /// The answer: the command and what GDB said.
    pub fn message(&self, output: &str) -> (s: String)
        ensures
            s@ == titled_output("Command: "@ + self.command@, output@),
    {
        let mut t = String::new();
        push_str(&mut t, "Command: ");
        push_str(&mut t, self.command.as_str());
        titled(t, output)
    }
}

// ---------------------------------------------------------------------------
// gdb_terminate
// ---------------------------------------------------------------------------

/// Arguments of `gdb_terminate`.
pub struct GdbTerminateArgs {
    /// GDB session ID.
    pub session_id: String,
}

impl GdbTerminateArgs {
    /// The answer once the session is gone.
    pub fn message(&self) -> (s: String)
        ensures
            s@ == "GDB session terminated: "@ + self.session_id@,
    {
        let mut s = String::new();
        push_str(&mut s, "GDB session terminated: ");
        push_str(&mut s, self.session_id.as_str());
        s
    }
}

// ---------------------------------------------------------------------------
// gdb_list_sessions
// ---------------------------------------------------------------------------

/// Arguments of `gdb_list_sessions`: none.
pub struct GdbListSessionsArgs {}

/// How one session is listed.
pub struct SessionInfo {
    pub id: String,
    pub target: String,
    pub working_dir: String,
}

/// The target a session is listed with: its program, or `No program loaded`
/// when it has none or its state is unavailable (`None`, the session being
/// busy).
pub open spec fn listed_target(state: Option<SessionState>) -> Seq<char> {
    match state {
        Some(st) => match st.target {
            Some(t) => t@,
            None => "No program loaded"@,
        },
        None => "No program loaded"@,
    }
}

/// The working directory a session is listed with: its own, else the current
/// directory of the server, else `unknown`.
pub open spec fn listed_working_dir(state: Option<SessionState>, current_dir: Option<Seq<char>>) -> Seq<
    char,
> {
    match (
        match state {
            Some(st) => opt_view(st.working_dir),
            None => None,
        }
    ) {
        Some(w) => w,
        None => match current_dir {
            Some(c) => c,
            None => "unknown"@,
        },
    }
}

pub open spec fn deref_state(state: Option<&SessionState>) -> Option<SessionState> {
    match state {
        Some(st) => Some(*st),
        None => None,
    }
}

pub open spec fn str_view(s: Option<&str>) -> Option<Seq<char>> {
    match s {
        Some(c) => Some(c@),
        None => None,
    }
}

/// How the session `id` is listed, given its state (`None` when the session
/// is busy) and the current directory of the server, if known.
pub fn describe_session(id: &String, state: Option<&SessionState>, current_dir: Option<&str>) -> (info: SessionInfo)
    ensures
        info.id@ == id@,
        info.target@ == listed_target(deref_state(state)),
        info.working_dir@ == listed_working_dir(deref_state(state), str_view(current_dir)),
        match state {
            Some(st) => match st.target {
                Some(t) => info.target@ == t@,
                None => info.target@ == "No program loaded"@,
            },
            None => info.target@ == "No program loaded"@,
        },
{
    let mut target = String::new();
    let mut working_dir = String::new();
    let mut have_dir = false;
    match state {
        Some(st) => {
            match &st.target {
                Some(t) => push_str(&mut target, t.as_str()),
                None => push_str(&mut target, "No program loaded"),
            }
            match &st.working_dir {
                Some(w) => {
                    push_str(&mut working_dir, w.as_str());
                    have_dir = true;
                },
                None => {},
            }
        },
        None => push_str(&mut target, "No program loaded"),
    }
    if !have_dir {
        match current_dir {
            Some(c) => push_str(&mut working_dir, c),
            None => push_str(&mut working_dir, "unknown"),
        }
    }
    SessionInfo { id: id.clone(), target, working_dir }
}

/// The state with which the session at `index` is listed: none when `busy`
/// marks it as busy.
pub open spec fn shown_state<T>(registry: SessionRegistry<T>, busy: Seq<bool>, index: int) -> Option<
    SessionState,
> {
    if index < busy.len() && busy[index] {
        None
    } else {
        Some(registry.view()[registry.ids()[index]].0)
    }
}

/// One description per open session, in the order of registration; a session
/// that `busy` marks is described without its state.
pub fn describe_sessions<T>(registry: &SessionRegistry<T>, busy: &Vec<bool>, current_dir: Option<&str>) -> (infos: Vec<SessionInfo>)
    ensures
        infos@.len() == registry.ids().len(),
        forall|i: int|
            0 <= i < infos@.len() ==> {
                &&& (#[trigger] infos@[i]).id@ == registry.ids()[i]
                &&& infos@[i].target@ == listed_target(shown_state(*registry, busy@, i))
                &&& infos@[i].working_dir@ == listed_working_dir(
                    shown_state(*registry, busy@, i),
                    str_view(current_dir),
                )
            },
{
    let n = registry.len();
    let mut infos: Vec<SessionInfo> = Vec::new();
    let mut i: usize = 0;
    while i < n
        invariant
            n == registry.ids().len(),
            i <= n,
            infos@.len() == i,
            forall|j: int|
                0 <= j < i ==> {
                    &&& (#[trigger] infos@[j]).id@ == registry.ids()[j]
                    &&& infos@[j].target@ == listed_target(shown_state(*registry, busy@, j))
                    &&& infos@[j].working_dir@ == listed_working_dir(
                        shown_state(*registry, busy@, j),
                        str_view(current_dir),
                    )
                },
        decreases n - i,
    {
        let (st, _) = registry.entry(i);
        let shown = if i < busy.len() && busy[i] {
            None
        } else {
            Some(st)
        };
        let info = describe_session(&st.id, shown, current_dir);
        infos.push(info);
        i = i + 1;
    }
    infos
}

/// The fields with which a session is described in JSON.
pub open spec fn info_fields(info: SessionInfo) -> Seq<(Seq<char>, Seq<char>)> {
    seq![("id"@, info.id@), ("target"@, info.target@), ("working_dir"@, info.working_dir@)]
}

/// The sessions as a pretty-printed JSON array of objects with the fields
/// `id`, `target` and `working_dir`; `[]` should writing it fail.
pub fn sessions_json(infos: &Vec<SessionInfo>) -> (s: String)
    ensures
        s@ == (match pretty_json_array(infos@.map_values(|info: SessionInfo| info_fields(info))) {
            Some(t) => t,
            None => "[]"@,
        }),
{
    let ghost want = infos@.map_values(|info: SessionInfo| info_fields(info));
    let mut rows: Vec<Vec<(String, String)>> = Vec::new();
    let mut i: usize = 0;
    while i < infos.len()
        invariant
            i <= infos@.len(),
            want == infos@.map_values(|info: SessionInfo| info_fields(info)),
            rows_view(rows@) == want.take(i as int),
        decreases infos@.len() - i,
    {
        let info = &infos[i];
        let mut row: Vec<(String, String)> = Vec::new();
        row.push((literal("id"), info.id.clone()));
        row.push((literal("target"), info.target.clone()));
        row.push((literal("working_dir"), info.working_dir.clone()));
        assert(text_fields_view(row@) =~= info_fields(*info));
        let ghost before = rows@;
        rows.push(row);
        assert(rows_view(rows@) =~= rows_view(before).push(info_fields(*info)));
        assert(want.take(i + 1) =~= want.take(i as int).push(want[i as int]));
        i = i + 1;
    }
    assert(want.take(infos@.len() as int) =~= want);
    match json_array_text(&rows) {
        Some(text) => text,
        None => literal("[]"),
    }
}

/// The answer listing `count` sessions, given their description in JSON.
pub fn list_sessions_message(count: usize, sessions_json: &str) -> (s: String)
    ensures
        s@ == "Active GDB Sessions ("@ + decimal(count as nat) + "):\n\n"@ + sessions_json@,
{
    let mut s = String::new();
    push_str(&mut s, "Active GDB Sessions (");
    push_decimal(&mut s, count as u64);
    push_str(&mut s, "):\n\n");
    push_str(&mut s, sessions_json);
    s
}

// ---------------------------------------------------------------------------
// gdb_attach
// ---------------------------------------------------------------------------

/// Arguments of `gdb_attach`.
pub struct GdbAttachArgs {
    /// GDB session ID.
    pub session_id: String,
    /// Process ID to attach to.
    pub pid: u32,
}

impl GdbAttachArgs {
    /// `attach PID`.
    pub fn command(&self) -> (s: String)
        ensures
            s@ == "attach "@ + decimal(self.pid as nat),
    {
        let mut s = String::new();
        push_str(&mut s, "attach ");
        push_decimal(&mut s, self.pid as u64);
        s
    }

    /// The answer: the process and what GDB said.
    pub fn message(&self, output: &str) -> (s: String)
        ensures
            s@ == titled_output("Attached to process "@ + decimal(self.pid as nat), output@),
    {
        let mut t = String::new();
        push_str(&mut t, "Attached to process ");
        push_decimal(&mut t, self.pid as u64);
        titled(t, output)
    }
}

// ---------------------------------------------------------------------------
// gdb_load_core
// ---------------------------------------------------------------------------

/// Arguments of `gdb_load_core`.
pub struct GdbLoadCoreArgs {
    /// GDB session ID.
    pub session_id: String,
    /// Path to the program executable.
    pub program: String,
    /// Path to the core dump file.
    pub core_path: String,
}

impl GdbLoadCoreArgs {
    /// The commands, in order: load the executable, load the core dump, and
    /// show the call stack.
    pub fn commands(&self) -> (c: (String, String, String))
        ensures
            c.0@ == "file \""@ + self.program@ + "\""@,
            c.1@ == "core-file \""@ + self.core_path@ + "\""@,
            c.2@ == "backtrace"@,
    {
        let file = file_command(self.program.as_str());
        let mut core = String::new();
        push_str(&mut core, "core-file \"");
        push_str(&mut core, self.core_path.as_str());
        push_str(&mut core, "\"");
        (file, core, literal("backtrace"))
    }

    /// The answer: what each of the three commands printed.
    pub fn message(&self, file_output: &str, core_output: &str, backtrace_output: &str) -> (s: String)
        ensures
            s@ == "Core file loaded: "@ + self.core_path@ + "\n\nOutput:\n"@ + file_output@ + "\n"@
                + core_output@ + "\n\nBacktrace:\n"@ + backtrace_output@,
    {
        let mut s = String::new();
        push_str(&mut s, "Core file loaded: ");
        push_str(&mut s, self.core_path.as_str());
        push_str(&mut s, "\n\nOutput:\n");
        push_str(&mut s, file_output);
        push_str(&mut s, "\n");
        push_str(&mut s, core_output);
        push_str(&mut s, "\n\nBacktrace:\n");
        push_str(&mut s, backtrace_output);
        s
    }
}

// ---------------------------------------------------------------------------
// gdb_set_breakpoint
// ---------------------------------------------------------------------------

/// Arguments of `gdb_set_breakpoint`.
pub struct GdbSetBreakpointArgs {
    /// GDB session ID.
    pub session_id: String,
    /// Breakpoint location (a function name, `file:line`, ...).
    pub location: String,
    /// Breakpoint condition.
    pub condition: Option<String>,
}

impl GdbSetBreakpointArgs {
    /// `break LOCATION`.
    pub fn command(&self) -> (s: String)
        ensures
            s@ == "break "@ + self.location@,
    {
        let mut s = String::new();
        push_str(&mut s, "break ");
        push_str(&mut s, self.location.as_str());
        s
    }

    /// The command that puts the condition on the breakpoint that `break`
    /// reported, `condition N COND`; none when there is no condition or the
    /// output names no breakpoint.
    pub fn condition_command(&self, break_output: &str) -> (c: Option<String>)
        ensures
            match (self.condition, breakpoint_number_of(break_output@)) {
                (Some(cond), Some(n)) => opt_view(c) == Some(
                    "condition "@ + n + " "@ + cond@,
                ),
                _ => c is None,
            },
    {
        match &self.condition {
            Some(cond) => match find_breakpoint_number(break_output) {
                Some(n) => {
                    let mut s = String::new();
                    push_str(&mut s, "condition ");
                    push_str(&mut s, n.as_str());
                    push_str(&mut s, " ");
                    push_str(&mut s, cond.as_str());
                    Some(s)
                },
                None => None,
            },
            None => None,
        }
    }

    /// The answer: where, under which condition, and what GDB said; the
    /// output of `condition` follows on a line of its own when there is any.
    pub fn message(&self, output: &str, condition_output: &str) -> (s: String)
        ensures
            s@ == "Breakpoint set at: "@ + self.location@ + (match self.condition {
                Some(c) => " with condition: "@ + c@,
                None => Seq::<char>::empty(),
            }) + "\n\nOutput:\n"@ + output@ + (if condition_output@.len() == 0 {
                Seq::<char>::empty()
            } else {
                "\n"@ + condition_output@
            }),
    {
        let mut s = String::new();
        push_str(&mut s, "Breakpoint set at: ");
        push_str(&mut s, self.location.as_str());
        match &self.condition {
            Some(c) => {
                push_str(&mut s, " with condition: ");
                push_str(&mut s, c.as_str());
            },
            None => {
                assert(s@ + Seq::<char>::empty() == s@);
            },
        }
        push_str(&mut s, "\n\nOutput:\n");
        push_str(&mut s, output);
        if !condition_output.is_empty() {
            push_str(&mut s, "\n");
            push_str(&mut s, condition_output);
        } else {
            assert(s@ + Seq::<char>::empty() == s@);
        }
        s
    }
}

// ---------------------------------------------------------------------------
// gdb_continue, gdb_finish
// ---------------------------------------------------------------------------

/// Arguments of `gdb_continue`.
pub struct GdbContinueArgs {
    /// GDB session ID.
    pub session_id: String,
}

impl GdbContinueArgs {
    /// `continue`.
    pub fn command(&self) -> (s: String)
        ensures
            s@ == "continue"@,
    {
        literal("continue")
    }

    /// The answer.
    pub fn message(&self, output: &str) -> (s: String)
        ensures
            s@ == titled_output("Continued execution"@, output@),
    {
        titled(literal("Continued execution"), output)
    }
}

/// Arguments of `gdb_finish`.
pub struct GdbFinishArgs {
    /// GDB session ID.
    pub session_id: String,
}

impl GdbFinishArgs {
    /// `finish`.
    pub fn command(&self) -> (s: String)
        ensures
            s@ == "finish"@,
    {
        literal("finish")
    }

    /// The answer.
    pub fn message(&self, output: &str) -> (s: String)
        ensures
            s@ == titled_output("Finished current function"@, output@),
    {
        titled(literal("Finished current function"), output)
    }
}

// ---------------------------------------------------------------------------
// gdb_step, gdb_next
// ---------------------------------------------------------------------------

/// Arguments of `gdb_step`.
pub struct GdbStepArgs {
    /// GDB session ID.
    pub session_id: String,
    /// Step by instructions instead of source lines.
    pub instructions: bool,
}

impl GdbStepArgs {
    /// `stepi` by instructions, `step` by lines.
    pub fn command(&self) -> (s: String)
        ensures
            s@ == (if self.instructions {
                "stepi"@
            } else {
                "step"@
            }),
    {
        if self.instructions {
            literal("stepi")
        } else {
            literal("step")
        }
    }

    /// The answer.
    pub fn message(&self, output: &str) -> (s: String)
        ensures
            s@ == titled_output(
                "Stepped "@ + (if self.instructions {
                    "instruction"@
                } else {
                    "line"@
                }),
                output@,
            ),
    {
        let mut t = String::new();
        push_str(&mut t, "Stepped ");
        if self.instructions {
            push_str(&mut t, "instruction");
        } else {
            push_str(&mut t, "line");
        }
        titled(t, output)
    }
}

/// Arguments of `gdb_next`.
pub struct GdbNextArgs {
    /// GDB session ID.
    pub session_id: String,
    /// Step by instructions instead of source lines.
    pub instructions: bool,
}

impl GdbNextArgs {
    /// `nexti` by instructions, `next` by lines.
    pub fn command(&self) -> (s: String)
        ensures
            s@ == (if self.instructions {
                "nexti"@
            } else {
                "next"@
            }),
    {
        if self.instructions {
            literal("nexti")
        } else {
            literal("next")
        }
    }

    /// The answer.
    pub fn message(&self, output: &str) -> (s: String)
        ensures
            s@ == titled_output(
                "Stepped over "@ + (if self.instructions {
                    "instruction"@
                } else {
                    "function call"@
                }),
                output@,
            ),
    {
        let mut t = String::new();
        push_str(&mut t, "Stepped over ");
        if self.instructions {
            push_str(&mut t, "instruction");
        } else {
            push_str(&mut t, "function call");
        }
        titled(t, output)
    }
}

// ---------------------------------------------------------------------------
// gdb_backtrace
// ---------------------------------------------------------------------------

/// Arguments of `gdb_backtrace`.
pub struct GdbBacktraceArgs {
    /// GDB session ID.
    pub session_id: String,
    /// Show variables in each frame.
    pub full: bool,
    /// Maximum number of frames to show.
    pub limit: Option<u32>,
}

impl GdbBacktraceArgs {
    /// `backtrace`, `full` when asked for, then the limit when there is one.
    pub fn command(&self) -> (s: String)
        ensures
            s@ == (if self.full {
                "backtrace full"@
            } else {
                "backtrace"@
            }) + (match self.limit {
                Some(n) => " "@ + decimal(n as nat),
                None => Seq::<char>::empty(),
            }),
    {
        let mut s = if self.full {
            literal("backtrace full")
        } else {
            literal("backtrace")
        };
        match self.limit {
            Some(n) => {
                push_str(&mut s, " ");
                push_decimal(&mut s, n as u64);
            },
            None => {
                assert(s@ + Seq::<char>::empty() == s@);
            },
        }
        s
    }

    /// The answer.
    pub fn message(&self, output: &str) -> (s: String)
        ensures
            s@ == "Backtrace"@ + (if self.full {
                " (full)"@
            } else {
                Seq::<char>::empty()
            }) + (match self.limit {
                Some(n) => " (limit: "@ + decimal(n as nat) + ")"@,
                None => Seq::<char>::empty(),
            }) + ":\n\n"@ + output@,
    {
        let mut s = literal("Backtrace");
        if self.full {
            push_str(&mut s, " (full)");
        } else {
            assert(s@ + Seq::<char>::empty() == s@);
        }
        match self.limit {
            Some(n) => {
                push_str(&mut s, " (limit: ");
                push_decimal(&mut s, n as u64);
                push_str(&mut s, ")");
            },
            None => {
                assert(s@ + Seq::<char>::empty() == s@);
            },
        }
        push_str(&mut s, ":\n\n");
        push_str(&mut s, output);
        s
    }
}

// ---------------------------------------------------------------------------
// gdb_print, gdb_examine
// ---------------------------------------------------------------------------

/// Arguments of `gdb_print`.
pub struct GdbPrintArgs {
    /// GDB session ID.
    pub session_id: String,
    /// Expression to evaluate.
    pub expression: String,
}

impl GdbPrintArgs {
    /// `print EXPRESSION`.
    pub fn command(&self) -> (s: String)
        ensures
            s@ == "print "@ + self.expression@,
    {
        let mut s = literal("print ");
        push_str(&mut s, self.expression.as_str());
        s
    }

    /// The answer.
    pub fn message(&self, output: &str) -> (s: String)
        ensures
            s@ == "Print "@ + self.expression@ + ":\n\n"@ + output@,
    {
        let mut s = literal("Print ");
        push_str(&mut s, self.expression.as_str());
        push_str(&mut s, ":\n\n");
        push_str(&mut s, output);
        s
    }
}

/// Arguments of `gdb_examine`.
pub struct GdbExamineArgs {
    /// GDB session ID.
    pub session_id: String,
    /// Memory address or expression.
    pub expression: String,
    /// Display format (`x` for hex, `i` for instructions, ...).
    pub format: String,
    /// Number of units to display.
    pub count: u32,
}

impl GdbExamineArgs {
    /// `x/COUNTFORMAT EXPRESSION`.
    pub fn command(&self) -> (s: String)
        ensures
            s@ == "x/"@ + decimal(self.count as nat) + self.format@ + " "@ + self.expression@,
    {
        let mut s = literal("x/");
        push_decimal(&mut s, self.count as u64);
        push_str(&mut s, self.format.as_str());
        push_str(&mut s, " ");
        push_str(&mut s, self.expression.as_str());
        s
    }

    /// The answer.
    pub fn message(&self, output: &str) -> (s: String)
        ensures
            s@ == "Examine "@ + self.expression@ + " (format: "@ + self.format@ + ", count: "@
                + decimal(self.count as nat) + "):\n\n"@ + output@,
    {
        let mut s = literal("Examine ");
        push_str(&mut s, self.expression.as_str());
        push_str(&mut s, " (format: ");
        push_str(&mut s, self.format.as_str());
        push_str(&mut s, ", count: ");
        push_decimal(&mut s, self.count as u64);
        push_str(&mut s, "):\n\n");
        push_str(&mut s, output);
        s
    }
}

// ---------------------------------------------------------------------------
// gdb_info_registers
// ---------------------------------------------------------------------------

/// Arguments of `gdb_info_registers`.
pub struct GdbInfoRegistersArgs {
    /// GDB session ID.
    pub session_id: String,
    /// Specific register to display.
    pub register: Option<String>,
}

impl GdbInfoRegistersArgs {
    /// `info registers`, and the register when one is asked for.
    pub fn command(&self) -> (s: String)
        ensures
            s@ == (match self.register {
                Some(r) => "info registers "@ + r@,
                None => "info registers"@,
            }),
    {
        match &self.register {
            Some(r) => {
                let mut s = literal("info registers ");
                push_str(&mut s, r.as_str());
                s
            },
            None => literal("info registers"),
        }
    }

    /// The answer.
    pub fn message(&self, output: &str) -> (s: String)
        ensures
            s@ == "Register info"@ + (match self.register {
                Some(r) => " for "@ + r@,
                None => Seq::<char>::empty(),
            }) + ":\n\n"@ + output@,
    {
        let mut s = literal("Register info");
        match &self.register {
            Some(r) => {
                push_str(&mut s, " for ");
                push_str(&mut s, r.as_str());
            },
            None => {
                assert(s@ + Seq::<char>::empty() == s@);
            },
        }
        push_str(&mut s, ":\n\n");
        push_str(&mut s, output);
        s
    }
}

// ---------------------------------------------------------------------------
// gdb_list_source
// ---------------------------------------------------------------------------

/// Arguments of `gdb_list_source`.
pub struct GdbListSourceArgs {
    /// GDB session ID.
    pub session_id: String,
    /// Source location (a function name, `file:line`, ...).
    pub location: Option<String>,
    /// Number of lines to show.
    pub line_count: u32,
}

/// Where a listing comes from.
pub struct SourceInfo {
    /// The source file.
    pub file_path: String,
    /// The first line number of the listing.
    pub line_start: u32,
    /// The last line number of the listing.
    pub line_end: u32,
    /// The line that `info line` reports, or 0 when it reports none.
    pub current_line: u32,
}

/// The view of a source location: file, first line, last line, current line.
pub open spec fn source_info_view(info: Option<SourceInfo>) -> Option<(Seq<char>, u32, u32, u32)> {
    match info {
        Some(i) => Some((i.file_path@, i.line_start, i.line_end, i.current_line)),
        None => None,
    }
}

/// Where the listing `list` comes from, given the file and the current line:
/// nothing when it shows no numbered line, otherwise its first and last line
/// numbers.
pub open spec fn source_info_with(list: Seq<char>, file: Seq<char>, current_line: u32) -> Option<
    (Seq<char>, u32, u32, u32),
> {
    let numbers = listed_line_numbers_of(list);
    if numbers.len() == 0 {
        None
    } else {
        Some((file, numbers[0], numbers.last(), current_line))
    }
}

/// What the reply to `info line` settles: `Some(result)` when it reports a
/// location (the result is nothing when its line number does not fit in a
/// `u32`), `None` when `info source` has to be asked.
pub open spec fn info_line_outcome(list: Seq<char>, reply: Seq<char>) -> Option<
    Option<(Seq<char>, u32, u32, u32)>,
> {
    match info_line_location_of(reply) {
        Some((digits, file)) => match parsed_u32(digits) {
            Some(n) => Some(source_info_with(list, file, n)),
            None => Some(None),
        },
        None => None,
    }
}

/// Where the listing comes from, once `info source` has replied (`None` when
/// the command failed).
pub open spec fn info_source_outcome(list: Seq<char>, reply: Option<Seq<char>>) -> Option<
    (Seq<char>, u32, u32, u32),
> {
    match reply {
        Some(out) => match info_source_file_of(out) {
            Some(file) => source_info_with(list, file, 0),
            None => None,
        },
        None => None,
    }
}

/// Where a listing comes from, from the listing and the replies to
/// `info line` and `info source` (`None` for a command that failed or was not
/// sent).
pub open spec fn source_info_of(
    list: Seq<char>,
    info_line: Option<Seq<char>>,
    info_source: Option<Seq<char>>,
) -> Option<(Seq<char>, u32, u32, u32)> {
    if is_blank(list) {
        None
    } else {
        match info_line {
            None => None,
            Some(reply) => match info_line_outcome(list, reply) {
                Some(result) => result,
                None => info_source_outcome(list, info_source),
            },
        }
    }
}

/// The next step in finding where a listing comes from.
pub enum SourceProbe {
    /// Done: the location, if it could be found.
    Finished(Option<SourceInfo>),
    /// Send this command to GDB and pass on its reply.
    Query(String),
}

impl GdbListSourceArgs {
    /// The commands, in order: `set listsize N`, so that a listing shows
    /// `line_count` lines, then `list`, with the location when one is given.
    pub fn commands(&self) -> (c: (String, String))
        ensures
            c.0@ == "set listsize "@ + decimal(self.line_count as nat),
            c.1@ == (match self.location {
                Some(l) => "list "@ + l@,
                None => "list"@,
            }),
    {
        let mut size = literal("set listsize ");
        push_decimal(&mut size, self.line_count as u64);
        let list = match &self.location {
            Some(l) => {
                let mut s = literal("list ");
                push_str(&mut s, l.as_str());
                s
            },
            None => literal("list"),
        };
        (size, list)
    }

    /// The answer: the listing.
    pub fn message(&self, output: &str) -> (s: String)
        ensures
            s@ == "Source code"@ + (match self.location {
                Some(l) => " at "@ + l@,
                None => Seq::<char>::empty(),
            }) + ":\n\n"@ + output@,
    {
        let mut s = literal("Source code");
        match &self.location {
            Some(l) => {
                push_str(&mut s, " at ");
                push_str(&mut s, l.as_str());
            },
            None => {
                assert(s@ + Seq::<char>::empty() == s@);
            },
        }
        push_str(&mut s, ":\n\n");
        push_str(&mut s, output);
        s
    }
}

/// The link that opens a source location in VS Code.
pub fn vscode_uri(info: &SourceInfo) -> (s: String)
    ensures
        s@ == "vscode://file"@ + info.file_path@ + ":"@ + decimal(info.line_start as nat),
{
    let mut s = literal("vscode://file");
    push_str(&mut s, info.file_path.as_str());
    push_str(&mut s, ":");
    push_decimal(&mut s, info.line_start as u64);
    s
}

/// The text fields of a source location in JSON: its kind, the file, and
/// the VS Code link.
pub open spec fn location_text_fields(info: SourceInfo) -> Seq<(Seq<char>, Seq<char>)> {
    seq![
        ("type"@, "source_location"@),
        ("filePath"@, info.file_path@),
        ("vscodeUri"@, "vscode://file"@ + info.file_path@ + ":"@ + decimal(info.line_start as nat)),
    ]
}

/// The number fields of a source location in JSON: first, last and current
/// line.
pub open spec fn location_number_fields(info: SourceInfo) -> Seq<(Seq<char>, u32)> {
    seq![("lineStart"@, info.line_start), ("lineEnd"@, info.line_end), ("currentLine"@, info.current_line)]
}

/// The source location as a compact JSON object; empty should writing it fail.
pub fn source_location_json(info: &SourceInfo) -> (s: String)
    ensures
        s@ == (match compact_json_object(location_text_fields(*info), location_number_fields(*info)) {
            Some(t) => t,
            None => Seq::<char>::empty(),
        }),
{
    let mut texts: Vec<(String, String)> = Vec::new();
    texts.push((literal("type"), literal("source_location")));
    texts.push((literal("filePath"), info.file_path.clone()));
    texts.push((literal("vscodeUri"), vscode_uri(info)));
    let mut numbers: Vec<(String, u32)> = Vec::new();
    numbers.push((literal("lineStart"), info.line_start));
    numbers.push((literal("lineEnd"), info.line_end));
    numbers.push((literal("currentLine"), info.current_line));
    assert(text_fields_view(texts@) =~= location_text_fields(*info));
    assert(number_fields_view(numbers@) =~= location_number_fields(*info));
    match json_object_text(&texts, &numbers) {
        Some(text) => text,
        None => String::new(),
    }
}

fn source_info_from(list_output: &str, file: String, current_line: u32) -> (r: Option<SourceInfo>)
    ensures
        source_info_view(r) == source_info_with(list_output@, file@, current_line),
{
    let numbers = listed_line_numbers(list_output);
    if numbers.len() == 0 {
        None
    } else {
        let first = numbers[0];
        let last = numbers[numbers.len() - 1];
        Some(SourceInfo { file_path: file, line_start: first, line_end: last, current_line })
    }
}

/// The first step: a blank listing comes from nowhere; otherwise ask
/// `info line`.
pub fn begin_source_probe(list_output: &str) -> (p: SourceProbe)
    ensures
        is_blank(list_output@) ==> p matches SourceProbe::Finished(None),
        !is_blank(list_output@) ==> (p matches SourceProbe::Query(c) && c@ == "info line"@),
{
    if listing_is_blank(list_output) {
        SourceProbe::Finished(None)
    } else {
        SourceProbe::Query(literal("info line"))
    }
}

/// The step after `info line` replied (`None`: the command failed): the
/// location, or the question `info source` when the reply names none.
pub fn after_info_line(list_output: &str, reply: Option<&str>) -> (p: SourceProbe)
    ensures
        match reply {
            None => p matches SourceProbe::Finished(None),
            Some(out) => match info_line_outcome(list_output@, out@) {
                Some(result) => (p matches SourceProbe::Finished(info) && source_info_view(info)
                    == result),
                None => (p matches SourceProbe::Query(c) && c@ == "info source"@),
            },
        },
{
    match reply {
        None => SourceProbe::Finished(None),
        Some(out) => match find_info_line_location(out) {
            Some((digits, file)) => {
                let d = chars_of(digits.as_str());
                match parse_u32_digits(&d, 0, d.len()) {
                    Some(n) => {
                        assert(d@.subrange(0, d@.len() as int) == d@);
                        SourceProbe::Finished(source_info_from(list_output, file, n))
                    },
                    None => {
                        assert(d@.subrange(0, d@.len() as int) == d@);
                        SourceProbe::Finished(None)
                    },
                }
            },
            None => SourceProbe::Query(literal("info source")),
        },
    }
}

/// The last step, after `info source` replied (`None`: the command failed).
pub fn after_info_source(list_output: &str, reply: Option<&str>) -> (r: Option<SourceInfo>)
    ensures
        source_info_view(r) == info_source_outcome(
            list_output@,
            match reply {
                Some(out) => Some(out@),
                None => None,
            },
        ),
{
    match reply {
        None => None,
        Some(out) => match find_info_source_file(out) {
            Some(file) => source_info_from(list_output, file, 0),
            None => None,
        },
    }
}

} // verus!

verus! {

/// A session is listed with its own program whatever its working directory,
/// and with `No program loaded` when it has none or is busy; it is listed
/// with its own working directory where it has one, else with the server's,
/// else with `unknown`.
pub proof fn law_listed_session(st: SessionState, current_dir: Option<Seq<char>>)
    ensures
        st.target matches Some(t) ==> listed_target(Some(st)) == t@,
        st.target is None ==> listed_target(Some(st)) == "No program loaded"@,
        listed_target(None) == "No program loaded"@,
        st.working_dir matches Some(w) ==> listed_working_dir(Some(st), current_dir) == w@,
        st.working_dir is None ==> listed_working_dir(Some(st), current_dir) == listed_working_dir(
            None,
            current_dir,
        ),
        current_dir matches Some(c) ==> listed_working_dir(None, current_dir) == c,
        listed_working_dir(None, None) == "unknown"@,
{
}

/// Joining one part more puts the separator between the parts joined so far
/// and the new one.
pub proof fn law_joined_push(parts: Seq<Seq<char>>, p: Seq<char>, sep: Seq<char>)
    ensures
        joined_with(seq![p], sep) == p,
        parts.len() > 0 ==> joined_with(parts.push(p), sep) == joined_with(parts, sep) + sep + p,
{
    assert(parts.push(p).drop_last() =~= parts);
}

/// Joining two non-empty runs of parts is joining each and putting the
/// separator between them.
pub proof fn law_joined_concat(a: Seq<Seq<char>>, b: Seq<Seq<char>>, sep: Seq<char>)
    requires
        a.len() > 0,
        b.len() > 0,
    ensures
        joined_with(a + b, sep) == joined_with(a, sep) + sep + joined_with(b, sep),
    decreases b.len(),
{
    if b.len() == 1 {
        assert((a + b).drop_last() =~= a);
        assert((a + b).last() == b[0]);
    } else {
        law_joined_concat(a, b.drop_last(), sep);
        assert((a + b).drop_last() =~= a + b.drop_last());
        assert((a + b).last() == b.last());
        let ja = joined_with(a, sep);
        let jb = joined_with(b.drop_last(), sep);
        assert(ja + sep + jb + sep + b.last() =~= ja + sep + (jb + sep + b.last()));
    }
}

/// Between any two neighbouring parts stands the separator: the joined text
/// splits, at any part but the first, into the parts before and the parts
/// from there on, the separator between.
pub proof fn law_joined_split(parts: Seq<Seq<char>>, k: int, sep: Seq<char>)
    requires
        0 < k < parts.len(),
    ensures
        joined_with(parts, sep) == joined_with(parts.take(k), sep) + sep + joined_with(
            parts.skip(k),
            sep,
        ),
{
    law_joined_concat(parts.take(k), parts.skip(k), sep);
    assert(parts.take(k) + parts.skip(k) =~= parts);
}

/// How the steps of finding a listing's source compose: without a reply to
/// `info line` nothing is found; a reply that names a location settles it;
/// otherwise the reply to `info source` does.  A location found spans the
/// first to the last line number of the listing.
pub proof fn law_source_info_steps(
    list: Seq<char>,
    line_reply: Seq<char>,
    source_reply: Option<Seq<char>>,
)
    ensures
        source_info_of(list, None, source_reply) is None,
        !is_blank(list) ==> source_info_of(list, Some(line_reply), source_reply) == (match info_line_outcome(
            list,
            line_reply,
        ) {
            Some(result) => result,
            None => info_source_outcome(list, source_reply),
        }),
        source_info_of(list, Some(line_reply), source_reply) matches Some(info) ==> {
            let numbers = listed_line_numbers_of(list);
            &&& numbers.len() > 0
            &&& info.1 == numbers[0]
            &&& info.2 == numbers.last()
        },
{
}

} // verus!
