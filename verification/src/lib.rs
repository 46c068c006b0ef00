//! A GDB debugging server's logic: the session table, the reading of GDB's
//! replies, the commands each tool sends and the answers it gives, and the
//! reading of source locations out of GDB's output.
pub mod error;
pub mod json;
pub mod path;
pub mod pattern;
pub mod registry;
pub mod session;
pub mod text;
pub mod tools;

pub use error::GdbError;
pub use path::normalize_path;
pub use registry::SessionRegistry;
pub use session::{ReadEvent, ReplyCollector, ReplyKind, SessionState};
pub use tools::{
    GdbAttachArgs, GdbBacktraceArgs, GdbCommandArgs, GdbContinueArgs, GdbExamineArgs,
    GdbFinishArgs, GdbInfoRegistersArgs, GdbListSessionsArgs, GdbListSourceArgs, GdbLoadArgs,
    GdbLoadCoreArgs, GdbNextArgs, GdbPrintArgs, GdbSetBreakpointArgs, GdbStartArgs, GdbStepArgs,
    GdbTerminateArgs, SessionInfo, SourceInfo, SourceProbe,
};
