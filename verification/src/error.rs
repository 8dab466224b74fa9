//! Error types of the library and their messages.
//!
//! Underlying causes (an I/O error, a parse error) are carried as their
//! message text.

use vstd::prelude::*;
use crate::text::{chars_to_string, dec_chars, fmt_dec, fmt_hex, hex_chars, push_all, push_str};

verus! {

/// Errors that can occur during DWARF-based stack unwinding.
#[derive(Debug, Clone, PartialEq, Eq)]
pub enum UnwindError {
    NoEhFrame { address: u64 },
    InvalidCfi { message: String },
    StackReadFailed { address: u64 },
    MaxDepthExceeded { depth: usize },
    BinaryNotFound { path: String },
    RegisterNotFound { register: u16 },
}

/// The message of an unwinding error.
pub open spec fn unwind_error_message(e: UnwindError) -> Seq<char> {
    match e {
        UnwindError::NoEhFrame { address } => "No unwind information found for address 0x"@
            + fmt_hex(address as nat),
        UnwindError::InvalidCfi { message } => "Invalid CFI data: "@ + message@,
        UnwindError::StackReadFailed { address } => "Failed to read stack at address 0x"@ + fmt_hex(
            address as nat,
        ),
        UnwindError::MaxDepthExceeded { depth } => "Stack unwinding exceeded maximum depth of "@
            + fmt_dec(depth as nat),
        UnwindError::BinaryNotFound { path } => "Binary file not found: "@ + path@,
        UnwindError::RegisterNotFound { register } => "Register value not available: "@ + fmt_dec(
            register as nat,
        ),
    }
}

impl UnwindError {
    fn message_vec(&self) -> (r: Vec<char>)
        ensures
            r@ == unwind_error_message(*self),
    {
        let mut v: Vec<char> = Vec::new();
        match self {
            UnwindError::NoEhFrame { address } => {
                push_str(&mut v, "No unwind information found for address 0x");
                let h = hex_chars(*address);
                push_all(&mut v, h.as_slice());
            },
            UnwindError::InvalidCfi { message } => {
                push_str(&mut v, "Invalid CFI data: ");
                push_str(&mut v, message.as_str());
            },
            UnwindError::StackReadFailed { address } => {
                push_str(&mut v, "Failed to read stack at address 0x");
                let h = hex_chars(*address);
                push_all(&mut v, h.as_slice());
            },
            UnwindError::MaxDepthExceeded { depth } => {
                push_str(&mut v, "Stack unwinding exceeded maximum depth of ");
                let d = dec_chars(*depth as u64);
                push_all(&mut v, d.as_slice());
            },
            UnwindError::BinaryNotFound { path } => {
                push_str(&mut v, "Binary file not found: ");
                push_str(&mut v, path.as_str());
            },
            UnwindError::RegisterNotFound { register } => {
                push_str(&mut v, "Register value not available: ");
                let d = dec_chars(*register as u64);
                push_all(&mut v, d.as_slice());
            },
        }
        v
    }

    /// The message of this error.
    pub fn to_string(&self) -> (r: String)
        ensures
            r@ == unwind_error_message(*self),
    {
        let v = self.message_vec();
        chars_to_string(v.as_slice())
    }
}

/// The kind of an I/O failure, as far as the library distinguishes them.
#[derive(Debug, Clone, Copy, PartialEq, Eq, Structural)]
pub enum IoErrorKind {
    InvalidData,
    UnexpectedEof,
    Unsupported,
    NotFound,
    PermissionDenied,
    Other,
}

/// Errors of the library.
#[derive(Debug, Clone, PartialEq, Eq)]
pub enum PerfError {
    CounterSetup { source: String },
    CounterEnable { event_name: String, source: String },
    CounterDisable { event_name: String, source: String },
    CounterRead { event_name: String, source: String },
    PermissionDenied { operation: String },
    SystemWidePermissionDenied,
    FileRead { path: String, source: String },
    ElfParse { path: String, source: String },
    KernelSymbols { source: String },
    RingBufferSetup { message: String, source: String },
    InvalidMagic { expected: String, actual: String },
    UnsupportedVersion { version: u32 },
    InvalidEventType { event_type: u16 },
    ProcessAttach { pid: u32, source: String },
    ProcessFork { source: String },
    CommandExecution { command: String, source: String },
    SignalSend { pid: i32, source: String },
    ProcessWait { source: String },
    InvalidArgument { message: String },
    InvalidCpuList { message: String },
    CpuOutOfRange { cpu_id: u32, max_cpu: u32 },
    Io { kind: IoErrorKind, message: String },
    Tracepoint { source: String },
    Unwind(UnwindError),
}

/// Decimal notation of a signed number.
pub open spec fn fmt_signed(n: int) -> Seq<char> {
    if n < 0 {
        seq!['-'] + fmt_dec((-n) as nat)
    } else {
        fmt_dec(n as nat)
    }
}

/// The message of a library error.
pub open spec fn perf_error_message(e: PerfError) -> Seq<char> {
    match e {
        PerfError::CounterSetup { source } => "Failed to set up performance counter: "@ + source@,
        PerfError::CounterEnable { event_name, source } => "Failed to enable performance counter '"@
            + event_name@ + "': "@ + source@,
        PerfError::CounterDisable { event_name, source } =>
            "Failed to disable performance counter '"@ + event_name@ + "': "@ + source@,
        PerfError::CounterRead { event_name, source } => "Failed to read counter value for '"@
            + event_name@ + "': "@ + source@,
        PerfError::PermissionDenied { operation } => "Permission denied for operation: "@
            + operation@,
        PerfError::SystemWidePermissionDenied =>
            "System-wide profiling permission denied. Requires perf_event_paranoid <= 0 or CAP_PERFMON/CAP_SYS_ADMIN capability"@,
        PerfError::FileRead { path, source } => "Failed to read file '"@ + path@ + "': "@ + source@,
        PerfError::ElfParse { path, source } => "Failed to parse ELF file '"@ + path@ + "': "@
            + source@,
        PerfError::KernelSymbols { source } => "Failed to read kernel symbols: "@ + source@,
        PerfError::RingBufferSetup { message, source } => "Failed to set up ring buffer: "@
            + message@,
        PerfError::InvalidMagic { expected, actual } => "Invalid perf.data magic: expected '"@
            + expected@ + "', got '"@ + actual@ + "'"@,
        PerfError::UnsupportedVersion { version } => "Unsupported perf.data version: "@ + fmt_dec(
            version as nat,
        ),
        PerfError::InvalidEventType { event_type } => "Invalid event type in perf.data: "@
            + fmt_dec(event_type as nat),
        PerfError::ProcessAttach { pid, source } => "Failed to attach to process "@ + fmt_dec(
            pid as nat,
        ) + ": "@ + source@,
        PerfError::ProcessFork { source } => "Failed to fork process: "@ + source@,
        PerfError::CommandExecution { command, source } => "Failed to execute command '"@
            + command@ + "': "@ + source@,
        PerfError::SignalSend { pid, source } => "Failed to send signal to process "@ + fmt_signed(
            pid as int,
        ) + ": "@ + source@,
        PerfError::ProcessWait { source } => "Failed to wait for process: "@ + source@,
        PerfError::InvalidArgument { message } => "Invalid argument: "@ + message@,
        PerfError::InvalidCpuList { message } => "Invalid CPU list: "@ + message@,
        PerfError::CpuOutOfRange { cpu_id, max_cpu } => "CPU "@ + fmt_dec(cpu_id as nat)
            + " out of range (max: "@ + fmt_dec(max_cpu as nat) + ")"@,
        PerfError::Io { kind, message } => "IO error: "@ + message@,
        PerfError::Tracepoint { source } => "Tracepoint error: "@ + source@,
        PerfError::Unwind(u) => "Stack unwinding failed: "@ + unwind_error_message(u),
    }
}

fn push_dec(v: &mut Vec<char>, n: u64)
    ensures
        final(v)@ == old(v)@ + fmt_dec(n as nat),
{
    let d = dec_chars(n);
    push_all(v, d.as_slice());
}

fn push_signed(v: &mut Vec<char>, n: i32)
    ensures
        final(v)@ == old(v)@ + fmt_signed(n as int),
{
    if n < 0 {
        v.push('-');
        let m: u64 = (0 - (n as i64)) as u64;
        let ghost v1 = v@;
        push_dec(v, m);
        assert(v@ =~= old(v)@ + fmt_signed(n as int));
    } else {
        push_dec(v, n as u64);
    }
}

impl PerfError {
    /// The message of this error.
    pub fn to_string(&self) -> (r: String)
        ensures
            r@ == perf_error_message(*self),
    {
        let mut v: Vec<char> = Vec::new();
        match self {
            PerfError::CounterSetup { source } => {
                push_str(&mut v, "Failed to set up performance counter: ");
                push_str(&mut v, source.as_str());
            },
            PerfError::CounterEnable { event_name, source } => {
                push_str(&mut v, "Failed to enable performance counter '");
                push_str(&mut v, event_name.as_str());
                push_str(&mut v, "': ");
                push_str(&mut v, source.as_str());
            },
            PerfError::CounterDisable { event_name, source } => {
                push_str(&mut v, "Failed to disable performance counter '");
                push_str(&mut v, event_name.as_str());
                push_str(&mut v, "': ");
                push_str(&mut v, source.as_str());
            },
            PerfError::CounterRead { event_name, source } => {
                push_str(&mut v, "Failed to read counter value for '");
                push_str(&mut v, event_name.as_str());
                push_str(&mut v, "': ");
                push_str(&mut v, source.as_str());
            },
            PerfError::PermissionDenied { operation } => {
                push_str(&mut v, "Permission denied for operation: ");
                push_str(&mut v, operation.as_str());
            },
            PerfError::SystemWidePermissionDenied => {
                push_str(
                    &mut v,
                    "System-wide profiling permission denied. Requires perf_event_paranoid <= 0 or CAP_PERFMON/CAP_SYS_ADMIN capability",
                );
            },
            PerfError::FileRead { path, source } => {
                push_str(&mut v, "Failed to read file '");
                push_str(&mut v, path.as_str());
                push_str(&mut v, "': ");
                push_str(&mut v, source.as_str());
            },
            PerfError::ElfParse { path, source } => {
                push_str(&mut v, "Failed to parse ELF file '");
                push_str(&mut v, path.as_str());
                push_str(&mut v, "': ");
                push_str(&mut v, source.as_str());
            },
            PerfError::KernelSymbols { source } => {
                push_str(&mut v, "Failed to read kernel symbols: ");
                push_str(&mut v, source.as_str());
            },
            PerfError::RingBufferSetup { message, source } => {
                push_str(&mut v, "Failed to set up ring buffer: ");
                push_str(&mut v, message.as_str());
            },
            PerfError::InvalidMagic { expected, actual } => {
                push_str(&mut v, "Invalid perf.data magic: expected '");
                push_str(&mut v, expected.as_str());
                push_str(&mut v, "', got '");
                push_str(&mut v, actual.as_str());
                push_str(&mut v, "'");
            },
            PerfError::UnsupportedVersion { version } => {
                push_str(&mut v, "Unsupported perf.data version: ");
                push_dec(&mut v, *version as u64);
            },
            PerfError::InvalidEventType { event_type } => {
                push_str(&mut v, "Invalid event type in perf.data: ");
                push_dec(&mut v, *event_type as u64);
            },
            PerfError::ProcessAttach { pid, source } => {
                push_str(&mut v, "Failed to attach to process ");
                push_dec(&mut v, *pid as u64);
                push_str(&mut v, ": ");
                push_str(&mut v, source.as_str());
            },
            PerfError::ProcessFork { source } => {
                push_str(&mut v, "Failed to fork process: ");
                push_str(&mut v, source.as_str());
            },
            PerfError::CommandExecution { command, source } => {
                push_str(&mut v, "Failed to execute command '");
                push_str(&mut v, command.as_str());
                push_str(&mut v, "': ");
                push_str(&mut v, source.as_str());
            },
            PerfError::SignalSend { pid, source } => {
                push_str(&mut v, "Failed to send signal to process ");
                push_signed(&mut v, *pid);
                push_str(&mut v, ": ");
                push_str(&mut v, source.as_str());
            },
            PerfError::ProcessWait { source } => {
                push_str(&mut v, "Failed to wait for process: ");
                push_str(&mut v, source.as_str());
            },
            PerfError::InvalidArgument { message } => {
                push_str(&mut v, "Invalid argument: ");
                push_str(&mut v, message.as_str());
            },
            PerfError::InvalidCpuList { message } => {
                push_str(&mut v, "Invalid CPU list: ");
                push_str(&mut v, message.as_str());
            },
            PerfError::CpuOutOfRange { cpu_id, max_cpu } => {
                push_str(&mut v, "CPU ");
                push_dec(&mut v, *cpu_id as u64);
                push_str(&mut v, " out of range (max: ");
                push_dec(&mut v, *max_cpu as u64);
                push_str(&mut v, ")");
            },
            PerfError::Io { kind, message } => {
                push_str(&mut v, "IO error: ");
                push_str(&mut v, message.as_str());
            },
            PerfError::Tracepoint { source } => {
                push_str(&mut v, "Tracepoint error: ");
                push_str(&mut v, source.as_str());
            },
            PerfError::Unwind(u) => {
                push_str(&mut v, "Stack unwinding failed: ");
                let m = u.message_vec();
                push_all(&mut v, m.as_slice());
            },
        }
        chars_to_string(v.as_slice())
    }
}

impl From<UnwindError> for PerfError {
    fn from(e: UnwindError) -> (r: PerfError) {
        PerfError::Unwind(e)
    }
}

impl vstd::std_specs::convert::FromSpecImpl<UnwindError> for PerfError {
    open spec fn obeys_from_spec() -> bool {
        true
    }

    open spec fn from_spec(e: UnwindError) -> PerfError {
        PerfError::Unwind(e)
    }
}

} // verus!
