//! What the counting and recording commands decide before they start:
//! whether they were given something to observe, whether the user may
//! observe it, and which CPUs a system-wide run covers.

use vstd::prelude::*;
use crate::error::PerfError;
use crate::events::EventError;
use crate::perf_core::cpu::{cpu_list_spec, parse_cpu_list, strictly_sorted, validate_cpu_ids};
use crate::perf_core::privilege::{privilege_error_message, PrivilegeError, PrivilegeLevel};
use crate::text::string_of;

verus! {

/// Why a command refused to start.
#[derive(Debug, Clone, PartialEq, Eq)]
pub enum CommandError {
    /// A usage error, with its message.
    Message(String),
    Perf(PerfError),
    Event(EventError),
}

impl CommandError {
    /// The message of this error.
    pub fn to_string(&self) -> (r: String)
        ensures
            r@ == command_error_message(*self),
    {
        match self {
            CommandError::Message(m) => m.clone(),
            CommandError::Perf(e) => e.to_string(),
            CommandError::Event(e) => e.to_string(),
        }
    }
}

pub open spec fn command_error_message(e: CommandError) -> Seq<char> {
    match e {
        CommandError::Message(m) => m@,
        CommandError::Perf(p) => crate::error::perf_error_message(p),
        CommandError::Event(x) => crate::events::event_error_message(x@),
    }
}

/// What a command observes.
#[derive(Debug, Clone, PartialEq, Eq)]
pub enum Target {
    /// The command that it starts.
    Command,
    /// A running process.
    Pid(u32),
    /// Every process on these CPUs.
    Cpus(Vec<u32>),
}

/// The operation that a denial names, or `None` when the user may go on:
/// a failure to find the level names its message; system-wide runs need
/// the full level, others any level but none.
pub open spec fn denied_operation(
    system_wide: bool,
    privilege: Result<PrivilegeLevel, PrivilegeError>,
    system_wide_operation: Seq<char>,
) -> Option<Seq<char>> {
    match privilege {
        Err(e) => Some(privilege_error_message(e)),
        Ok(l) => if system_wide {
            if l == PrivilegeLevel::Full {
                None
            } else {
                Some(system_wide_operation)
            }
        } else {
            if l == PrivilegeLevel::NoAccess {
                Some("performance monitoring"@)
            } else {
                None
            }
        },
    }
}

/// Refuses a run that the privilege level does not allow, with a
/// `PermissionDenied` error that names the operation.
pub fn check_access(
    system_wide: bool,
    privilege: &Result<PrivilegeLevel, PrivilegeError>,
    system_wide_operation: &str,
) -> (r: Result<(), CommandError>)
    ensures
        match denied_operation(system_wide, *privilege, system_wide_operation@) {
            None => r is Ok,
            Some(op) => r matches Err(CommandError::Perf(PerfError::PermissionDenied { operation }))
                && operation@ == op,
        },
{
    match privilege {
        Err(e) => Err(CommandError::Perf(PerfError::PermissionDenied { operation: e.to_string() })),
        Ok(l) => {
            if system_wide {
                if !l.can_profile_system_wide() {
                    return Err(
                        CommandError::Perf(
                            PerfError::PermissionDenied { operation: string_of(system_wide_operation) },
                        ),
                    );
                }
            } else if !l.can_profile() {
                return Err(
                    CommandError::Perf(
                        PerfError::PermissionDenied { operation: string_of("performance monitoring") },
                    ),
                );
            }
            Ok(())
        },
    }
}

/// The largest number of a list; 0 for an empty list.
pub open spec fn seq_max_u32(s: Seq<u32>) -> u32
    decreases s.len(),
{
    if s.len() == 0 {
        0
    } else {
        let m = seq_max_u32(s.drop_last());
        if s.last() > m {
            s.last()
        } else {
            m
        }
    }
}


/// The largest number of a list, 0 for none.
pub fn max_u32(s: &[u32]) -> (r: u32)
    ensures
        r == seq_max_u32(s@),
{
    let mut m: u32 = 0;
    let mut i: usize = 0;
    while i < s.len()
        invariant
            i <= s@.len(),
            m == seq_max_u32(s@.subrange(0, i as int)),
        decreases s@.len() - i,
    {
        assert(s@.subrange(0, i + 1).drop_last() == s@.subrange(0, i as int));
        if s[i] > m {
            m = s[i];
        }
        i = i + 1;
    }
    assert(s@.subrange(0, s@.len() as int) == s@);
    m
}

/// The CPUs that a system-wide run covers: every online CPU when `cpu` is
/// not given or `all_cpus` is set; else the CPUs that `cpu` lists, sorted,
/// once each, when none is above the highest online CPU; else the first
/// error of the parse, of finding the online CPUs, or the smallest listed
/// CPU above the highest online one.
pub open spec fn cpu_selection(
    all_cpus: bool,
    cpu: Option<Seq<char>>,
    online: Result<Seq<u32>, PerfError>,
    r: Result<Seq<u32>, PerfError>,
) -> bool {
    if all_cpus || cpu is None {
        r == online
    } else {
        match cpu_list_spec(cpu->0) {
            Err(m) => r matches Err(PerfError::InvalidCpuList { message }) && message@ == m,
            Ok(set) => match online {
                Err(e) => r == Err::<Seq<u32>, PerfError>(e),
                Ok(on) => {
                    let max = seq_max_u32(on);
                    match r {
                        Ok(v) => strictly_sorted(v) && v.to_set() == set && forall|c: u32|
                            set.contains(c) ==> c <= max,
                        Err(e) => e matches PerfError::CpuOutOfRange { cpu_id, max_cpu } && max_cpu
                            == max && set.contains(cpu_id) && cpu_id > max && forall|c: u32|
                            #![trigger set.contains(c)]
                            set.contains(c) && c > max ==> cpu_id <= c,
                    }
                },
            },
        }
    }
}

pub open spec fn cpus_view(r: Result<Vec<u32>, PerfError>) -> Result<Seq<u32>, PerfError> {
    match r {
        Ok(v) => Ok(v@),
        Err(e) => Err(e),
    }
}

/// The CPUs of a system-wide run (see `cpu_selection`), given the online
/// CPUs or the failure to find them.
pub fn select_cpus(all_cpus: bool, cpu: Option<&str>, online: Result<Vec<u32>, PerfError>) -> (r: Result<
    Vec<u32>,
    PerfError,
>)
    ensures
        cpu_selection(
            all_cpus,
            match cpu {
                Some(c) => Some(c@),
                None => None,
            },
            cpus_view(online),
            cpus_view(r),
        ),
{
    if all_cpus {
        return online;
    }
    let list = match cpu {
        Some(c) => c,
        None => {
            return online;
        },
    };
    let cpus = match parse_cpu_list(list) {
        Ok(v) => v,
        Err(e) => {
            return Err(e);
        },
    };
    let on = match online {
        Ok(v) => v,
        Err(e) => {
            return Err(e);
        },
    };
    let max_cpu = max_u32(on.as_slice());
    let ghost set = cpus@.to_set();
    match validate_cpu_ids(cpus.as_slice(), max_cpu) {
        Ok(()) => {
            assert forall|c: u32| set.contains(c) implies c <= max_cpu by {
                let j = choose|j: int| 0 <= j < cpus@.len() && cpus@[j] == c;
            }
            Ok(cpus)
        },
        Err(e) => {
            let ghost i = choose|i: int|
                crate::perf_core::cpu::first_out_of_range(cpus@, max_cpu, i) && e == (
                PerfError::CpuOutOfRange { cpu_id: #[trigger] cpus@[i], max_cpu });
            proof {
                assert(set.contains(cpus@[i]));
                assert forall|c: u32| #![trigger set.contains(c)] set.contains(c) && c > max_cpu implies cpus@[i]
                    <= c by {
                    let j = choose|j: int| 0 <= j < cpus@.len() && cpus@[j] == c;
                    if j < i {
                        assert(cpus@[j] <= max_cpu);
                    } else if j > i {
                        assert(cpus@[i] < cpus@[j]);
                    }
                }
            }
            Err(e)
        },
    }
}

} // verus!
