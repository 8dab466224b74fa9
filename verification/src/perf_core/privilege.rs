//! How much profiling the current user may do, from its identity, its
//! effective capabilities and the kernel's `perf_event_paranoid` setting.
//!
//! The inputs are handed in as text: the contents of `/proc/self/status`
//! and of `/proc/sys/kernel/perf_event_paranoid`, or the message of the
//! failure to read them.

use vstd::prelude::*;
use crate::text::{
    all_digits, chars_to_string, digit_val, digits_value, has_prefix, parse_uint_chars, parse_uint_max,
    push_all, push_str, split, split_chars, starts_with_str, str_to_chars, string_of, sub_chars,
    trim, trim_chars,
};

verus! {

/// A failure to find out the privilege level.
#[derive(Debug, Clone, PartialEq, Eq)]
pub enum PrivilegeError {
    /// The paranoid setting could not be read; the message of the failure.
    ParanoidReadError(String),
    /// The paranoid setting is not an `i32`; the trimmed text.
    InvalidParanoidValue(String),
    CapabilityCheckFailed(String),
}

pub open spec fn privilege_error_message(e: PrivilegeError) -> Seq<char> {
    match e {
        PrivilegeError::ParanoidReadError(m) => "Failed to read perf_event_paranoid: "@ + m@,
        PrivilegeError::InvalidParanoidValue(v) => "Invalid perf_event_paranoid value: "@ + v@,
        PrivilegeError::CapabilityCheckFailed(m) => "Capability check failed: "@ + m@,
    }
}

impl PrivilegeError {
    pub fn to_string(&self) -> (r: String)
        ensures
            r@ == privilege_error_message(*self),
    {
        let mut v: Vec<char> = Vec::new();
        match self {
            PrivilegeError::ParanoidReadError(m) => {
                push_str(&mut v, "Failed to read perf_event_paranoid: ");
                push_str(&mut v, m.as_str());
            },
            PrivilegeError::InvalidParanoidValue(m) => {
                push_str(&mut v, "Invalid perf_event_paranoid value: ");
                push_str(&mut v, m.as_str());
            },
            PrivilegeError::CapabilityCheckFailed(m) => {
                push_str(&mut v, "Capability check failed: ");
                push_str(&mut v, m.as_str());
            },
        }
        chars_to_string(v.as_slice())
    }
}

/// What the user may profile.
#[derive(Debug, Clone, Copy, PartialEq, Eq, Structural)]
pub enum PrivilegeLevel {
    /// Everything, the kernel and the whole system included.
    Full,
    /// Its own processes.
    Limited,
    /// Nothing.
    NoAccess,
}

pub open spec fn suggestion_lines(l: PrivilegeLevel) -> Seq<Seq<char>> {
    match l {
        PrivilegeLevel::Full => seq!["You have full perf access. No action needed."@],
        PrivilegeLevel::Limited => seq![
            "To enable kernel profiling, run with sudo or adjust perf_event_paranoid:"@,
            "  sudo sysctl -w kernel.perf_event_paranoid=1"@,
            "Or add CAP_PERFMON capability:"@,
            "  sudo setcap cap_perfmon+ep /path/to/perf-rs"@,
        ],
        PrivilegeLevel::NoAccess => seq![
            "To enable perf access, choose one of the following:"@,
            "1. Run with sudo:"@,
            "   sudo perf-rs ..."@,
            "2. Adjust perf_event_paranoid (requires root):"@,
            "   sudo sysctl -w kernel.perf_event_paranoid=2"@,
            "3. Add CAP_PERFMON capability:"@,
            "   sudo setcap cap_perfmon+ep /path/to/perf-rs"@,
        ],
    }
}

fn push_line(v: &mut Vec<String>, s: &str)
    ensures
        final(v)@.len() == old(v)@.len() + 1,
        forall|i: int| 0 <= i < old(v)@.len() ==> final(v)@[i] == old(v)@[i],
        final(v)@[old(v)@.len() as int]@ == s@,
{
    v.push(string_of(s));
}

impl PrivilegeLevel {
    /// Whether the user may profile at all.
    pub fn can_profile(&self) -> (r: bool)
        ensures
            r == (*self != PrivilegeLevel::NoAccess),
    {
        match self {
            PrivilegeLevel::Full => true,
            PrivilegeLevel::Limited => true,
            PrivilegeLevel::NoAccess => false,
        }
    }

    /// Whether the user may profile the whole system (all CPUs, all
    /// processes): only at the full level.
    pub fn can_profile_system_wide(&self) -> (r: bool)
        ensures
            r == (*self == PrivilegeLevel::Full),
    {
        match self {
            PrivilegeLevel::Full => true,
            _ => false,
        }
    }

    /// What the user can do to gain access, one line per entry.
    pub fn suggestions(&self) -> (r: Vec<String>)
        ensures
            r@.len() == suggestion_lines(*self).len(),
            forall|i: int| 0 <= i < r@.len() ==> #[trigger] r@[i]@ == suggestion_lines(*self)[i],
    {
        let mut v: Vec<String> = Vec::new();
        match self {
            PrivilegeLevel::Full => {
                push_line(&mut v, "You have full perf access. No action needed.");
            },
            PrivilegeLevel::Limited => {
                push_line(&mut v, "To enable kernel profiling, run with sudo or adjust perf_event_paranoid:");
                push_line(&mut v, "  sudo sysctl -w kernel.perf_event_paranoid=1");
                push_line(&mut v, "Or add CAP_PERFMON capability:");
                push_line(&mut v, "  sudo setcap cap_perfmon+ep /path/to/perf-rs");
            },
            PrivilegeLevel::NoAccess => {
                push_line(&mut v, "To enable perf access, choose one of the following:");
                push_line(&mut v, "1. Run with sudo:");
                push_line(&mut v, "   sudo perf-rs ...");
                push_line(&mut v, "2. Adjust perf_event_paranoid (requires root):");
                push_line(&mut v, "   sudo sysctl -w kernel.perf_event_paranoid=2");
                push_line(&mut v, "3. Add CAP_PERFMON capability:");
                push_line(&mut v, "   sudo setcap cap_perfmon+ep /path/to/perf-rs");
            },
        }
        v
    }
}

/// Bit of `CAP_PERFMON` in the effective capability set.
pub const CAP_PERFMON: u64 = 0x40_0000_0000;

/// Bit of `CAP_SYS_ADMIN` in the effective capability set.
pub const CAP_SYS_ADMIN: u64 = 0x20_0000;

/// The effective capabilities that a status line states: a line that
/// starts with `CapEff:` and continues with a hexadecimal `u64`.
pub open spec fn cap_line_value(line: Seq<char>) -> Option<u64> {
    if has_prefix(line, "CapEff:"@) {
        match parse_uint_max(trim(line.subrange(7, line.len() as int)), 16, u64::MAX as nat) {
            Some(n) => Some(n as u64),
            None => None,
        }
    } else {
        None
    }
}

/// The value of the first line among `lines` that states the effective
/// capabilities.
pub open spec fn first_cap_value(lines: Seq<Seq<char>>) -> Option<u64>
    decreases lines.len(),
{
    if lines.len() == 0 {
        None
    } else {
        match cap_line_value(lines[0]) {
            Some(c) => Some(c),
            None => first_cap_value(lines.drop_first()),
        }
    }
}

/// Whether a status text grants the capability `bit`: the first valid
/// `CapEff:` line has it set; no such line grants nothing.
pub open spec fn status_grants(status: Seq<char>, bit: u64) -> bool {
    match first_cap_value(split(status, '\n')) {
        Some(c) => c & bit != 0,
        None => false,
    }
}

fn cap_line(line: &[char]) -> (r: Option<u64>)
    ensures
        r == cap_line_value(line@),
{
    if !starts_with_str(line, "CapEff:") {
        return None;
    }
    proof {
        reveal_strlit("CapEff:");
    }
    let rest = sub_chars(line, 7, line.len());
    let t = trim_chars(rest.as_slice());
    parse_uint_chars(t.as_slice(), 16, 0xffff_ffff_ffff_ffff)
}

/// The effective capabilities that a status text states, if any line
/// states them.
pub fn effective_capabilities(status: &str) -> (r: Option<u64>)
    ensures
        r == first_cap_value(split(status@, '\n')),
{
    let chars = str_to_chars(status);
    let lines = split_chars(chars.as_slice(), '\n');
    let ghost ls = split(status@, '\n');
    let n: usize = lines.len();
    assert(ls.subrange(0, ls.len() as int) =~= ls);
    let mut i: usize = 0;
    while i < n
        invariant
            0 <= i <= n,
            n == lines@.len(),
            ls == split(status@, '\n'),
            ls.len() == lines@.len(),
            forall|k: int| 0 <= k < ls.len() ==> #[trigger] lines@[k]@ == ls[k],
            first_cap_value(ls) == first_cap_value(ls.subrange(i as int, ls.len() as int)),
        decreases n - i,
    {
        let ghost rest = ls.subrange(i as int, ls.len() as int);
        assert(rest[0] == ls[i as int]);
        assert(rest.drop_first() =~= ls.subrange(i + 1, ls.len() as int));
        match cap_line(lines[i].as_slice()) {
            Some(c) => {
                return Some(c);
            },
            None => {},
        }
        i = i + 1;
    }
    assert(ls.subrange(n as int, ls.len() as int).len() == 0);
    None
}

/// Whether the user holds a capability: root always does; otherwise the
/// status text decides, and a failure to read it is an error.
pub open spec fn cap_check(
    is_root: bool,
    status: Result<Seq<char>, Seq<char>>,
    bit: u64,
) -> Result<bool, Seq<char>> {
    if is_root {
        Ok(true)
    } else {
        match status {
            Ok(s) => Ok(status_grants(s, bit)),
            Err(m) => Err("Failed to read /proc/self/status: "@ + m),
        }
    }
}

pub open spec fn result_view(r: Result<String, String>) -> Result<Seq<char>, Seq<char>> {
    match r {
        Ok(s) => Ok(s@),
        Err(m) => Err(m@),
    }
}

fn has_capability(is_root: bool, status: &Result<String, String>, bit: u64) -> (r: Result<bool, PrivilegeError>)
    ensures
        match cap_check(is_root, result_view(*status), bit) {
            Ok(b) => r == Ok::<bool, PrivilegeError>(b),
            Err(m) => r matches Err(PrivilegeError::CapabilityCheckFailed(x)) && x@ == m,
        },
{
    if is_root {
        return Ok(true);
    }
    match status {
        Ok(s) => {
            match effective_capabilities(s.as_str()) {
                Some(c) => Ok(c & bit != 0),
                None => Ok(false),
            }
        },
        Err(m) => {
            let mut v: Vec<char> = Vec::new();
            push_str(&mut v, "Failed to read /proc/self/status: ");
            push_str(&mut v, m.as_str());
            Err(PrivilegeError::CapabilityCheckFailed(chars_to_string(v.as_slice())))
        },
    }
}

/// Whether the user holds `CAP_PERFMON`, from `/proc/self/status`.
pub fn has_cap_perfmon(is_root: bool, status: &Result<String, String>) -> (r: Result<bool, PrivilegeError>)
    ensures
        match cap_check(is_root, result_view(*status), CAP_PERFMON) {
            Ok(b) => r == Ok::<bool, PrivilegeError>(b),
            Err(m) => r matches Err(PrivilegeError::CapabilityCheckFailed(x)) && x@ == m,
        },
{
    has_capability(is_root, status, CAP_PERFMON)
}

/// Whether the user holds `CAP_SYS_ADMIN`, from `/proc/self/status`.
pub fn has_cap_sys_admin(is_root: bool, status: &Result<String, String>) -> (r: Result<bool, PrivilegeError>)
    ensures
        match cap_check(is_root, result_view(*status), CAP_SYS_ADMIN) {
            Ok(b) => r == Ok::<bool, PrivilegeError>(b),
            Err(m) => r matches Err(PrivilegeError::CapabilityCheckFailed(x)) && x@ == m,
        },
{
    has_capability(is_root, status, CAP_SYS_ADMIN)
}

/// The `i32` that a text denotes, as `str::parse::<i32>`: an optional
/// sign, then at least one decimal digit.
pub open spec fn parse_i32_spec(s: Seq<char>) -> Option<i32> {
    if s.len() > 0 && s[0] == '-' {
        let d = s.drop_first();
        if d.len() > 0 && all_digits(d, 10) && digits_value(d, 10) <= 0x8000_0000 {
            Some((0 - digits_value(d, 10)) as i32)
        } else {
            None
        }
    } else {
        match parse_uint_max(s, 10, 0x7fff_ffff) {
            Some(n) => Some(n as i32),
            None => None,
        }
    }
}

/// Parses an `i32` as `str::parse::<i32>`.
pub fn parse_i32_chars(v: &[char]) -> (r: Option<i32>)
    ensures
        r == parse_i32_spec(v@),
{
    if v.len() > 0 && v[0] == '-' {
        let d = sub_chars(v, 1, v.len());
        assert(d@ =~= v@.drop_first());
        if d.len() == 0 || d[0] == '+' {
            proof {
                if d@.len() > 0 {
                    assert(digit_val(d@[0], 10) is None);
                }
            }
            return None;
        }
        match parse_uint_chars(d.as_slice(), 10, 0x8000_0000) {
            Some(n) => {
                let m: i64 = 0 - (n as i64);
                Some(m as i32)
            },
            None => None,
        }
    } else {
        match parse_uint_chars(v, 10, 0x7fff_ffff) {
            Some(n) => Some(n as i32),
            None => None,
        }
    }
}

/// Reads the paranoid level from the contents of
/// `/proc/sys/kernel/perf_event_paranoid`, or the message of the failure
/// to read it.
pub fn read_perf_event_paranoid(content: &Result<String, String>) -> (r: Result<i32, PrivilegeError>)
    ensures
        match result_view(*content) {
            Err(m) => r matches Err(PrivilegeError::ParanoidReadError(x)) && x@ == m,
            Ok(c) => match parse_i32_spec(trim(c)) {
                Some(p) => r == Ok::<i32, PrivilegeError>(p),
                None => r matches Err(PrivilegeError::InvalidParanoidValue(x)) && x@ == trim(c),
            },
        },
{
    match content {
        Err(m) => Err(PrivilegeError::ParanoidReadError(string_of(m.as_str()))),
        Ok(c) => {
            let chars = str_to_chars(c.as_str());
            let t = trim_chars(chars.as_slice());
            match parse_i32_chars(t.as_slice()) {
                Some(p) => Ok(p),
                None => Err(PrivilegeError::InvalidParanoidValue(chars_to_string(t.as_slice()))),
            }
        },
    }
}

/// The level that identity, capabilities and the paranoid setting give.
/// Root or either capability: full up to paranoid 1, limited above.
/// Otherwise: full at -1, none from 4, limited else.
pub open spec fn privilege_level_spec(
    is_root: bool,
    has_perfmon: bool,
    has_sys_admin: bool,
    paranoid: i32,
) -> PrivilegeLevel {
    if is_root || has_perfmon || has_sys_admin {
        if paranoid <= 1 {
            PrivilegeLevel::Full
        } else {
            PrivilegeLevel::Limited
        }
    } else {
        if paranoid == -1 {
            PrivilegeLevel::Full
        } else if paranoid >= 4 {
            PrivilegeLevel::NoAccess
        } else {
            PrivilegeLevel::Limited
        }
    }
}

/// The privilege level for the given facts.
pub fn classify_privilege(is_root: bool, has_perfmon: bool, has_sys_admin: bool, paranoid: i32) -> (r: PrivilegeLevel)
    ensures
        r == privilege_level_spec(is_root, has_perfmon, has_sys_admin, paranoid),
{
    if is_root || has_perfmon || has_sys_admin {
        if paranoid <= 1 {
            PrivilegeLevel::Full
        } else {
            PrivilegeLevel::Limited
        }
    } else {
        if paranoid == -1 {
            PrivilegeLevel::Full
        } else if paranoid >= 0 && paranoid <= 3 {
            PrivilegeLevel::Limited
        } else if paranoid >= 4 {
            PrivilegeLevel::NoAccess
        } else {
            PrivilegeLevel::Limited
        }
    }
}

/// The privilege level of the current user: whether it is root, the
/// contents of `/proc/self/status` and of the paranoid setting (or the
/// messages of the failures to read them). The capabilities are checked
/// first, then the setting; the first failure is returned.
pub fn check_privilege(
    is_root: bool,
    status: &Result<String, String>,
    paranoid_content: &Result<String, String>,
) -> (r: Result<PrivilegeLevel, PrivilegeError>)
    ensures
        match (
            cap_check(is_root, result_view(*status), CAP_PERFMON),
            cap_check(is_root, result_view(*status), CAP_SYS_ADMIN),
        ) {
            (Err(m), _) => r matches Err(PrivilegeError::CapabilityCheckFailed(x)) && x@ == m,
            (Ok(_), Err(m)) => r matches Err(PrivilegeError::CapabilityCheckFailed(x)) && x@ == m,
            (Ok(pm), Ok(sa)) => match result_view(*paranoid_content) {
                Err(m) => r matches Err(PrivilegeError::ParanoidReadError(x)) && x@ == m,
                Ok(c) => match parse_i32_spec(trim(c)) {
                    Some(p) => r == Ok::<PrivilegeLevel, PrivilegeError>(
                        privilege_level_spec(is_root, pm, sa, p),
                    ),
                    None => r matches Err(PrivilegeError::InvalidParanoidValue(x)) && x@ == trim(c),
                },
            },
        },
{
    let has_perfmon = match has_cap_perfmon(is_root, status) {
        Ok(b) => b,
        Err(e) => {
            return Err(e);
        },
    };
    let has_sys_admin = match has_cap_sys_admin(is_root, status) {
        Ok(b) => b,
        Err(e) => {
            return Err(e);
        },
    };
    let paranoid = match read_perf_event_paranoid(paranoid_content) {
        Ok(p) => p,
        Err(e) => {
            return Err(e);
        },
    };
    Ok(classify_privilege(is_root, has_perfmon, has_sys_admin, paranoid))
}

/// System-wide profiling is granted only where the setting is at most 0 or
/// the user is root or holds `CAP_PERFMON` or `CAP_SYS_ADMIN`; and whoever
/// may profile system-wide may profile.
pub proof fn lemma_system_wide_needs_privilege(
    is_root: bool,
    has_perfmon: bool,
    has_sys_admin: bool,
    paranoid: i32,
)
    ensures
        privilege_level_spec(is_root, has_perfmon, has_sys_admin, paranoid) == PrivilegeLevel::Full
            ==> paranoid <= 0 || is_root || has_perfmon || has_sys_admin,
        privilege_level_spec(is_root, has_perfmon, has_sys_admin, paranoid) == PrivilegeLevel::Full
            ==> privilege_level_spec(is_root, has_perfmon, has_sys_admin, paranoid)
            != PrivilegeLevel::NoAccess,
{
}

/// The rank of a level: none below limited below full.
pub open spec fn level_rank(l: PrivilegeLevel) -> int {
    match l {
        PrivilegeLevel::NoAccess => 0,
        PrivilegeLevel::Limited => 1,
        PrivilegeLevel::Full => 2,
    }
}

/// Being root or holding a capability never lowers the level that a
/// paranoid setting gives.
pub proof fn lemma_privilege_monotone(paranoid: i32)
    ensures
        level_rank(privilege_level_spec(true, false, false, paranoid)) >= level_rank(
            privilege_level_spec(false, false, false, paranoid),
        ),
{
}

/// Full access needs a paranoid setting of at most 1 with root or a
/// capability, or of -1 for anyone; with root or a capability, a setting
/// of 2 or more gives limited access; no access is given only without
/// privileges, from a setting of 4 on; every other case is limited.
pub proof fn lemma_privilege_levels(is_root: bool, has_perfmon: bool, has_sys_admin: bool, paranoid: i32)
    ensures
        ({
            let l = privilege_level_spec(is_root, has_perfmon, has_sys_admin, paranoid);
            let privileged = is_root || has_perfmon || has_sys_admin;
            &&& l == PrivilegeLevel::Full <==> (privileged && paranoid <= 1) || paranoid == -1
            &&& privileged && paranoid >= 2 ==> l == PrivilegeLevel::Limited
            &&& l == PrivilegeLevel::NoAccess <==> !privileged && paranoid >= 4
            &&& (l == PrivilegeLevel::Limited <==> !(l == PrivilegeLevel::Full) && !(l
                == PrivilegeLevel::NoAccess))
        }),
{
}

} // verus!
