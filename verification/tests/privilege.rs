use perf_rs::perf_core::privilege::{
    check_privilege, classify_privilege, effective_capabilities, has_cap_perfmon, has_cap_sys_admin,
    read_perf_event_paranoid, PrivilegeError, PrivilegeLevel,
};

#[test]
fn test_privilege_level_can_profile() {
    assert!(PrivilegeLevel::Full.can_profile());
    assert!(PrivilegeLevel::Limited.can_profile());
    assert!(!PrivilegeLevel::NoAccess.can_profile());
}

#[test]
fn test_can_profile_system_wide_full() {
    assert!(PrivilegeLevel::Full.can_profile_system_wide());
}

#[test]
fn test_can_profile_system_wide_limited() {
    assert!(!PrivilegeLevel::Limited.can_profile_system_wide());
}

#[test]
fn test_can_profile_system_wide_none() {
    assert!(!PrivilegeLevel::NoAccess.can_profile_system_wide());
}

const STATUS_NO_CAPS: &str = "Name:\tcat\nCapInh:\t0000000000000000\nCapEff:\t0000000000000000\n";
const STATUS_PERFMON: &str = "Name:\tperf\nCapEff:\t0000004000000000\n";
const STATUS_SYS_ADMIN: &str = "CapEff: 0000000000200000\r\n";

#[test]
fn test_check_privilege() {
    let result = check_privilege(false, &Ok(STATUS_NO_CAPS.to_string()), &Ok("2\n".to_string()));
    assert!(result.is_ok());
    assert_eq!(result.unwrap(), PrivilegeLevel::Limited);
}

#[test]
fn test_read_perf_event_paranoid() {
    let result = read_perf_event_paranoid(&Ok("2\n".to_string()));
    assert!(result.is_ok());
    let value = result.unwrap();
    assert!(value >= -1 && value <= 10);
}

#[test]
fn paranoid_values() {
    assert_eq!(read_perf_event_paranoid(&Ok(" -1 \n".to_string())).unwrap(), -1);
    assert_eq!(read_perf_event_paranoid(&Ok("+3".to_string())).unwrap(), 3);
    assert_eq!(
        read_perf_event_paranoid(&Ok("x1\n".to_string())).unwrap_err(),
        PrivilegeError::InvalidParanoidValue("x1".to_string())
    );
    assert_eq!(
        read_perf_event_paranoid(&Err("No such file".to_string())).unwrap_err().to_string(),
        "Failed to read perf_event_paranoid: No such file"
    );
    assert!(read_perf_event_paranoid(&Ok("-2147483648".to_string())).is_ok());
    assert!(read_perf_event_paranoid(&Ok("2147483648".to_string())).is_err());
    assert!(read_perf_event_paranoid(&Ok("-".to_string())).is_err());
}

#[test]
fn capabilities_from_status() {
    assert_eq!(effective_capabilities(STATUS_PERFMON), Some(0x40_0000_0000));
    assert_eq!(effective_capabilities("Name: x\n"), None);
    assert_eq!(effective_capabilities("CapEff: zz\nCapEff: 1\n"), Some(1));
    assert!(has_cap_perfmon(false, &Ok(STATUS_PERFMON.to_string())).unwrap());
    assert!(!has_cap_sys_admin(false, &Ok(STATUS_PERFMON.to_string())).unwrap());
    assert!(has_cap_sys_admin(false, &Ok(STATUS_SYS_ADMIN.to_string())).unwrap());
    assert!(has_cap_perfmon(true, &Err("unreadable".to_string())).unwrap());
    assert_eq!(
        has_cap_perfmon(false, &Err("unreadable".to_string())).unwrap_err().to_string(),
        "Capability check failed: Failed to read /proc/self/status: unreadable"
    );
}

#[test]
fn privilege_table() {
    for p in [-1, 0, 1] {
        assert_eq!(classify_privilege(true, false, false, p), PrivilegeLevel::Full);
        assert_eq!(classify_privilege(false, true, false, p), PrivilegeLevel::Full);
    }
    assert_eq!(classify_privilege(true, false, false, 2), PrivilegeLevel::Limited);
    assert_eq!(classify_privilege(true, false, false, -5), PrivilegeLevel::Full);
    assert_eq!(classify_privilege(false, false, true, -2), PrivilegeLevel::Full);
    assert_eq!(classify_privilege(false, false, true, 4), PrivilegeLevel::Limited);
    assert_eq!(classify_privilege(false, false, false, -1), PrivilegeLevel::Full);
    assert_eq!(classify_privilege(false, false, false, 0), PrivilegeLevel::Limited);
    assert_eq!(classify_privilege(false, false, false, 3), PrivilegeLevel::Limited);
    assert_eq!(classify_privilege(false, false, false, 4), PrivilegeLevel::NoAccess);
    assert_eq!(classify_privilege(false, false, false, -5), PrivilegeLevel::Limited);
    assert_eq!(
        check_privilege(false, &Ok(STATUS_PERFMON.to_string()), &Ok("1".to_string())).unwrap(),
        PrivilegeLevel::Full
    );
}

#[test]
fn suggestions_per_level() {
    assert_eq!(PrivilegeLevel::Full.suggestions(), vec!["You have full perf access. No action needed."]);
    assert_eq!(PrivilegeLevel::Limited.suggestions().len(), 4);
    let none = PrivilegeLevel::NoAccess.suggestions();
    assert_eq!(none.len(), 7);
    assert_eq!(none[0], "To enable perf access, choose one of the following:");
}
