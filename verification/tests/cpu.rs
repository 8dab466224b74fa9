use perf_rs::error::PerfError;
use perf_rs::perf_core::cpu::{get_cpu_count, parse_cpu_list, parse_sysfs_cpu_list, validate_cpu_ids};


#[test]
fn test_parse_single_cpu() {
    assert_eq!(parse_cpu_list("0").unwrap(), vec![0]);
    assert_eq!(parse_cpu_list("5").unwrap(), vec![5]);
    assert_eq!(parse_cpu_list("127").unwrap(), vec![127]);
}

#[test]
fn test_parse_cpu_list() {
    assert_eq!(parse_cpu_list("0,2,4").unwrap(), vec![0, 2, 4]);
    assert_eq!(parse_cpu_list("1,3,5,7").unwrap(), vec![1, 3, 5, 7]);
}

#[test]
fn test_parse_cpu_range() {
    assert_eq!(parse_cpu_list("0-3").unwrap(), vec![0, 1, 2, 3]);
    assert_eq!(parse_cpu_list("5-7").unwrap(), vec![5, 6, 7]);
}

#[test]
fn test_parse_mixed() {
    assert_eq!(
        parse_cpu_list("0-2,5,7-9").unwrap(),
        vec![0, 1, 2, 5, 7, 8, 9]
    );
    assert_eq!(parse_cpu_list("1,3-5,8").unwrap(), vec![1, 3, 4, 5, 8]);
}

#[test]
fn test_parse_with_whitespace() {
    assert_eq!(parse_cpu_list(" 0 ").unwrap(), vec![0]);
    assert_eq!(parse_cpu_list("0, 2, 4").unwrap(), vec![0, 2, 4]);
    assert_eq!(parse_cpu_list(" 0 - 3 ").unwrap(), vec![0, 1, 2, 3]);
}

#[test]
fn test_parse_deduplicates() {
    assert_eq!(parse_cpu_list("0,0,0").unwrap(), vec![0]);
    assert_eq!(parse_cpu_list("0-3,1,2").unwrap(), vec![0, 1, 2, 3]);
}

#[test]
fn test_parse_sorts() {
    assert_eq!(parse_cpu_list("3,1,2").unwrap(), vec![1, 2, 3]);
    assert_eq!(parse_cpu_list("5-7,0-2").unwrap(), vec![0, 1, 2, 5, 6, 7]);
}

#[test]
fn test_parse_empty_error() {
    assert!(matches!(
        parse_cpu_list(""),
        Err(PerfError::InvalidCpuList { .. })
    ));
    assert!(matches!(
        parse_cpu_list("   "),
        Err(PerfError::InvalidCpuList { .. })
    ));
}

#[test]
fn test_parse_invalid_syntax_error() {
    assert!(matches!(
        parse_cpu_list("0--3"),
        Err(PerfError::InvalidCpuList { .. })
    ));
    assert!(matches!(
        parse_cpu_list("abc"),
        Err(PerfError::InvalidCpuList { .. })
    ));
    assert!(matches!(
        parse_cpu_list("0,,2"),
        Err(PerfError::InvalidCpuList { .. })
    ));
    assert!(matches!(
        parse_cpu_list("-1"),
        Err(PerfError::InvalidCpuList { .. })
    ));
}

#[test]
fn test_parse_invalid_range_error() {
    assert!(matches!(
        parse_cpu_list("5-3"),
        Err(PerfError::InvalidCpuList { .. })
    ));
}

#[test]
fn test_validate_valid_cpus() {
    assert!(validate_cpu_ids(&[0, 1, 2], 3).is_ok());
    assert!(validate_cpu_ids(&[0], 0).is_ok());
    assert!(validate_cpu_ids(&[], 0).is_ok());
}

#[test]
fn test_validate_out_of_range() {
    assert!(matches!(
        validate_cpu_ids(&[0, 5], 3),
        Err(PerfError::CpuOutOfRange {
            cpu_id: 5,
            max_cpu: 3
        })
    ));
    assert!(matches!(
        validate_cpu_ids(&[10], 7),
        Err(PerfError::CpuOutOfRange {
            cpu_id: 10,
            max_cpu: 7
        })
    ));
}


#[test]
fn test_get_cpu_count() {
    // The online-CPU list of a four-CPU machine.
    let result = get_cpu_count("0-3", "/sys/devices/system/cpu/online");
    assert!(result.is_ok());
    let count = result.unwrap();
    assert!(count > 0);
    assert_eq!(count, 4);
}

#[test]
fn sysfs_cpu_list_forms() {
    let p = "/sys/devices/system/cpu/online";
    assert_eq!(parse_sysfs_cpu_list("0-3,8,10-11", p).unwrap(), vec![0, 1, 2, 3, 8, 10, 11]);
    assert_eq!(parse_sysfs_cpu_list("", p).unwrap(), Vec::<u32>::new());
    assert_eq!(parse_sysfs_cpu_list("3-1", p).unwrap(), Vec::<u32>::new());
    assert_eq!(parse_sysfs_cpu_list("2,,1,2", p).unwrap(), vec![1, 2]);
    let e = parse_sysfs_cpu_list("0-1-2", p).unwrap_err();
    assert_eq!(e.to_string(), "Failed to read file '/sys/devices/system/cpu/online': Invalid CPU range: 0-1-2");
    let e = parse_sysfs_cpu_list("x", p).unwrap_err();
    assert_eq!(e.to_string(), "Failed to read file '/sys/devices/system/cpu/online': invalid digit found in string");
    let e = parse_sysfs_cpu_list("99999999999", p).unwrap_err();
    assert_eq!(
        e.to_string(),
        "Failed to read file '/sys/devices/system/cpu/online': number too large to fit in target type"
    );
}

#[test]
fn cpu_list_error_messages() {
    assert_eq!(parse_cpu_list("").unwrap_err().to_string(), "Invalid CPU list: empty CPU list");
    assert_eq!(
        parse_cpu_list("5-3").unwrap_err().to_string(),
        "Invalid CPU list: invalid range: start (5) > end (3)"
    );
    assert_eq!(
        parse_cpu_list("0,,2").unwrap_err().to_string(),
        "Invalid CPU list: empty CPU identifier in list"
    );
}

#[test]
fn cpu_list_is_a_sorted_set() {
    let v = parse_cpu_list("9,3-5,4,0").unwrap();
    assert_eq!(v, vec![0, 3, 4, 5, 9]);
    for w in v.windows(2) {
        assert!(w[0] < w[1]);
    }
}
