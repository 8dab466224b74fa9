use perf_rs::error::{PerfError, UnwindError};

#[test]
fn test_unwind_error_display() {
    assert_eq!(
        UnwindError::NoEhFrame { address: 0x1234 }.to_string(),
        "No unwind information found for address 0x1234"
    );
    assert_eq!(
        UnwindError::InvalidCfi { message: "bad CFI".to_string() }.to_string(),
        "Invalid CFI data: bad CFI"
    );
    assert_eq!(
        UnwindError::StackReadFailed { address: 0xabcd }.to_string(),
        "Failed to read stack at address 0xabcd"
    );
    assert_eq!(
        UnwindError::MaxDepthExceeded { depth: 100 }.to_string(),
        "Stack unwinding exceeded maximum depth of 100"
    );
    assert_eq!(
        UnwindError::BinaryNotFound { path: "/usr/bin/test".to_string() }.to_string(),
        "Binary file not found: /usr/bin/test"
    );
    assert_eq!(
        UnwindError::RegisterNotFound { register: 7 }.to_string(),
        "Register value not available: 7"
    );
}

#[test]
fn test_unwind_error_into_perf_error() {
    let unwind_err = UnwindError::MaxDepthExceeded { depth: 50 };
    let perf_err: PerfError = unwind_err.into();
    assert!(matches!(perf_err, PerfError::Unwind(_)));
    assert!(perf_err.to_string().contains("maximum depth"));
}

#[test]
fn perf_error_messages() {
    assert_eq!(
        PerfError::SignalSend { pid: -3, source: "x".to_string() }.to_string(),
        "Failed to send signal to process -3: x"
    );
    assert_eq!(
        PerfError::CpuOutOfRange { cpu_id: 9, max_cpu: 3 }.to_string(),
        "CPU 9 out of range (max: 3)"
    );
    assert_eq!(
        PerfError::InvalidCpuList { message: "empty CPU list".to_string() }.to_string(),
        "Invalid CPU list: empty CPU list"
    );
}
