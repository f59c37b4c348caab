use antidebug::engine::signal_compat::{tracer_pid_from_status, SignalCompat};

const STATUS: &str = "Name:\tantidebug\nState:\tR (running)\nPPid:\t4321\nTracerPid:\t0\nUid:\t1000\n";

#[test]
fn test_tracer_detection() {
    // When running tests normally, no tracer should be attached
    let mut compat = SignalCompat::new();
    let pid = compat.get_tracer_pid(|| tracer_pid_from_status(STATUS));
    println!("TracerPid: {}", pid);
}

#[test]
fn test_compat_mode_toggle() {
    let mut compat = SignalCompat::new();
    assert!(!compat.is_gdb_compat_mode());
    compat.enable_gdb_compat_mode();
    assert!(compat.is_gdb_compat_mode());
}

#[test]
fn tracer_pid_is_read_from_status() {
    assert_eq!(tracer_pid_from_status(STATUS), 0);
    assert_eq!(tracer_pid_from_status("Name:\tx\nTracerPid:\t12345\n"), 12345);
    assert_eq!(tracer_pid_from_status("TracerPid:  +7\r\n"), 7);
    assert_eq!(tracer_pid_from_status("TracerPid:\t99999999999\n"), 0);
    assert_eq!(tracer_pid_from_status("TracerPid:\tabc\n"), 0);
    assert_eq!(tracer_pid_from_status(""), 0);
    // a tag line without a value does not decide; a later one does
    assert_eq!(tracer_pid_from_status("TracerPid:\nTracerPid:\t5\n"), 5);
    // the tag must open the line
    assert_eq!(tracer_pid_from_status("Name:\tTracerPid:\t5\n"), 0);
}

#[test]
fn tracer_pid_is_cached_until_invalidated() {
    let mut compat = SignalCompat::new();
    assert_eq!(compat.get_tracer_pid(|| 12345), 12345);
    assert_eq!(compat.get_tracer_pid(|| 7), 12345);
    assert!(compat.has_tracer(|| 0));
    compat.invalidate_tracer_cache();
    assert_eq!(compat.get_tracer_pid(|| 0), 0);
    assert!(!compat.has_tracer(|| 99));
}
