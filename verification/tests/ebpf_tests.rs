use telemetry::ebpf::try_read_syscall_freq;

#[test]
fn syscall_freq_feed_is_absent() {
    // The no-op fallback always reports the optional kernel-tracing feed as
    // absent, so the rest of the pipeline must run without it.
    assert!(try_read_syscall_freq().is_none());
}
