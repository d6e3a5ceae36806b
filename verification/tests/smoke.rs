use learnme::logging::log_call;

#[test]
fn smoke() {
    assert!(true);
}

#[test]
fn log_call_prefixes_the_command() {
    assert_eq!(log_call("cmd_list"), "\x1b[36m[IPC →]\x1b[0m cmd_list");
}

