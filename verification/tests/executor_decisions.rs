use system_info_exporter::executor::{
    build_shell_command, device_query_args, find_nvidia_smi, interpret_direct_exit,
    interpret_wrapper_exit, needs_library_override, nvidia_driver_version_path, nvidia_smi_paths,
    poll_decision, timeout_argument, workload_query_args, ExecOutcome, PollAction,
    NVIDIA_SMI_TIMEOUT_SECS, POLL_INTERVAL_MS, TIMEOUT_EXIT_CODE,
};

#[test]
fn candidate_paths_prefer_container_over_host() {
    let paths = nvidia_smi_paths();
    assert_eq!(paths.len(), 3);
    assert_eq!(paths[0], "/usr/bin/nvidia-smi");
    assert_eq!(paths[1], "/usr/local/bin/nvidia-smi");
    assert_eq!(paths[2], "/host/usr/bin/nvidia-smi");
}

#[test]
fn first_existing_candidate_wins() {
    let paths = nvidia_smi_paths();
    assert_eq!(find_nvidia_smi(&paths, &vec![false, true, true]), Some(1));
    assert_eq!(find_nvidia_smi(&paths, &vec![true, false, false]), Some(0));
    assert_eq!(find_nvidia_smi(&paths, &vec![false, false, true]), Some(2));
    assert_eq!(find_nvidia_smi(&paths, &vec![false, false, false]), None);
}

#[test]
fn driver_evidence_path_is_host_mounted() {
    assert_eq!(nvidia_driver_version_path(), "/host/proc/driver/nvidia/version");
}

#[test]
fn library_override_only_for_host_mounted_binaries() {
    assert!(needs_library_override("/host/usr/bin/nvidia-smi"));
    assert!(!needs_library_override("/usr/bin/nvidia-smi"));
}

#[test]
fn timeout_argument_names_the_budget() {
    assert_eq!(NVIDIA_SMI_TIMEOUT_SECS, 5);
    assert_eq!(timeout_argument(), "5s");
}

#[test]
fn shell_command_for_container_binary() {
    let cmd = build_shell_command("/usr/bin/nvidia-smi", &device_query_args());
    assert_eq!(
        cmd,
        "/usr/bin/nvidia-smi --query-gpu=index,name,uuid,memory.total,memory.used,memory.free,utilization.gpu,temperature.gpu,power.draw,power.limit --format=csv,noheader,nounits"
    );
}

#[test]
fn shell_command_for_host_binary_adds_library_override() {
    let cmd = build_shell_command("/host/usr/bin/nvidia-smi", &workload_query_args());
    assert_eq!(
        cmd,
        "LD_LIBRARY_PATH=/host/nvidia-libs:/usr/lib/x86_64-linux-gnu:/usr/lib /host/usr/bin/nvidia-smi --query-compute-apps=gpu_uuid --format=csv,noheader"
    );
}

#[test]
fn wrapper_success_passes_stdout_through() {
    let r = interpret_wrapper_exit(true, Some(0), String::from("out"), String::new());
    match r {
        ExecOutcome::Success(s) => assert_eq!(s, "out"),
        other => panic!("expected success, got {:?}", other),
    }
}

#[test]
fn wrapper_reserved_code_means_timeout() {
    assert_eq!(TIMEOUT_EXIT_CODE, 124);
    let r = interpret_wrapper_exit(false, Some(124), String::new(), String::new());
    assert!(matches!(r, ExecOutcome::TimedOut));
}

#[test]
fn wrapper_other_failure_keeps_diagnostics() {
    let r = interpret_wrapper_exit(false, Some(2), String::from("o"), String::from("e"));
    match r {
        ExecOutcome::Failed { exit_code, stdout, stderr } => {
            assert_eq!(exit_code, 2);
            assert_eq!(stdout, "o");
            assert_eq!(stderr, "e");
        },
        other => panic!("expected failure, got {:?}", other),
    }
}

#[test]
fn killed_child_reports_minus_one() {
    let r = interpret_wrapper_exit(false, None, String::new(), String::from("signal"));
    match r {
        ExecOutcome::Failed { exit_code, .. } => assert_eq!(exit_code, -1),
        other => panic!("expected failure, got {:?}", other),
    }
}

#[test]
fn direct_exit_has_no_reserved_code() {
    let r = interpret_direct_exit(false, Some(124), String::new(), String::new());
    assert!(matches!(r, ExecOutcome::Failed { exit_code: 124, .. }));
}

#[test]
fn library_dirs_prefer_host_mount() {
    let dirs = system_info_exporter::executor::nvml_library_dirs();
    assert_eq!(dirs, vec!["/host/nvidia-libs", "/usr/lib/x86_64-linux-gnu", "/usr/lib"]);
}

#[test]
fn library_path_prepending() {
    assert_eq!(system_info_exporter::executor::prepend_library_path("/a", ""), "/a");
    assert_eq!(
        system_info_exporter::executor::prepend_library_path("/a", "/b:/c"),
        "/a:/b:/c"
    );
}

#[test]
fn poll_reaps_exited_child() {
    assert_eq!(poll_decision(true, 0), PollAction::Reap);
    assert_eq!(poll_decision(true, 999_999), PollAction::Reap);
}

#[test]
fn poll_kills_only_past_the_budget() {
    assert_eq!(POLL_INTERVAL_MS, 100);
    assert_eq!(poll_decision(false, NVIDIA_SMI_TIMEOUT_SECS * 1000), PollAction::SleepAndRetry);
    assert_eq!(
        poll_decision(false, NVIDIA_SMI_TIMEOUT_SECS * 1000 + 1),
        PollAction::KillAndReport
    );
}
