use sidecar_core::fetch::{
    chunk_payload, error_events, fetch_response, network_error_response, next_request_id,
    received_response, sends_body,
};
use sidecar_core::launch::{
    binary_name, binary_relative_path, path_from_env_listing, sidecar_args, sidecar_path, Platform,
};
use sidecar_core::port::{choose_port, PortError, DEV_PORT};
use sidecar_core::readiness::{is_ready_line, port_text, readiness_marker, LineOutcome, ReadinessWatcher};
use sidecar_core::registry::{orphan_pids, stop_steps, ProcessInfo, ProcessRegistry, StopStep};
use sidecar_core::text::{find_text, same_text};

#[test]
fn dev_mode_port_is_fixed() {
    assert_eq!(choose_port(true, None), Ok(6888));
    assert_eq!(choose_port(true, Some(40000)), Ok(DEV_PORT));
    assert_eq!(choose_port(false, Some(40000)), Ok(40000));
    assert_eq!(choose_port(false, None), Err(PortError::Exhausted));
}

#[test]
fn port_text_is_decimal() {
    assert_eq!(port_text(0), "0");
    assert_eq!(port_text(7), "7");
    assert_eq!(port_text(6888), "6888");
    assert_eq!(port_text(65535), "65535");
    assert_eq!(port_text(10), "10");
}

#[test]
fn readiness_line_needs_prefix_and_exact_port() {
    let m = readiness_marker(6888);
    assert_eq!(m, "Host server is ready on port 6888");
    assert!(is_ready_line("INFO Host server is ready on port 6888", 6888));
    assert!(!is_ready_line("INFO Host server is ready on port 6889", 6888));
    assert!(!is_ready_line("6888", 6888));
    assert!(is_ready_line("Host server is ready on port 68880", 6888));
}

#[test]
fn readiness_is_published_once() {
    let mut w = ReadinessWatcher::new(5000);
    assert_eq!(w.on_line("starting"), LineOutcome::LogOnly);
    assert!(!w.is_ready());
    assert_eq!(w.on_line("Host server is ready on port 5000"), LineOutcome::Publish(5000));
    assert!(w.is_ready());
    assert_eq!(w.on_line("Host server is ready on port 5000"), LineOutcome::LogOnly);
    assert_eq!(w.port(), 5000);
}

#[test]
fn sidecar_arguments() {
    let args = sidecar_args("/d/mcp.config.json", "/d/agent.config.json", 6888);
    assert_eq!(
        args,
        vec![
            "--config_file",
            "/d/mcp.config.json",
            "--agent_config_file",
            "/d/agent.config.json",
            "--disable_reload",
            "--enable_authorization",
            "--port",
            "6888",
        ]
    );
}

#[test]
fn binary_paths() {
    assert_eq!(binary_name(Platform::Linux), "host_server_linux");
    assert_eq!(
        binary_relative_path(Platform::MacOs, true),
        "../node_modules/host_server_macos/host_server_macos"
    );
    assert_eq!(
        binary_relative_path(Platform::Windows, false),
        "resources/host_server_windows/host_server_windows"
    );
}

#[test]
fn sidecar_path_prefers_shell_path() {
    assert_eq!(sidecar_path("/app/bin", Some("/a:/b"), Some("/c"), Platform::Linux), "/app/bin:/a:/b");
    assert_eq!(sidecar_path("/app/bin", None, Some("/c"), Platform::MacOs), "/app/bin:/c");
    assert_eq!(sidecar_path("C:\\bin", None, None, Platform::Windows), "C:\\bin;");
}

#[test]
fn path_is_read_from_env_listing() {
    assert_eq!(
        path_from_env_listing("HOME=/u\nPATH=/usr/bin:/bin\nSHELL=/bin/zsh\n"),
        Some("/usr/bin:/bin".to_string())
    );
    assert_eq!(path_from_env_listing("MYPATH=/x\r\nPATH=/y\r\n"), Some("/y".to_string()));
    assert_eq!(path_from_env_listing("PATH=\n"), Some(String::new()));
    assert_eq!(path_from_env_listing("HOME=/u\n"), None);
    assert_eq!(path_from_env_listing(""), None);
    assert_eq!(path_from_env_listing("PATH=/first\nPATH=/second"), Some("/first".to_string()));
}

#[test]
fn registry_holds_one_handle() {
    let mut reg: ProcessRegistry<u32> = ProcessRegistry::new();
    assert!(reg.is_empty());
    assert_eq!(reg.set(1), None);
    assert_eq!(reg.set(2), Some(1));
    assert_eq!(reg.take(), Some(2));
    assert!(reg.is_empty());
    assert_eq!(reg.take(), None);
}

#[test]
fn start_then_stop_leaves_nothing() {
    let mut reg: ProcessRegistry<u32> = ProcessRegistry::new();
    reg.set(42);
    let taken = reg.take();
    assert_eq!(taken, Some(42));
    assert!(reg.is_empty());
    assert_eq!(stop_steps(true), vec![StopStep::Terminate, StopStep::Kill, StopStep::KillOrphans]);
    assert!(stop_steps(false).is_empty());
}

#[test]
fn orphan_sweep_skips_own_process() {
    let table = vec![
        ProcessInfo { pid: 10, command: "/x/host_server_linux --port 1".to_string() },
        ProcessInfo { pid: 11, command: "/usr/bin/bash".to_string() },
        ProcessInfo { pid: 12, command: "grep host_server".to_string() },
        ProcessInfo { pid: 13, command: "host_server_linux".to_string() },
    ];
    assert_eq!(orphan_pids(&table, 12, "host_server"), vec![10, 13]);
    assert_eq!(orphan_pids(&table, 1, "host_server"), vec![10, 12, 13]);
    assert!(orphan_pids(&Vec::new(), 1, "host_server").is_empty());
}

#[test]
fn text_search() {
    assert!(find_text("abcabd", "abd"));
    assert!(!find_text("abcab", "abd"));
    assert!(find_text("abc", ""));
    assert!(!find_text("", "a"));
    assert!(same_text("x", "x"));
    assert!(!same_text("x", "xy"));
}

#[test]
fn request_ids_wrap() {
    let mut c: u32 = 5;
    assert_eq!(next_request_id(&mut c), 5);
    assert_eq!(c, 6);
    let mut c: u32 = u32::MAX;
    assert_eq!(next_request_id(&mut c), u32::MAX);
    assert_eq!(c, 0);
}

#[test]
fn body_only_for_write_methods() {
    assert!(sends_body("POST", 3));
    assert!(sends_body("PUT", 1));
    assert!(sends_body("PATCH", 1));
    assert!(!sends_body("POST", 0));
    assert!(!sends_body("GET", 3));
    assert!(!sends_body("post", 3));
}

#[test]
fn failed_request_reports() {
    let r = network_error_response(9);
    assert_eq!((r.request_id, r.status, r.status_text.as_str()), (9, 599, "Network Error"));
    assert!(r.headers.is_empty());
    let (chunk, end) = error_events(9, "Request failed: x".to_string());
    assert_eq!((chunk.request_id, chunk.chunk.as_str()), (9, "Request failed: x"));
    assert_eq!((end.request_id, end.status), (9, 0));
    let ok = received_response(3, 200, vec![("a".to_string(), "b".to_string())]);
    assert_eq!((ok.status, ok.status_text.as_str(), ok.headers.len()), (200, "OK", 1));
    let f = fetch_response(404, Some("Not Found"), "nope".to_string());
    assert_eq!((f.status, f.status_text.as_str(), f.body.as_str()), (404, "Not Found", "nope"));
    assert_eq!(fetch_response(599, None, String::new()).status_text, "");
}

#[test]
fn chunks_are_text_or_base64() {
    assert_eq!(chunk_payload(1, "héllo".as_bytes()).chunk, "héllo");
    assert_eq!(chunk_payload(1, &[0xff, 0xfe, 0x00]).chunk, "//4A");
    assert_eq!(chunk_payload(2, &[0xc3]).chunk, "ww==");
    assert_eq!(chunk_payload(2, &[]).chunk, "");
}
