use sidecar_core::registry::parse_process_row;
use sidecar_core::kind::ConfigKind;
use sidecar_core::logs::{archive_name, is_log_file_name, newest_files, EXPORTED_LOGS};
use sidecar_core::port::{lsof_port_arg, pids_in_listing};

#[test]
fn config_kinds_name_their_files() {
    assert_eq!(ConfigKind::all(), vec![ConfigKind::Tools, ConfigKind::Agents]);
    assert_eq!(ConfigKind::Tools.user_relative_path(), "Config/mcp.config.json");
    assert_eq!(ConfigKind::Agents.user_relative_path(), "Config/agent.config.json");
    assert_eq!(ConfigKind::Agents.template_relative_path(), "resources/agent.config.json");
    assert_eq!(ConfigKind::Tools.entries_field(), "mcpServers");
    assert_eq!(ConfigKind::Agents.entries_field(), "agents");
    assert_eq!(ConfigKind::Tools.origin_key(), "aiden_type");
    assert_eq!(ConfigKind::Agents.origin_key(), "source");
    assert_eq!(ConfigKind::Tools.system_tag(), "default");
    assert_eq!(ConfigKind::Agents.system_tag(), "builtIn");
    assert!(ConfigKind::Tools.entries_are_keyed());
    assert!(!ConfigKind::Agents.entries_are_keyed());
}

#[test]
fn lsof_listing_gives_trimmed_pids() {
    assert_eq!(lsof_port_arg(8080), ":8080");
    assert_eq!(pids_in_listing("123\n 456 \n\n   \n789"), vec!["123", "456", "789"]);
    assert_eq!(pids_in_listing("12\r\n"), vec!["12"]);
    assert!(pids_in_listing("").is_empty());
    assert!(pids_in_listing("\n \t\n").is_empty());
}

#[test]
fn log_file_names() {
    assert!(is_log_file_name("aiden.log"));
    assert!(is_log_file_name("a.b.log"));
    assert!(!is_log_file_name(".log"));
    assert!(!is_log_file_name("aiden.log.1"));
    assert!(!is_log_file_name("aiden.txt"));
}

#[test]
fn archive_name_has_no_colons() {
    assert_eq!(
        archive_name("2024-05-01T10:20:30Z"),
        "aiden-logs-2024-05-01T10-20-30Z.zip"
    );
    assert_eq!(archive_name("log"), "aiden-logs-log.zip");
}

#[test]
fn newest_logs_are_picked() {
    let picked = newest_files(&vec![10, 50, 30, 40, 20], EXPORTED_LOGS);
    assert_eq!(picked, vec![1, 3, 2]);
    assert_eq!(newest_files(&vec![5, 9], 3), vec![1, 0]);
    assert!(newest_files(&vec![], 3).is_empty());
    assert!(newest_files(&vec![1, 2, 3], 0).is_empty());
    let ties = newest_files(&vec![7, 7, 7, 7], 3);
    assert_eq!(ties.len(), 3);
}

#[test]
fn process_rows_are_read() {
    let r = parse_process_row("  4242 /opt/app/host_server_linux --port 6888").unwrap();
    assert_eq!(r.pid, 4242);
    assert_eq!(r.command, "/opt/app/host_server_linux --port 6888");
    let r = parse_process_row("7").unwrap();
    assert_eq!((r.pid, r.command.as_str()), (7, ""));
    assert!(parse_process_row("abc def").is_none());
    assert!(parse_process_row("").is_none());
    assert!(parse_process_row("12x y").is_none());
    assert!(parse_process_row("99999999999 big").is_none());
    assert_eq!(parse_process_row("4294967295 max").unwrap().pid, u32::MAX);
}
