use clashr::ipc::{CoreState, LAUNCHD_LABEL, LAUNCHD_PLIST_PATH};
use clashr::manager::{
    activation_action, ActivationAction, binary_missing_message, geodata_copy_target, geodata_sources, ipc_state_to_status, shared_config_path,
    CoreLifecycle, CoreStatus, ReloadDecision, StartDecision,
};
use clashr::process::{check_not_running, check_runtime_config, mihomo_args, service_core_args, CoreEvent};
use clashr::service_install::{
    admin_outcome, admin_script, install_with_admin_prompt, is_service_installed, is_service_running,
    uninstall_with_admin_prompt,
};
use clashr::service_setup::{
    chown_to_admin_group, install, install_commands, install_step_failure, is_installed, launchd_plist,
    parse_command, require_root, status_line, uninstall, uninstall_command, usage_line, ServiceCommand,
};

#[test]
fn plist_names_label_and_binary() {
    let p = launchd_plist("/Applications/ClashR.app/Contents/MacOS/clashr-service");
    assert!(p.starts_with("<?xml version=\"1.0\" encoding=\"UTF-8\"?>\n"));
    assert!(p.contains(&format!("<key>Label</key>\n    <string>{}</string>", LAUNCHD_LABEL)));
    assert!(p.contains("<string>/Applications/ClashR.app/Contents/MacOS/clashr-service</string>\n        <string>run</string>"));
    assert!(p.contains("<key>KeepAlive</key>\n    <true/>"));
    assert!(p.contains("<string>/var/log/clashr-service.err.log</string>"));
    assert!(p.ends_with("</dict>\n</plist>\n"));
}

#[test]
fn install_requires_root() {
    assert!(require_root(0).is_ok());
    assert_eq!(require_root(501), Err("must run as root (current euid=501)".to_string()));
}

#[test]
fn install_steps_in_order() {
    let c = install_commands();
    assert_eq!(c.len(), 3);
    assert_eq!(c[0], vec!["chown".to_string(), "root:wheel".to_string(), LAUNCHD_PLIST_PATH.to_string()]);
    assert_eq!(c[1], vec!["chmod".to_string(), "644".to_string(), LAUNCHD_PLIST_PATH.to_string()]);
    assert_eq!(c[2], vec!["launchctl".to_string(), "load".to_string(), "-w".to_string(), LAUNCHD_PLIST_PATH.to_string()]);
    assert_eq!(uninstall_command(), vec!["launchctl".to_string(), "unload".to_string(), "-w".to_string(), LAUNCHD_PLIST_PATH.to_string()]);
}

#[test]
fn install_step_failure_messages() {
    assert_eq!(install_step_failure(0, Some(1)), "chown plist failed");
    assert_eq!(install_step_failure(1, None), "chmod plist failed");
    assert_eq!(install_step_failure(2, Some(5)), "launchctl load failed (exit Some(5))");
    assert_eq!(install_step_failure(2, None), "launchctl load failed (exit None)");
    assert_eq!(install_step_failure(2, Some(-3)), "launchctl load failed (exit Some(-3))");
}

#[test]
fn install_off_macos_is_unsupported() {
    assert_eq!(install(), Err("install is not implemented on this platform yet".to_string()));
    assert_eq!(uninstall(), Err("uninstall is not implemented on this platform yet".to_string()));
    assert!(!is_installed());
    assert!(chown_to_admin_group("/var/run/clashr/clashr-service.sock").is_ok());
}

#[test]
fn service_command_line() {
    assert_eq!(parse_command(None), ServiceCommand::Run);
    assert_eq!(parse_command(Some("run")), ServiceCommand::Run);
    assert_eq!(parse_command(Some("install")), ServiceCommand::Install);
    assert_eq!(parse_command(Some("uninstall")), ServiceCommand::Uninstall);
    assert_eq!(parse_command(Some("status")), ServiceCommand::Status);
    assert_eq!(parse_command(Some("bogus")), ServiceCommand::Unknown("bogus".to_string()));
    assert_eq!(status_line(true), "installed");
    assert_eq!(status_line(false), "not installed");
    assert_eq!(usage_line(), "usage: clashr-service [run|install|uninstall|status]");
}

#[test]
fn admin_script_quotes_binary() {
    assert_eq!(
        admin_script("/Apps/My App/clashr-service", "install"),
        "do shell script \"'/Apps/My App/clashr-service' install\" with administrator privileges with prompt \"ClashR needs admin privileges to install its helper service.\""
    );
}

#[test]
fn admin_outcome_reports_cancel_and_failure() {
    assert!(admin_outcome(true, "", "install").is_ok());
    assert_eq!(
        admin_outcome(false, "execution error: User canceled. (-128)", "install"),
        Err("user cancelled".to_string())
    );
    assert_eq!(
        admin_outcome(false, "permission denied", "uninstall"),
        Err("uninstall failed: permission denied".to_string())
    );
}

#[test]
fn admin_prompt_off_macos_is_unsupported() {
    assert_eq!(install_with_admin_prompt(), Err("service install is only implemented on macOS for now".to_string()));
    assert_eq!(uninstall_with_admin_prompt(), Err("service uninstall is only implemented on macOS for now".to_string()));
    assert!(!is_service_installed());
    assert!(is_service_running(true));
    assert!(!is_service_running(false));
}

#[test]
fn core_arguments() {
    assert_eq!(
        mihomo_args("/data", "/data/runtime.yaml"),
        vec!["-d".to_string(), "/data".to_string(), "-f".to_string(), "/data/runtime.yaml".to_string()]
    );
}

#[test]
fn service_runs_core_in_config_folder() {
    assert_eq!(
        service_core_args("/tmp/clashr/runtime.yaml"),
        vec!["-d".to_string(), "/tmp/clashr".to_string(), "-f".to_string(), "/tmp/clashr/runtime.yaml".to_string()]
    );
    assert_eq!(
        service_core_args("/"),
        vec!["-d".to_string(), ".".to_string(), "-f".to_string(), "/".to_string()]
    );
}

#[test]
fn start_prechecks() {
    assert!(check_runtime_config(true).is_ok());
    assert_eq!(check_runtime_config(false), Err("runtime.yaml not found: activate a profile first".to_string()));
    assert!(check_not_running(false).is_ok());
    assert_eq!(check_not_running(true), Err("core is already running".to_string()));
    let e = CoreEvent::Log { line: "x".to_string(), is_stderr: true };
    assert!(matches!(e, CoreEvent::Log { is_stderr: true, .. }));
}

#[test]
fn direct_start_then_exit_is_failure() {
    let mut m = CoreLifecycle::new();
    assert!(matches!(m.status(), CoreStatus::Stopped));
    assert_eq!(m.begin_direct_start(true), StartDecision::Spawn);
    assert!(matches!(m.status(), CoreStatus::Starting));
    assert_eq!(m.begin_direct_start(true), StartDecision::AlreadyUp);
    m.finish_direct_start(Ok(77));
    assert!(matches!(m.status(), CoreStatus::Running { pid: 77 }));
    assert_eq!(m.reload_decision(), ReloadDecision::HotReload);
    m.mark_exited(Some(2));
    match m.status() {
        CoreStatus::Failed { reason } => assert_eq!(reason, "mihomo exited unexpectedly (code=Some(2))"),
        other => panic!("unexpected {:?}", other),
    }
    assert_eq!(m.reload_decision(), ReloadDecision::Start);
}

#[test]
fn missing_binary_keeps_status() {
    let mut m = CoreLifecycle::new();
    assert_eq!(m.begin_direct_start(false), StartDecision::BinaryMissing);
    assert!(matches!(m.status(), CoreStatus::Stopped));
    assert!(binary_missing_message().starts_with("mihomo binary not found."));
}

#[test]
fn exit_while_stopping_is_clean() {
    let mut m = CoreLifecycle::new();
    m.begin_service_start();
    m.finish_service_start(Ok(CoreState::Running { pid: 3 }));
    assert!(matches!(m.status(), CoreStatus::Running { pid: 3 }));
    m.mark_stopped();
    m.mark_exited(None);
    assert!(matches!(m.status(), CoreStatus::Stopped));
    m.finish_service_start(Err("connect failed".to_string()));
    match m.status() {
        CoreStatus::Failed { reason } => assert_eq!(reason, "connect failed"),
        other => panic!("unexpected {:?}", other),
    }
}

#[test]
fn wire_state_maps_to_status() {
    assert!(matches!(ipc_state_to_status(CoreState::Stopping), CoreStatus::Stopping));
    match ipc_state_to_status(CoreState::Failed { reason: "r".to_string() }) {
        CoreStatus::Failed { reason } => assert_eq!(reason, "r"),
        other => panic!("unexpected {:?}", other),
    }
}

#[test]
fn geodata_is_copied_to_shared_folder() {
    assert_eq!(shared_config_path(), "/tmp/clashr/runtime.yaml");
    assert_eq!(geodata_copy_target("/data/geoip.metadb"), Some("/tmp/clashr/geoip.metadb".to_string()));
    assert_eq!(geodata_copy_target("/data/GeoSite.dat"), Some("/tmp/clashr/GeoSite.dat".to_string()));
    assert_eq!(geodata_copy_target("/data/Country.mmdb"), Some("/tmp/clashr/Country.mmdb".to_string()));
    assert_eq!(geodata_copy_target("/data/runtime.yaml"), None);
    assert_eq!(geodata_copy_target("/data/noext"), None);
    assert_eq!(
        geodata_sources("/data", &Some("/home/u/.local/share".to_string())),
        vec!["/data".to_string(), "/home/u/.local/share/io.github.clash-verge-rev.clash-verge-rev".to_string()]
    );
    assert_eq!(geodata_sources("/data", &None), vec!["/data".to_string()]);
}

#[test]
fn downloaded_profile_starts_or_restarts() {
    assert_eq!(activation_action(&CoreStatus::Stopped), ActivationAction::Start);
    assert_eq!(activation_action(&CoreStatus::Failed { reason: "x".to_string() }), ActivationAction::Start);
    assert_eq!(activation_action(&CoreStatus::Running { pid: 1 }), ActivationAction::Restart);
    assert_eq!(activation_action(&CoreStatus::Starting), ActivationAction::Restart);
}
