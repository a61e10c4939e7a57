use airlock::error::AirlockError;
use airlock::paths::AirlockPaths;
use airlock::service::{
    launchd_is_running, launchd_load_outcome, launchd_unload_outcome, systemd_is_running,
    systemd_load_outcome, systemd_unload_outcome, ServiceManager,
};

const PLIST_TEMPLATE: &str = "<plist><dict><key>Label</key><string>dev.airlock.daemon</string>\
<key>ProgramArguments</key><array><string>{{DAEMON_PATH}}</string></array>\
<key>StandardOutPath</key><string>{{HOME}}/.airlock/logs/daemon.log</string></dict></plist>";

const UNIT_TEMPLATE: &str = "[Unit]\nDescription=Airlock Daemon\n\n[Service]\nExecStart={{DAEMON_PATH}}\n";

fn manager() -> ServiceManager {
    ServiceManager::with_home_dir("/usr/local/bin/airlockd".to_string(), "/home/test".to_string()).unwrap()
}

#[test]
fn test_service_manager_creation() {
    let daemon_path = "/usr/local/bin/airlockd".to_string();
    let paths = AirlockPaths::with_root("/home/test/.airlock".to_string());
    match ServiceManager::new(daemon_path.clone(), paths) {
        Ok(m) => assert_eq!(m.daemon_path(), &daemon_path),
        Err(e) => panic!("no home directory here: {:?}", e),
    }
}

#[test]
fn test_launchd_plist_path() {
    let plist_path = manager().launchd_plist_path();
    assert!(plist_path.ends_with("Library/LaunchAgents/dev.airlock.daemon.plist"));
}

#[test]
fn test_generate_launchd_plist() {
    let plist = manager().generate_launchd_plist(PLIST_TEMPLATE);
    assert!(plist.contains("/usr/local/bin/airlockd"));
    assert!(plist.contains("dev.airlock.daemon"));
    assert!(!plist.contains("{{DAEMON_PATH}}"));
    assert!(!plist.contains("{{HOME}}"));
    assert!(!plist.contains("{{PATH}}"));
    assert!(plist.contains("/home/test/.airlock/logs/daemon.log"));
}

#[test]
fn test_systemd_unit_path() {
    let unit_path = manager().systemd_unit_path();
    assert!(unit_path.ends_with(".config/systemd/user/airlockd.service"));
    assert_eq!(unit_path, "/home/test/.config/systemd/user/airlockd.service");
}

#[test]
fn test_generate_systemd_unit() {
    let unit = manager().generate_systemd_unit(UNIT_TEMPLATE);
    assert!(unit.contains("/usr/local/bin/airlockd"));
    assert!(unit.contains("Airlock Daemon"));
    assert!(!unit.contains("{{DAEMON_PATH}}"));
    assert!(!unit.contains("{{PATH}}"));
}

#[test]
fn manager_layout() {
    let m = manager();
    assert_eq!(m.paths().root(), "/home/test/.airlock");
    assert_eq!(m.logs_dir(), "/home/test/.airlock/logs");
}

#[test]
fn service_manager_answers() {
    assert!(launchd_load_outcome(true, "").is_ok());
    assert!(launchd_load_outcome(false, "Bootstrap failed: 37: Operation already in progress").is_ok());
    match launchd_load_outcome(false, "denied") {
        Err(AirlockError::ServiceOperation(m)) => assert_eq!(m, "Failed to load service: denied"),
        other => panic!("unexpected {:?}", other),
    }
    assert!(launchd_unload_outcome(false, "Boot-out failed: 3: No such process").is_ok());
    assert!(launchd_unload_outcome(false, "other").is_err());
    assert!(systemd_load_outcome(true, "").is_ok());
    match systemd_load_outcome(false, "bad unit") {
        Err(AirlockError::ServiceOperation(m)) => assert_eq!(m, "Failed to start service: bad unit"),
        other => panic!("unexpected {:?}", other),
    }
    assert!(systemd_unload_outcome(false, "Unit airlockd.service not loaded.").is_ok());
    match systemd_unload_outcome(false, "boom") {
        Err(AirlockError::ServiceOperation(m)) => assert_eq!(m, "Failed to stop service: boom"),
        other => panic!("unexpected {:?}", other),
    }
}

#[test]
fn running_checks() {
    assert!(launchd_is_running(true, "1234\t0\tdev.airlock.daemon\n"));
    assert!(!launchd_is_running(true, "-\t0\tdev.airlock.daemon\n"));
    assert!(!launchd_is_running(false, "1234\t0\tdev.airlock.daemon\n"));
    assert!(!launchd_is_running(true, "   "));
    assert!(systemd_is_running("active\n"));
    assert!(!systemd_is_running("inactive\n"));
}

#[test]
fn launchd_pid_must_read_as_u32() {
    assert!(launchd_is_running(true, "+12\t0\tdev.airlock.daemon"));
    assert!(launchd_is_running(true, "4294967295\t0\tx"));
    assert!(!launchd_is_running(true, "4294967296\t0\tx"));
    assert!(!launchd_is_running(true, "12a\t0\tx"));
    assert!(!launchd_is_running(true, "+\t0\tx"));
    assert!(!launchd_is_running(true, "-5\t0\tx"));
}
