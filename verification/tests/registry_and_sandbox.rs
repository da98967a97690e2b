use streamcore::app_stream::AppStreamer;
use streamcore::isolation::IsolationEnvironment;
use streamcore::registry::{AdmissionError, SessionManager};

#[test]
fn registry_admits_up_to_capacity() {
    let mut m = SessionManager::new(2);
    assert!(m.add_session(1).is_ok());
    assert!(m.add_session(2).is_ok());
    assert_eq!(m.size(), 2);
    assert_eq!(m.add_session(3), Err(AdmissionError::AtCapacity));
    assert_eq!(m.size(), 2);
}

#[test]
fn second_admission_fails_while_first_is_active() {
    // A registry with room for one: A is admitted, B is refused, A stays.
    let mut m = SessionManager::new(1);
    assert!(m.add_session(100).is_ok());
    assert_eq!(m.add_session(200), Err(AdmissionError::AtCapacity));
    assert!(m.contains(100));
    assert!(!m.contains(200));
    assert_eq!(m.size(), 1);
    // Once A leaves, B fits.
    m.remove_session(100);
    assert!(m.add_session(200).is_ok());
    assert!(m.contains(200));
}

#[test]
fn duplicate_id_is_refused() {
    let mut m = SessionManager::new(5);
    assert!(m.add_session(9).is_ok());
    assert_eq!(m.add_session(9), Err(AdmissionError::DuplicateId));
    assert_eq!(m.size(), 1);
}

#[test]
fn removal_of_absent_id_changes_nothing() {
    let mut m = SessionManager::new(3);
    assert!(m.add_session(1).is_ok());
    m.remove_session(42);
    assert_eq!(m.size(), 1);
    assert!(m.contains(1));
}

#[test]
fn open_session_mints_and_registers() {
    let mut m = SessionManager::new(2);
    let a = m.open_session().expect("room for one");
    let b = m.open_session().expect("room for two");
    assert_ne!(a, b);
    assert!(m.contains(a) && m.contains(b));
    assert!(m.open_session().is_err());
    assert_eq!(m.size(), 2);
}

#[test]
fn sandbox_paths_are_namespaced_by_session() {
    let e = IsolationEnvironment::new(12345);
    assert_eq!(e.base_dir, "/tmp/rustdesk-isolation/12345");
    assert_eq!(e.home_dir, "/tmp/rustdesk-isolation/12345/home");
    assert_eq!(e.data_dir, "/tmp/rustdesk-isolation/12345/data");
    assert_eq!(e.config_dir, "/tmp/rustdesk-isolation/12345/config");
    assert_eq!(e.cache_dir, "/tmp/rustdesk-isolation/12345/cache");
    assert_eq!(e.temp_dir, "/tmp/rustdesk-isolation/12345/tmp");
    let other = IsolationEnvironment::new(12346);
    assert_ne!(e.base_dir, other.base_dir);
}

#[test]
fn sandbox_cleanup_is_idempotent() {
    let mut e = IsolationEnvironment::new(8);
    let first = e.cleanup();
    assert_eq!(first, Some("/tmp/rustdesk-isolation/8".to_string()));
    // The second call is a no-op: nothing further to remove.
    assert_eq!(e.cleanup(), None);
    assert_eq!(e.cleanup(), None);
}

#[test]
fn sandbox_environment_bindings() {
    let e = IsolationEnvironment::new(3);
    let env = e.environment_bindings();
    assert_eq!(
        env,
        vec![
            ("HOME".to_string(), "/tmp/rustdesk-isolation/3/home".to_string()),
            ("XDG_DATA_HOME".to_string(), "/tmp/rustdesk-isolation/3/data".to_string()),
            ("XDG_CONFIG_HOME".to_string(), "/tmp/rustdesk-isolation/3/config".to_string()),
            ("XDG_CACHE_HOME".to_string(), "/tmp/rustdesk-isolation/3/cache".to_string()),
            ("TMPDIR".to_string(), "/tmp/rustdesk-isolation/3/tmp".to_string()),
        ]
    );
}

#[test]
fn seed_copy_plan_targets_home() {
    let e = IsolationEnvironment::new(1);
    let plan = e
        .seed_copy_plan(&vec!["/etc/hosts".to_string(), "/opt/data/set".to_string()])
        .expect("valid sources");
    assert_eq!(
        plan,
        vec![
            (
                "/etc/hosts".to_string(),
                "/tmp/rustdesk-isolation/1/home/hosts".to_string()
            ),
            (
                "/opt/data/set".to_string(),
                "/tmp/rustdesk-isolation/1/home/set".to_string()
            ),
        ]
    );
    assert!(e.seed_copy_plan(&vec!["/etc/".to_string()]).is_err());
}

#[test]
fn isolated_app_streamer_carries_sandbox_bindings() {
    let asr = AppStreamer::new("xeyes".to_string(), vec![], None, true, 77);
    let env = asr.spawn_environment();
    assert_eq!(env.len(), 5);
    assert_eq!(env[0].0, "HOME");
    assert_eq!(env[0].1, "/tmp/rustdesk-isolation/77/home");
    let plainr = AppStreamer::new("xeyes".to_string(), vec![], None, false, 77);
    assert!(plainr.spawn_environment().is_empty());
}

#[test]
fn app_streamer_teardown_releases_sandbox_once() {
    let mut asr = AppStreamer::new("xeyes".to_string(), vec![], None, true, 5);
    assert_eq!(
        asr.teardown_sandbox(),
        Some("/tmp/rustdesk-isolation/5".to_string())
    );
    assert_eq!(asr.teardown_sandbox(), None);
    let mut plainr = AppStreamer::new("xeyes".to_string(), vec![], None, false, 5);
    assert_eq!(plainr.teardown_sandbox(), None);
}

#[test]
fn xwd_parse_strips_header() {
    let asr = AppStreamer::new("x".to_string(), vec![], None, false, 0);
    assert!(asr.parse_xwd_to_rgb(&vec![0u8; 100]).is_err());
    assert!(asr.parse_xwd_to_rgb(&vec![0u8; 10]).is_err());
    let mut dump = vec![0u8; 100];
    dump.extend_from_slice(&[1, 2]);
    assert_eq!(asr.parse_xwd_to_rgb(&dump).unwrap(), vec![1, 2]);
}

#[test]
fn window_discovery_keeps_last_handle() {
    let mut asr = AppStreamer::new("x".to_string(), vec![], None, false, 0);
    assert_eq!(asr.window_id, None);
    asr.record_discovery(Some(41));
    assert_eq!(asr.window_id, Some(41));
    asr.record_discovery(None);
    assert_eq!(asr.window_id, Some(41));
}
