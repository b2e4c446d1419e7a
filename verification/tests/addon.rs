use dx11_overlay::nexus_addon::ui::{
    display_path, handle_executable_actions, toggle_window, ExeAction,
};
use dx11_overlay::nexus_addon::manager::ExeManager;
use dx11_overlay::nexus_addon::NexusError;

#[test]
fn errors_describe_themselves() {
    assert_eq!(
        NexusError::ManagerInitialization("no directory".to_string()).message(),
        "Manager initialization error: no directory"
    );
    assert_eq!(
        NexusError::ProcessLaunch("No executable path set".to_string()).message(),
        "Process launch error: No executable path set"
    );
    assert_eq!(
        NexusError::ProcessStop("access denied".to_string()).message(),
        "Process stop error: access denied"
    );
    assert_eq!(
        NexusError::FileOperation("Cannot set empty executable path".to_string()).message(),
        "File operation error: Cannot set empty executable path"
    );
    assert_eq!(
        NexusError::ResourceLoading(String::new()).message(),
        "Resource loading error: "
    );
}

#[test]
fn window_is_toggled() {
    let mut open = false;
    toggle_window(&mut open);
    assert!(open);
    toggle_window(&mut open);
    assert!(!open);
}

#[test]
fn short_paths_are_shown_in_full() {
    assert_eq!(display_path(""), "");
    assert_eq!(display_path("C:\\Games\\Blish HUD.exe"), "C:\\Games\\Blish HUD.exe");
    let fifty = "a".repeat(50);
    assert_eq!(display_path(&fifty), fifty);
}

#[test]
fn long_paths_keep_their_last_47_characters() {
    let path = "0123456789abcdefghijklmnopqrstuvwxyzABCDEFGHIJKLMNOPQRSTUVWXYZ";
    assert_eq!(path.len(), 62);
    let shown = display_path(path);
    assert_eq!(shown, "...fghijklmnopqrstuvwxyzABCDEFGHIJKLMNOPQRSTUVWXYZ");
    assert_eq!(shown.chars().count(), 50);
    let fifty_one = format!("X{}", "b".repeat(50));
    assert_eq!(display_path(&fifty_one), format!("...{}", "b".repeat(47)));
}

#[test]
fn long_paths_are_cut_between_characters() {
    let path = "\u{e9}".repeat(60);
    assert_eq!(display_path(&path), format!("...{}", "\u{e9}".repeat(47)));
}

#[test]
fn pressed_buttons_act_in_order() {
    assert_eq!(handle_executable_actions(false, false, false), vec![]);
    assert_eq!(handle_executable_actions(true, false, false), vec![ExeAction::Stop]);
    assert_eq!(handle_executable_actions(false, true, true), vec![ExeAction::Launch, ExeAction::Remove]);
    assert_eq!(
        handle_executable_actions(true, true, true),
        vec![ExeAction::Stop, ExeAction::Launch, ExeAction::Remove]
    );
}

#[test]
fn settings_are_read_from_two_lines() {
    let manager = ExeManager::new(Some("C:\\Blish HUD\\Blish HUD.exe\ntrue"));
    assert_eq!(manager.exe_path().unwrap(), "C:\\Blish HUD\\Blish HUD.exe");
    assert!(manager.launch_on_startup());
    assert!(!manager.is_running());
    let manager = ExeManager::new(Some("  C:\\x.exe \t\r\n  true  \r\nthird line\n"));
    assert_eq!(manager.exe_path().unwrap(), "C:\\x.exe");
    assert!(manager.launch_on_startup());
    let manager = ExeManager::new(Some("C:\\x.exe\nfalse\n"));
    assert_eq!(manager.exe_path().unwrap(), "C:\\x.exe");
    assert!(!manager.launch_on_startup());
}

#[test]
fn settings_with_missing_or_odd_lines() {
    let manager = ExeManager::new(None);
    assert_eq!(manager.exe_path(), None);
    assert!(!manager.launch_on_startup());
    assert!(!manager.is_process_running());
    let manager = ExeManager::new(Some(""));
    assert_eq!(manager.exe_path(), None);
    assert!(!manager.launch_on_startup());
    let manager = ExeManager::new(Some("   \ntrue"));
    assert_eq!(manager.exe_path(), None);
    assert!(manager.launch_on_startup());
    let manager = ExeManager::new(Some("C:\\x.exe"));
    assert_eq!(manager.exe_path().unwrap(), "C:\\x.exe");
    assert!(!manager.launch_on_startup());
    for second in ["True", "TRUE", "1", "yes", "tru e", "true!", ""] {
        let manager = ExeManager::new(Some(&format!("C:\\x.exe\n{second}")));
        assert!(!manager.launch_on_startup(), "{second:?}");
    }
    let manager = ExeManager::new(Some("a path with spaces.exe\n\ntrue"));
    assert_eq!(manager.exe_path().unwrap(), "a path with spaces.exe");
    assert!(!manager.launch_on_startup());
}

#[test]
fn settings_text_has_the_path_and_the_launch_setting() {
    let mut manager = ExeManager::new(None);
    assert_eq!(manager.save_settings(), "\nfalse");
    assert_eq!(manager.set_exe("C:\\x.exe".to_string()).unwrap(), "C:\\x.exe\nfalse");
    manager.set_launch_on_startup(true);
    assert_eq!(manager.save_settings(), "C:\\x.exe\ntrue");
    let again = ExeManager::new(Some(&manager.save_settings()));
    assert_eq!(again.exe_path().unwrap(), "C:\\x.exe");
    assert!(again.launch_on_startup());
}

#[test]
fn empty_path_is_refused() {
    let mut manager = ExeManager::new(Some("C:\\x.exe\ntrue"));
    for path in ["", "   ", "\t\r\n", "\u{a0}\u{3000}"] {
        match manager.set_exe(path.to_string()) {
            Err(NexusError::FileOperation(msg)) => {
                assert_eq!(msg, "Cannot set empty executable path")
            }
            other => panic!("expected a refusal, got {other:?}"),
        }
    }
    assert_eq!(manager.exe_path().unwrap(), "C:\\x.exe");
    assert_eq!(manager.set_exe(" y.exe ".to_string()).unwrap(), " y.exe \ntrue");
    assert_eq!(manager.exe_path().unwrap(), " y.exe ");
}

#[test]
fn launching_needs_a_path_and_a_free_slot() {
    let mut manager = ExeManager::new(None);
    match manager.launch_exe() {
        Err(NexusError::ProcessLaunch(msg)) => assert_eq!(msg, "No executable path set"),
        other => panic!("expected a refusal, got {other:?}"),
    }
    manager.set_exe("C:\\x.exe".to_string()).unwrap();
    assert_eq!(manager.launch_exe().unwrap(), "C:\\x.exe");
    assert!(!manager.is_running());
    manager.launched();
    assert!(manager.is_running() && manager.is_process_running());
    match manager.launch_exe() {
        Err(NexusError::ProcessLaunch(msg)) => {
            assert_eq!(msg, "Process is already running: C:\\x.exe")
        }
        other => panic!("expected a refusal, got {other:?}"),
    }
}

#[test]
fn stopping_and_clearing() {
    let mut manager = ExeManager::new(Some("C:\\x.exe\ntrue"));
    assert!(!manager.stop_exe());
    manager.launched();
    manager.cleanup_finished_process(false);
    assert!(manager.is_running());
    assert!(manager.stop_exe());
    assert!(!manager.is_running());
    assert!(!manager.stop_exe());
    manager.launched();
    manager.cleanup_finished_process(true);
    assert!(!manager.is_running());
    assert_eq!(manager.clear_exe().unwrap(), "\ntrue");
    assert_eq!(manager.exe_path(), None);
    assert_eq!(manager.clear_exe(), None);
    assert!(manager.launch_on_startup());
}
