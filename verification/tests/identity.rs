use clipboard_daemon::command::{parse_command, whoami_lines, Command};
use clipboard_daemon::hotkey::{HotkeyListener, Key};
use clipboard_daemon::identity::{
    generate_secret, load_or_create_device_config, secret_of, whoami_hostname, DeviceConfig,
};

fn is_hex(text: &str) -> bool {
    text.chars().all(|c| c.is_ascii_digit() || ('a'..='f').contains(&c))
}

fn args(list: &[&str]) -> Vec<String> {
    list.iter().map(|arg| arg.to_string()).collect()
}

#[test]
fn secrets_are_made_of_hex_digits() {
    let secret = generate_secret();
    assert_eq!(secret.len(), 32);
    assert!(is_hex(&secret));
    assert_ne!(secret, generate_secret());
}

#[test]
fn a_secret_spells_what_was_drawn() {
    assert_eq!(secret_of(&vec![0, 9, 10, 15, 7]), "09af7");
    assert_eq!(secret_of(&vec![]), "");
}

#[test]
fn the_name_of_the_computer_is_shown() {
    assert_eq!(whoami_hostname(Some("DESK".to_string())), "DESK");
    assert_eq!(whoami_hostname(None), "unknown-device");
}

#[test]
fn a_new_identity_is_made_where_none_is_saved() {
    let (config, is_new) = load_or_create_device_config(None, Some("DESK".to_string()));
    assert!(is_new);
    assert_eq!(config.device_name, "DESK");
    assert_eq!(config.secret.len(), 32);
    let parts: Vec<&str> = config.device_id.split('-').collect();
    assert_eq!(parts.iter().map(|part| part.len()).collect::<Vec<_>>(), vec![8, 4, 4, 4, 12]);
    assert!(parts.iter().all(|part| is_hex(part)));
    assert!(parts[2].starts_with('4'));
    assert!(["8", "9", "a", "b"].iter().any(|start| parts[3].starts_with(start)));
    let (other, _) = load_or_create_device_config(None, None);
    assert_eq!(other.device_name, "unknown-device");
    assert_ne!(other.device_id, config.device_id);
}

#[test]
fn a_saved_identity_is_kept() {
    let saved = DeviceConfig {
        device_id: "id".to_string(),
        device_name: "name".to_string(),
        secret: "s".to_string(),
    };
    let (config, is_new) = load_or_create_device_config(Some(saved), Some("DESK".to_string()));
    assert!(!is_new);
    assert_eq!(config.device_id, "id");
    assert_eq!(config.device_name, "name");
    assert_eq!(config.secret, "s");
}

#[test]
fn commands_are_understood() {
    assert!(matches!(
        parse_command(&args(&["p", "search", "x"])),
        Command::Search { query } if query == "x"
    ));
    assert!(matches!(parse_command(&args(&["p", "watch"])), Command::Watch));
    assert!(matches!(parse_command(&args(&["p", "serve", "more"])), Command::Serve));
    assert!(matches!(parse_command(&args(&["p", "whoami"])), Command::Whoami));
    assert!(matches!(
        parse_command(&args(&["p", "remove-peer", "n"])),
        Command::RemovePeer { name } if name == "n"
    ));
    assert!(matches!(parse_command(&args(&["p", "list-peers"])), Command::ListPeers));
    assert!(matches!(
        parse_command(&args(&["p", "add-peer", "n", "1.2.3.4", "9000", "s"])),
        Command::AddPeer { name, ip, port: 9000, secret }
            if name == "n" && ip == "1.2.3.4" && secret == "s"
    ));
}

#[test]
fn an_unreadable_port_is_the_usual_one() {
    for port in ["x", "", "65536", "-1"] {
        assert!(matches!(
            parse_command(&args(&["p", "add-peer", "n", "ip", port, "s"])),
            Command::AddPeer { port: 8080, .. }
        ));
    }
}

#[test]
fn incomplete_commands_run_everything() {
    for list in [
        vec![],
        vec!["p"],
        vec!["p", "search"],
        vec!["p", "add-peer", "n", "ip", "80"],
        vec!["p", "remove-peer"],
        vec!["p", "Watch"],
        vec!["p", "other"],
    ] {
        assert!(matches!(parse_command(&args(&list)), Command::Combined));
    }
}

#[test]
fn the_identity_is_told() {
    let config = DeviceConfig {
        device_id: "i".to_string(),
        device_name: "n".to_string(),
        secret: "s".to_string(),
    };
    assert_eq!(
        whoami_lines(&config),
        vec![
            "Device name: n",
            "Device ID:   i",
            "Secret:      s",
            "",
            "Share your device name, your LAN IP, port 8080, and this secret",
            "with any device you want to authorize to sync with you.",
        ]
    );
}

#[test]
fn the_hotkey_opens_the_page_once() {
    let mut listener = HotkeyListener::new();
    let held = vec![Key::LControl, Key::RAlt, Key::H];
    assert!(!listener.look(&vec![]));
    assert!(listener.look(&held));
    assert!(!listener.look(&held));
    assert!(!listener.look(&held));
    assert!(!listener.look(&vec![Key::H]));
    assert!(listener.look(&held));
}

#[test]
fn the_hotkey_needs_all_three_keys() {
    for keys in [
        vec![Key::LControl, Key::LAlt],
        vec![Key::LControl, Key::H],
        vec![Key::LAlt, Key::H],
        vec![Key::Other],
    ] {
        assert!(!HotkeyListener::new().look(&keys));
    }
    for control in [Key::LControl, Key::RControl] {
        for alt in [Key::LAlt, Key::RAlt] {
            assert!(HotkeyListener::new().look(&vec![Key::H, Key::Other, alt, control]));
        }
    }
}
