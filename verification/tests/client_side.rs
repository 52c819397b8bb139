use kvm_rs::clipboard::{ClientClipboard, ServerClipboard};
use kvm_rs::discovery::{mdns_instance_name, mdns_properties, server_from_service, ServerCollector};
use kvm_rs::inject::{ClientButton, InjectAction, InputInjector};
use kvm_rs::keys::{ClientKey, Platform};
use kvm_rs::protocol::{Event, MouseButton};
use kvm_rs::ui_state::{ActiveSessionInfo, UiState};
use kvm_rs::client_session::SessionEvent;
use kvm_rs::file_send::{
    file_channel_pin, on_file_pair_reply, on_offer_reply, on_transfer_result, TransferError,
};
use kvm_rs::client_config::Config;
use kvm_rs::client_session::ConnectOptions;
use kvm_rs::protocol::Envelope;

#[test]
fn injector_tracks_and_releases_in_reverse_order() {
    let mut inj = InputInjector::new(Platform::Linux);
    let a = inj.inject(Event::KeyPress { code: 30, modifiers: 0 });
    assert_eq!(a, vec![InjectAction::Key { key: ClientKey::Unicode('a'), press: true }]);
    inj.inject(Event::KeyPress { code: 42, modifiers: 0 });
    inj.inject(Event::KeyPress { code: 30, modifiers: 0 });
    inj.inject(Event::MouseButtonPress(MouseButton::Right));
    inj.inject(Event::MouseButtonPress(MouseButton::Back));
    let released = inj.inject(Event::MouseButtonRelease(MouseButton::Right));
    assert_eq!(released, vec![InjectAction::Button { button: ClientButton::Right, press: false }]);
    let all = inj.release_all();
    assert_eq!(
        all,
        vec![
            InjectAction::Key { key: ClientKey::LShift, press: false },
            InjectAction::Key { key: ClientKey::Unicode('a'), press: false },
            InjectAction::Button { button: ClientButton::Back, press: false },
        ]
    );
    assert!(inj.release_all().is_empty());
}

#[test]
fn injector_scrolls_with_the_vertical_axis_flipped() {
    let mut inj = InputInjector::new(Platform::Windows);
    assert_eq!(
        inj.inject(Event::Wheel { delta_x: 2, delta_y: 1 }),
        vec![
            InjectAction::Scroll { length: -1, vertical: true },
            InjectAction::Scroll { length: 2, vertical: false },
        ]
    );
    assert!(inj.inject(Event::Wheel { delta_x: 0, delta_y: 0 }).is_empty());
    assert_eq!(inj.inject(Event::MouseDelta { dx: 5, dy: -5 }), vec![InjectAction::MoveMouse { dx: 5, dy: -5 }]);
    assert!(inj.inject(Event::KeyPress { code: 0x1_0005, modifiers: 0 }).is_empty());
    assert!(inj.inject(Event::ReleaseAll).is_empty());
}

#[test]
fn server_clipboard_never_echoes() {
    let mut c = ServerClipboard::new("start".to_string());
    assert!(!c.on_local(&"start".to_string()));
    assert!(c.on_remote(&"from client".to_string()));
    assert!(!c.on_local(&"from client".to_string()));
    assert!(c.on_local(&"typed here".to_string()));
    assert!(!c.on_remote(&"typed here".to_string()));
    assert!(!c.on_local(&String::new()));
}

#[test]
fn client_clipboard_never_echoes() {
    let mut c = ClientClipboard::new();
    assert!(c.on_local(&"x".to_string()));
    assert!(!c.on_local(&"x".to_string()));
    c.on_remote(&"y".to_string(), true);
    assert!(!c.on_local(&"y".to_string()));
    c.on_remote(&"z".to_string(), false);
    assert!(c.on_local(&"z".to_string()));
    assert!(!c.on_local(&String::new()));
}

#[test]
fn discovered_servers_prefer_ipv4_and_sort_by_name() {
    let s = server_from_service("b._kvm-rs._tcp.local.", "beta.local.", 4000, Some("10.0.0.2".to_string()), Some("fe80::1".to_string())).unwrap();
    assert_eq!((s.name.as_str(), s.host.as_str(), s.address.as_str()), ("beta.local", "10.0.0.2", "10.0.0.2:4000"));
    let v6 = server_from_service("a._kvm-rs._tcp.local.", "", 4000, None, Some("fe80::1".to_string())).unwrap();
    assert_eq!(v6.name, "a._kvm-rs._tcp.local.");
    assert_eq!(v6.address, "[fe80::1]:4000");
    assert!(server_from_service("c", "c.local.", 1, None, None).is_none());

    let mut found = ServerCollector::new();
    found.insert("b".to_string(), s);
    found.insert("a".to_string(), v6);
    let again = server_from_service("b", "alpha.local.", 4000, Some("10.0.0.3".to_string()), None).unwrap();
    found.insert("b".to_string(), again);
    let list = found.sorted_servers();
    let names: Vec<&str> = list.iter().map(|d| d.name.as_str()).collect();
    assert_eq!(names, vec!["a._kvm-rs._tcp.local.", "alpha.local"]);
}

#[test]
fn mdns_advertisement() {
    assert_eq!(mdns_instance_name("Desk"), "Desk._kvm-rs._tcp.local.");
    let props = mdns_properties("Desk", 4000);
    let pairs: Vec<(&str, &str)> = props.iter().map(|(k, v)| (k.as_str(), v.as_str())).collect();
    assert_eq!(
        pairs,
        vec![("name", "Desk"), ("port", "4000"), ("clipboard", "true"), ("file_transfer", "true"), ("internet_share", "false")]
    );
}

fn info() -> ActiveSessionInfo {
    ActiveSessionInfo {
        address: "10.0.0.2:4000".to_string(),
        server_name: "srv".to_string(),
        fingerprint: "AA".to_string(),
        file_port: 4001,
        host: "10.0.0.2".to_string(),
    }
}

#[test]
fn overtaken_connection_attempts_never_install() {
    let mut ui = UiState::new();
    let (first, had) = ui.reset_session();
    assert!(!had);
    let (second, _) = ui.reset_session();
    assert!(!ui.install_active_session(first, info()));
    assert!(!ui.status().connected);
    assert!(ui.install_active_session(second, info()));
    let st = ui.status();
    assert!(st.connected);
    assert_eq!(st.address.as_deref(), Some("10.0.0.2:4000"));
    assert_eq!(st.version, "0.2.0");
    assert!(!ui.apply_event(first, &SessionEvent::ForwardingChanged(true)));
    assert!(ui.apply_event(second, &SessionEvent::ForwardingChanged(true)));
    assert_eq!(ui.toggle_target(), Ok(false));
    assert!(ui.apply_event(second, &SessionEvent::Latency { ms: 12 }));
    assert_eq!(ui.status().latency_ms, Some(12));
    let (host, port, fp) = ui.file_target().unwrap();
    assert_eq!((host.as_str(), port, fp.as_str()), ("10.0.0.2", 4001, "AA"));
    assert!(ui.disconnect());
    let st = ui.status();
    assert!(!st.connected && !st.forwarding_active && st.latency_ms.is_none() && st.last_error.is_none());
    assert_eq!(ui.toggle_target(), Err("not connected to a server".to_string()));
    assert!(!ui.record_reconnect_error(second, "late".to_string()));
}

#[test]
fn file_channel_decisions() {
    let mut config = Config::default();
    config.add_known_server("srv".into(), "10.0.0.2:4001".into(), "AA".into());
    let opts = ConnectOptions::default();
    assert_eq!(file_channel_pin(&opts, &config, "10.0.0.2", 4001).as_deref(), Some("AA"));
    assert_eq!(file_channel_pin(&opts, &config, "10.0.0.2", 4002), None);
    let exact = ConnectOptions { expected_fingerprint: Some("BB".to_string()), ..ConnectOptions::default() };
    assert_eq!(file_channel_pin(&exact, &config, "10.0.0.2", 4001).as_deref(), Some("BB"));
    assert!(on_file_pair_reply(Envelope::PairAccept).is_ok());
    assert_eq!(
        failure_text(on_file_pair_reply(Envelope::PairReject { reason: "no".to_string() }).unwrap_err()),
        "file channel rejected: no"
    );
    assert_eq!(on_offer_reply(Envelope::FileAccept { id: 1, start_offset: 9 }, "f").unwrap(), 9);
    assert_eq!(
        failure_text(on_offer_reply(Envelope::FileReject { id: 1, reason: "too big".to_string() }, "f.bin").unwrap_err()),
        "server rejected file 'f.bin': too big"
    );
    assert!(on_transfer_result(Envelope::FileComplete { id: 1 }, "f").is_ok());
    assert_eq!(
        failure_text(on_transfer_result(Envelope::Error("disk full".to_string()), "f").unwrap_err()),
        "server error during file transfer: disk full"
    );
    match on_transfer_result(Envelope::Ping(1), "f").unwrap_err() {
        TransferError::Unexpected { context, reply } => {
            assert_eq!(context, "unexpected response from server");
            assert!(matches!(reply, Envelope::Ping(1)));
        }
        other => panic!("unexpected {:?}", other),
    }
    match on_file_pair_reply(Envelope::Goodbye).unwrap_err() {
        TransferError::Unexpected { context, reply } => {
            assert_eq!(context, "unexpected response on file channel");
            assert!(matches!(reply, Envelope::Goodbye));
        }
        other => panic!("unexpected {:?}", other),
    }
    match on_offer_reply(Envelope::Pong(3), "f").unwrap_err() {
        TransferError::Unexpected { context, reply } => {
            assert_eq!(context, "unexpected response from server");
            assert!(matches!(reply, Envelope::Pong(3)));
        }
        other => panic!("unexpected {:?}", other),
    }
}

fn failure_text(e: TransferError) -> String {
    match e {
        TransferError::Failed(t) => t,
        other => panic!("expected a failure text, got {:?}", other),
    }
}
