use sap_automate::channels::{
    address_scheme, epoch_millis, ChannelAdapter, ChannelError, ChannelKind, ChannelRegistry, CliChannel, OutgoingMessage,
    SlackAdapter, TeamsAdapter, TelegramAdapter,
};

#[test]
fn cli_channel_records_messages() {
    let cli = CliChannel::new();
    let mut reg = ChannelRegistry::new();
    reg.register(cli);
    assert!(reg.send(OutgoingMessage::text("cli:default".to_string(), "hello".to_string())).is_ok());
    assert!(reg.send(OutgoingMessage::text("cli:default".to_string(), "world".to_string())).is_ok());
    let log = reg.by_scheme[0].1.log();
    assert_eq!(log.len(), 2);
    assert_eq!(log[0].text, "hello");
    assert_eq!(log[1].text, "world");
    assert_eq!(reg.by_scheme[0].1.last().unwrap().text, "world");
}

#[test]
fn unknown_scheme_returns_error() {
    let cli = CliChannel::new();
    let mut reg = ChannelRegistry::new();
    reg.register(cli);
    let r = reg.send(OutgoingMessage::text("teams:foo".to_string(), "hi".to_string()));
    assert!(matches!(r, Err(ChannelError::Unknown(_))));
    match r {
        Err(ChannelError::Unknown(s)) => assert_eq!(s, "teams"),
        _ => unreachable!(),
    }
    assert!(reg.by_scheme[0].1.log().is_empty());
}

#[test]
fn teams_skeleton_is_not_connected() {
    let mut t = TeamsAdapter { bot_endpoint: "https://example.com".to_string(), tenant_id: "tenant".to_string() };
    let r = t.send(OutgoingMessage::text("teams:#fin-ops".to_string(), "hi".to_string()));
    assert!(matches!(r, Err(ChannelError::NotConnected)));
    assert_eq!(t.kind(), ChannelKind::Teams);
}

#[test]
fn other_skeletons_are_not_connected() {
    let mut s = SlackAdapter { workspace: "w".to_string(), bot_token_env: "SLACK_TOKEN".to_string() };
    assert!(matches!(s.send(OutgoingMessage::text("slack:#x".to_string(), "hi".to_string())), Err(ChannelError::NotConnected)));
    let mut t = TelegramAdapter { bot_token_env: "TG_TOKEN".to_string() };
    assert!(matches!(t.send(OutgoingMessage::text("telegram:1".to_string(), "hi".to_string())), Err(ChannelError::NotConnected)));
    assert_eq!(t.kind(), ChannelKind::Telegram);
}

#[test]
fn registering_twice_replaces_the_adapter() {
    let mut reg = ChannelRegistry::new();
    reg.register(CliChannel::new());
    assert!(reg.send(OutgoingMessage::text("cli:a".to_string(), "x".to_string())).is_ok());
    reg.register(CliChannel::new());
    assert_eq!(reg.schemes(), vec!["cli".to_string()]);
    assert!(reg.by_scheme[0].1.log().is_empty());
}

#[test]
fn schemes_and_addresses() {
    assert_eq!(ChannelKind::Whatsapp.scheme(), "whatsapp");
    assert_eq!(ChannelKind::Email.scheme(), "email");
    assert_eq!(address_scheme("slack:#fin-ops"), "slack");
    assert_eq!(address_scheme("noscheme"), "noscheme");
    assert_eq!(address_scheme("a:b:c"), "a");
}

#[test]
fn channel_errors_read_as_text() {
    assert_eq!(ChannelError::Unknown("fax".to_string()).message(), "unknown channel: fax");
    assert_eq!(ChannelError::Adapter("boom".to_string()).message(), "adapter error: boom");
    assert_eq!(ChannelError::NotConnected.message(), "not connected");
}

#[test]
fn clock_reads_after_the_epoch() {
    assert!(sap_automate::channels::now_ms() > 1_600_000_000_000);
}

#[test]
fn registry_returns_the_adapters_answer() {
    let mut reg = ChannelRegistry::new();
    reg.register(TeamsAdapter { bot_endpoint: "https://example.com".to_string(), tenant_id: "tenant".to_string() });
    let r = reg.send(OutgoingMessage::text("teams:#fin-ops".to_string(), "hi".to_string()));
    assert_eq!(r, Err(ChannelError::NotConnected));
    let r = reg.send(OutgoingMessage::text("slack:#fin-ops".to_string(), "hi".to_string()));
    assert_eq!(r, Err(ChannelError::Unknown("slack".to_string())));
}

#[test]
fn clock_readings_become_u64_milliseconds() {
    assert_eq!(epoch_millis(None), 0);
    assert_eq!(epoch_millis(Some(1_700_000_000_123)), 1_700_000_000_123);
    assert_eq!(epoch_millis(Some((1u128 << 64) + 5)), 5);
    assert_eq!(epoch_millis(Some(u64::MAX as u128)), u64::MAX);
}
