use moonproto::telegram::{
    MoonTelegram, TelegramAction, TelegramLoginMode, TelegramProxy, CURRENT_PROTO_CMD_VER,
};

fn actions() -> Vec<TelegramAction> {
    vec![
        TelegramAction::Refresh,
        TelegramAction::SetEnabled(true),
        TelegramAction::SetProxy(TelegramProxy::Socks5 {
            host: "proxy.test".into(),
            port: 1080,
            user: "user".into(),
            password: "secret".into(),
        }),
        TelegramAction::SetLoginMode(TelegramLoginMode::Qr),
        TelegramAction::SetPhone("+10000000000".into()),
        TelegramAction::SetCode("12345".into()),
        TelegramAction::SetPassword("secret".into()),
        TelegramAction::SetEmail("test@example.test".into()),
        TelegramAction::SetEmailCode("123456".into()),
        TelegramAction::Register { first_name: "First".into(), last_name: "Last".into() },
        TelegramAction::ResendCode,
        TelegramAction::Logout,
    ]
}

/// A length-prefixed UTF-8 string at `*pos`, advancing past it.
fn read_string(raw: &[u8], pos: &mut usize) -> Option<String> {
    let len_bytes = raw.get(*pos..*pos + 2)?;
    let len = u16::from_le_bytes([len_bytes[0], len_bytes[1]]) as usize;
    let text = raw.get(*pos + 2..*pos + 2 + len)?;
    *pos += 2 + len;
    String::from_utf8(text.to_vec()).ok()
}

#[test]
fn telegram_actions_encode_exact_delphi_headers_and_fields() {
    for (id, action) in (37..=48).zip(actions()) {
        action.validate().unwrap();
        let raw = action.build(0x1122334455667788);
        assert_eq!(raw[0], id);
        assert_eq!(&raw[1..3], &CURRENT_PROTO_CMD_VER.to_le_bytes());
        assert_eq!(&raw[3..11], &0x1122334455667788u64.to_le_bytes());
        let expected: &[u8] = match id {
            37 | 47 | 48 => b"",
            38 | 40 => b"\x01",
            39 => b"\x01\x0a\x00proxy.test\x38\x04\x04\x00user\x06\x00secret",
            41 => b"\x0c\x00+10000000000",
            42 => b"\x05\x0012345",
            43 => b"\x06\x00secret",
            44 => b"\x11\x00test@example.test",
            45 => b"\x06\x00123456",
            46 => b"\x05\x00First\x04\x00Last",
            _ => unreachable!(),
        };
        assert_eq!(&raw[11..], expected, "command {id}");
    }
    assert_eq!(&TelegramAction::SetEnabled(false).build(1)[11..], &[0]);
    assert_eq!(&TelegramAction::SetLoginMode(TelegramLoginMode::Phone).build(1)[11..], &[0]);
    assert_eq!(&TelegramAction::SetProxy(TelegramProxy::Disabled).build(1)[11..], &[0; 9]);
    let mtproto = TelegramAction::SetProxy(TelegramProxy::MtProto {
        host: "host".into(),
        port: 443,
        secret: "test".into(),
    });
    assert_eq!(&mtproto.build(1)[11..], b"\x02\x04\x00host\xbb\x01\x00\x00\x04\x00test");
    let utf8 = "\u{0422}\u{0435}\u{0441}\u{0442}";
    let raw = TelegramAction::SetPassword(utf8.into()).build(1);
    assert_eq!(&raw[11..13], &8u16.to_le_bytes());
    assert_eq!(read_string(&raw, &mut 11).as_deref(), Some(utf8));
}

#[test]
fn telegram_text_rejects_wire_truncation_without_echoing_secrets() {
    assert!(TelegramAction::SetPassword("x".repeat(65535)).validate().is_ok());
    let err = TelegramAction::SetPassword("x".repeat(65536)).validate().unwrap_err();
    assert_eq!(err, "Telegram text exceeds 65535 UTF-8 bytes");
    let proxy = TelegramProxy::MtProto {
        host: "test".into(),
        port: 443,
        secret: "SECRET_TOKEN".into(),
    };
    assert!(!proxy.redacted().contains("SECRET_TOKEN"));
}

#[test]
fn telegram_action_ids_follow_the_command_table() {
    let ids: Vec<u8> = actions().iter().map(|a| a.id()).collect();
    assert_eq!(ids, (37..=48).collect::<Vec<u8>>());
}

#[test]
fn telegram_multibyte_text_counts_utf8_bytes() {
    // 32768 two-byte characters are 65536 bytes on the wire.
    let long = "\u{0442}".repeat(32768);
    assert!(TelegramAction::SetCode(long).validate().is_err());
    let fits = "\u{0442}".repeat(32767);
    assert!(TelegramAction::SetCode(fits).validate().is_ok());
}

#[test]
fn moon_telegram_queues_actions_in_order() {
    let mut tg = MoonTelegram::new(None);
    assert!(tg.refresh().is_ok());
    assert!(tg.set_enabled(true).is_ok());
    assert!(tg.set_code("12345".into()).is_ok());
    let out = tg.take_outgoing();
    let ids: Vec<u8> = out.iter().map(|a| a.id()).collect();
    assert_eq!(ids, vec![37, 38, 42]);
    assert!(tg.take_outgoing().is_empty());
}

#[test]
fn moon_telegram_refuses_oversized_text_without_queueing() {
    let mut tg = MoonTelegram::new(None);
    assert!(tg.set_password("x".repeat(65536)).is_err());
    assert!(tg.take_outgoing().is_empty());
}
