use mail_entity::account::{Account, Flags};
use mail_entity::addr::parse_addr;
use mail_entity::date::MsgDate;
use mail_entity::fetch::{AddrRaw, FetchData};
use mail_entity::msg::Msg;
use mail_entity::part::{BinaryPart, Part, Parts};
use mail_entity::MsgError;

fn account(addr: &str) -> Account {
    Account {
        address: addr.to_string(),
        sig: None,
        sig_delim: "-- ".to_string(),
        pgp_encrypt_cmd: None,
    }
}

fn raw(name: Option<&[u8]>, mailbox: &[u8], host: &[u8]) -> AddrRaw {
    AddrRaw {
        name: name.map(|b| b.to_vec()),
        mailbox: Some(mailbox.to_vec()),
        host: Some(host.to_vec()),
    }
}

#[test]
fn wire_address_converts_and_decodes_encoded_words() {
    let a = mail_entity::fetch::to_addr(&raw(
        Some(b"=?utf-8?B?QWxpY2U=?="),
        b"alice",
        b"x.com",
    ))
    .unwrap();
    assert_eq!(a.name.as_deref(), Some("Alice"));
    assert_eq!(a.email, "alice@x.com");
}

#[test]
fn wire_address_without_mailbox_fails() {
    let err = mail_entity::fetch::to_addr(&AddrRaw {
        name: None,
        mailbox: None,
        host: Some(b"x.com".to_vec()),
    })
    .unwrap_err();
    assert!(matches!(err, MsgError::HeaderDecode { .. }));
}

#[test]
fn wire_address_with_invalid_pieces_fails() {
    let err =
        mail_entity::fetch::to_addr(&raw(None, b"user with spaces", b"x.com")).unwrap_err();
    assert!(matches!(err, MsgError::AddressParse { .. }));
}

#[test]
fn wire_address_lists_convert_in_order() {
    let list = mail_entity::fetch::to_addrs(&vec![
        raw(None, b"a", b"x.com"),
        raw(None, b"b", b"x.com"),
    ])
    .unwrap();
    assert_eq!(list.len(), 2);
    assert_eq!(list[0].email, "a@x.com");
    assert_eq!(list[1].email, "b@x.com");
    let none = mail_entity::fetch::to_some_addrs(&None).unwrap();
    assert!(none.is_none());
}

#[test]
fn fetch_builds_message() {
    let data = FetchData {
        id: 7,
        flags: Flags::default(),
        subject: Some(b"=?utf-8?B?SGVsbG8=?=".to_vec()),
        sender: None,
        from: Some(vec![raw(None, b"alice", b"x.com")]),
        reply_to: None,
        to: Some(vec![raw(None, b"bob", b"x.com")]),
        cc: None,
        bcc: None,
        in_reply_to: None,
        message_id: Some(b"<m1@x.com>".to_vec()),
        date: Some(MsgDate {
            secs: 1609857000,
            offset_secs: 3600,
        }),
        parts: Some(Parts(vec![Part::new_text_plain("Hi".to_string())])),
    };
    let msg = Msg::from_fetch(data).unwrap();
    assert_eq!(msg.id, 7);
    assert_eq!(msg.subject, "Hello");
    assert_eq!(msg.from.as_ref().unwrap()[0].email, "alice@x.com");
    assert_eq!(msg.to.as_ref().unwrap()[0].email, "bob@x.com");
    assert_eq!(msg.message_id.as_deref(), Some("<m1@x.com>"));
    assert!(!msg.encrypt);
    assert_eq!(msg.fold_text_plain_parts(), "Hi");
}

#[test]
fn fetch_without_parsed_body_fails() {
    let data = FetchData {
        id: 1,
        flags: Flags::default(),
        subject: None,
        sender: None,
        from: None,
        reply_to: None,
        to: None,
        cc: None,
        bcc: None,
        in_reply_to: None,
        message_id: None,
        date: None,
        parts: None,
    };
    let err = Msg::from_fetch(data).unwrap_err();
    assert!(matches!(err, MsgError::BodyParse));
}

#[test]
fn fetch_prefers_sender_over_from() {
    let data = FetchData {
        id: 1,
        flags: Flags::default(),
        subject: None,
        sender: Some(vec![raw(None, b"real", b"x.com")]),
        from: Some(vec![raw(None, b"other", b"x.com")]),
        reply_to: None,
        to: None,
        cc: None,
        bcc: None,
        in_reply_to: None,
        message_id: None,
        date: None,
        parts: Some(Parts(vec![])),
    };
    let msg = Msg::from_fetch(data).unwrap();
    assert_eq!(msg.from.as_ref().unwrap()[0].email, "real@x.com");
}

#[test]
fn envelope_requires_recipients() {
    let mut msg = Msg::default();
    msg.from = Some(vec![parse_addr("me@x.com").unwrap()]);
    let err = msg.to_envelope().unwrap_err();
    assert!(matches!(err, MsgError::EnvelopeConstruction));

    msg.to = Some(vec![parse_addr("alice@x.com").unwrap()]);
    let env = msg.to_envelope().unwrap();
    assert_eq!(env.from.as_ref().unwrap().email, "me@x.com");
    assert_eq!(env.to.len(), 1);
    assert_eq!(env.to[0].email, "alice@x.com");
}

#[test]
fn sendable_collects_body_and_attachments() {
    let mut msg = Msg::default();
    msg.subject = "S".to_string();
    msg.to = Some(vec![parse_addr("alice@x.com").unwrap()]);
    msg.parts = Parts(vec![
        Part::new_text_plain("body".to_string()),
        Part::Binary(BinaryPart {
            filename: "r.pdf".to_string(),
            mime: "application/pdf".to_string(),
            content: vec![1, 2, 3],
        }),
    ]);
    let sm = msg.into_sendable_msg(&account("me@x.com")).unwrap();
    assert_eq!(sm.text, "body");
    assert_eq!(sm.attachments.len(), 1);
    assert_eq!(sm.attachments[0].filename, "r.pdf");
    assert_eq!(sm.envelope.to[0].email, "alice@x.com");
    assert!(sm.encrypt_to.is_none());
}

#[test]
fn sendable_rejects_invalid_attachment_media_type() {
    let mut msg = Msg::default();
    msg.to = Some(vec![parse_addr("alice@x.com").unwrap()]);
    msg.parts = Parts(vec![Part::Binary(BinaryPart {
        filename: "bad.bin".to_string(),
        mime: "definitely not a media type".to_string(),
        content: vec![0],
    })]);
    let err = msg.into_sendable_msg(&account("me@x.com")).unwrap_err();
    match err {
        MsgError::Attachment { path } => assert_eq!(path, "bad.bin"),
        other => panic!("expected an attachment error, got {:?}", other),
    }
}

#[test]
fn sendable_encryption_needs_command_and_recipient() {
    let mut msg = Msg::default();
    msg.to = Some(vec![parse_addr("alice@x.com").unwrap()]);
    msg.parts = Parts(vec![Part::new_text_plain("body".to_string())]);
    let msg = msg.encrypt(true);
    let err = msg.into_sendable_msg(&account("me@x.com")).unwrap_err();
    assert!(matches!(err, MsgError::Encryption));

    let mut acc = account("me@x.com");
    acc.pgp_encrypt_cmd = Some("gpg --encrypt".to_string());
    let sm = msg.into_sendable_msg(&acc).unwrap();
    assert_eq!(sm.encrypt_to.as_deref(), Some("alice@x.com"));
}

#[test]
fn describe_names_each_error() {
    assert_eq!(
        MsgError::BodyParse.describe(),
        "cannot parse message body"
    );
    assert_eq!(MsgError::Encryption.describe(), "cannot encrypt message");
}
