use mail_entity::account::{Account, TplOverride};
use mail_entity::addr::parse_addr;
use mail_entity::msg::Msg;
use mail_entity::part::{Part, Parts};
use mail_entity::MsgError;
use mail_entity::edit::{
    post_edit_action, pre_edit_action, PostEditAction, PostEditChoice, PreEditAction,
    PreEditChoice,
};

fn account(addr: &str) -> Account {
    Account {
        address: addr.to_string(),
        sig: None,
        sig_delim: "-- ".to_string(),
        pgp_encrypt_cmd: None,
    }
}

#[test]
fn template_renders_fixed_header_order() {
    let mut msg = Msg::default();
    msg.in_reply_to = Some("<id1@x.com>".to_string());
    msg.to = Some(vec![parse_addr("alice@x.com").unwrap()]);
    msg.subject = "Hello".to_string();
    msg.parts = Parts(vec![Part::new_text_plain("Body".to_string())]);
    let tpl = msg.to_tpl(TplOverride::default(), &account("me@x.com"));
    assert_eq!(
        tpl,
        "Content-Type: text/plain; charset=utf-8\nIn-Reply-To: <id1@x.com>\nFrom: me@x.com\nTo: alice@x.com\nSubject: Hello\n\nBody\n"
    );
}

#[test]
fn template_renders_copies_and_signature() {
    let mut msg = Msg::default();
    msg.to = Some(vec![parse_addr("alice@x.com").unwrap()]);
    msg.cc = Some(vec![
        parse_addr("carol@x.com").unwrap(),
        parse_addr("dan@x.com").unwrap(),
    ]);
    msg.bcc = Some(vec![parse_addr("eve@x.com").unwrap()]);
    msg.subject = "S".to_string();
    msg.parts = Parts(vec![Part::new_text_plain("B".to_string())]);
    let mut acc = account("me@x.com");
    acc.sig = Some("me, signing off".to_string());
    let tpl = msg.to_tpl(TplOverride::default(), &acc);
    assert_eq!(
        tpl,
        "Content-Type: text/plain; charset=utf-8\nFrom: me@x.com\nTo: alice@x.com\nCc: carol@x.com, dan@x.com\nBcc: eve@x.com\nSubject: S\n\nB\n\nme, signing off\n"
    );
}

#[test]
fn template_overrides_take_precedence() {
    let mut msg = Msg::default();
    msg.to = Some(vec![parse_addr("alice@x.com").unwrap()]);
    msg.subject = "Old".to_string();
    msg.parts = Parts(vec![Part::new_text_plain("old body".to_string())]);
    let opts = TplOverride {
        subject: Some("New".to_string()),
        from: Some(vec!["other@x.com".to_string()]),
        to: Some(vec!["t1@x.com".to_string(), "t2@x.com".to_string()]),
        cc: None,
        bcc: None,
        sig: Some("sig text".to_string()),
        body: Some("new body".to_string()),
    };
    let tpl = msg.to_tpl(opts, &account("me@x.com"));
    assert_eq!(
        tpl,
        "Content-Type: text/plain; charset=utf-8\nFrom: other@x.com\nTo: t1@x.com, t2@x.com\nSubject: New\n\nnew body\n\nsig text\n"
    );
}

#[test]
fn template_round_trips_headers_and_body() {
    let mut msg = Msg::default();
    msg.subject = "Hello".to_string();
    msg.to = Some(vec![parse_addr("alice@x.com").unwrap()]);
    msg.cc = Some(vec![parse_addr("carol@x.com").unwrap()]);
    msg.bcc = Some(vec![parse_addr("eve@x.com").unwrap()]);
    msg.parts = Parts(vec![Part::new_text_plain("Body line".to_string())]);
    let tpl = msg.to_tpl(TplOverride::default(), &account("me@x.com"));
    let back = Msg::from_tpl(&tpl).unwrap();
    assert_eq!(back.subject, "Hello");
    let to = back.to.as_ref().unwrap();
    assert_eq!(to.len(), 1);
    assert_eq!(to[0].email, "alice@x.com");
    let cc = back.cc.as_ref().unwrap();
    assert_eq!(cc.len(), 1);
    assert_eq!(cc[0].email, "carol@x.com");
    let bcc = back.bcc.as_ref().unwrap();
    assert_eq!(bcc.len(), 1);
    assert_eq!(bcc[0].email, "eve@x.com");
    assert_eq!(back.fold_text_plain_parts().trim(), "Body line");
    // templates regenerate the message identifier
    assert!(back.message_id.is_none());
}

#[test]
fn template_parses_headers_case_insensitively() {
    let tpl = "SUBJECT: Shout\nTO: alice@x.com\n\nhi\n";
    let msg = Msg::from_tpl(tpl).unwrap();
    assert_eq!(msg.subject, "Shout");
    assert_eq!(msg.to.as_ref().unwrap()[0].email, "alice@x.com");
}

#[test]
fn template_ignores_unknown_headers() {
    let tpl = "X-Unknown: whatever\nSubject: S\n\nbody\n";
    let msg = Msg::from_tpl(tpl).unwrap();
    assert_eq!(msg.subject, "S");
    assert!(msg.from.is_none());
}

#[test]
fn template_with_bad_address_names_the_header() {
    let tpl = "To: not an address at all\n\nbody\n";
    let err = Msg::from_tpl(tpl).unwrap_err();
    match err {
        MsgError::TemplateParse { header, cause } => {
            assert_eq!(header, "To");
            assert!(matches!(*cause, MsgError::AddressParse { .. }));
        }
        other => panic!("expected a template error, got {:?}", other),
    }
}

#[test]
fn template_body_becomes_single_plain_part() {
    let tpl = "Subject: S\n\nline one\nline two\n";
    let msg = Msg::from_tpl(tpl).unwrap();
    assert_eq!(msg.parts.0.len(), 1);
    match &msg.parts.0[0] {
        Part::TextPlain(p) => assert_eq!(p.content, "line one\nline two\n"),
        other => panic!("expected a plain part, got {:?}", other),
    }
}

#[test]
fn address_strings_round_trip() {
    let a = parse_addr("Alice <alice@x.com>").unwrap();
    assert_eq!(a.render(), "Alice <alice@x.com>");
    let b = parse_addr("bob@y.org").unwrap();
    assert_eq!(b.render(), "bob@y.org");
    let c = parse_addr("  spaced@x.com  ").unwrap();
    assert_eq!(c.render(), "spaced@x.com");
}

#[test]
fn address_lists_parse_and_reject() {
    let list = mail_entity::addr::parse_addrs("a@x.com, B <b@x.com>")
        .unwrap()
        .unwrap();
    assert_eq!(list.len(), 2);
    assert_eq!(list[0].email, "a@x.com");
    assert_eq!(list[1].email, "b@x.com");
    assert_eq!(list[1].name.as_deref(), Some("B"));

    let err = mail_entity::addr::parse_addrs("a@x.com, broken").unwrap_err();
    assert!(matches!(err, MsgError::AddressParse { .. }));
}

#[test]
fn parse_addr_rejects_garbage() {
    let err = parse_addr("no at sign").unwrap_err();
    match err {
        MsgError::AddressParse { input } => assert_eq!(input, "no at sign"),
        other => panic!("expected an address error, got {:?}", other),
    }
}

#[test]
fn edit_flow_decisions() {
    assert_eq!(
        pre_edit_action(false, PreEditChoice::Quit),
        PreEditAction::OpenTemplate
    );
    assert_eq!(
        pre_edit_action(true, PreEditChoice::Edit),
        PreEditAction::OpenDraft
    );
    assert_eq!(
        pre_edit_action(true, PreEditChoice::Discard),
        PreEditAction::OpenTemplate
    );
    assert_eq!(pre_edit_action(true, PreEditChoice::Quit), PreEditAction::Stop);
    assert_eq!(
        post_edit_action(PostEditChoice::Send),
        PostEditAction::SendMsg
    );
    assert_eq!(
        post_edit_action(PostEditChoice::RemoteDraft),
        PostEditAction::SaveRemote
    );
}
