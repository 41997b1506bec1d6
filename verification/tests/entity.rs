use mail_entity::account::{Account, Flags};
use mail_entity::addr::parse_addr;
use mail_entity::msg::{AttachmentSource, Msg};
use mail_entity::part::{BinaryPart, Part, Parts, TextPlainPart};
use mail_entity::MsgError;

fn account(addr: &str) -> Account {
    Account {
        address: addr.to_string(),
        sig: None,
        sig_delim: "-- ".to_string(),
        pgp_encrypt_cmd: None,
    }
}

fn plain_msg(subject: &str, from: &str, body: &str) -> Msg {
    let mut msg = Msg::default();
    msg.subject = subject.to_string();
    msg.from = Some(vec![parse_addr(from).unwrap()]);
    msg.parts = Parts(vec![Part::new_text_plain(body.to_string())]);
    msg
}

#[test]
fn reply_single_recipient_and_clears_copies() {
    let mut msg = plain_msg("Meeting", "alice@x.com", "Hi");
    msg.cc = Some(vec![parse_addr("carol@x.com").unwrap()]);
    msg.bcc = Some(vec![parse_addr("dan@x.com").unwrap()]);
    let reply = msg.into_reply(false, &account("bob@x.com")).unwrap();
    let to = reply.to.as_ref().unwrap();
    assert_eq!(to.len(), 1);
    assert_eq!(to[0].email, "alice@x.com");
    assert!(reply.cc.is_none());
    assert!(reply.bcc.is_none());
}

#[test]
fn reply_scenario_meeting() {
    let msg = plain_msg("Meeting", "alice@x.com", "Hi");
    let reply = msg.into_reply(false, &account("bob@x.com")).unwrap();
    assert_eq!(reply.subject, "Re: Meeting");
    let to = reply.to.as_ref().unwrap();
    assert_eq!(to.len(), 1);
    assert_eq!(to[0].email, "alice@x.com");
    let from = reply.from.as_ref().unwrap();
    assert_eq!(from.len(), 1);
    assert_eq!(from[0].email, "bob@x.com");
    match &reply.parts.0[..] {
        [Part::TextPlain(p)] => {
            assert_eq!(p.content, "\n\nOn unknown date, alice@x.com wrote:\n> Hi");
        }
        other => panic!("expected one plain part, got {:?}", other),
    }
}

#[test]
fn reply_all_keeps_other_recipients_in_order() {
    let mut msg = plain_msg("Topic", "alice@x.com", "Hi");
    msg.reply_to = Some(vec![
        parse_addr("alice@x.com").unwrap(),
        parse_addr("bob@x.com").unwrap(),
        parse_addr("carol@x.com").unwrap(),
    ]);
    msg.cc = Some(vec![parse_addr("carol@x.com").unwrap()]);
    let reply = msg.into_reply(true, &account("bob@x.com")).unwrap();
    let to = reply.to.as_ref().unwrap();
    let emails: Vec<&str> = to.iter().map(|a| a.email.as_str()).collect();
    assert_eq!(emails, vec!["alice@x.com", "carol@x.com"]);
    // carbon copies stay for a reply to everyone
    assert!(reply.cc.is_some());
}

#[test]
fn reply_to_own_message_leaves_no_recipient() {
    let msg = plain_msg("S", "bob@x.com", "Hi");
    let reply = msg.into_reply(false, &account("bob@x.com")).unwrap();
    assert!(reply.to.is_none());
}

#[test]
fn reply_prefers_reply_to_over_from() {
    let mut msg = plain_msg("S", "alice@x.com", "Hi");
    msg.reply_to = Some(vec![parse_addr("list@x.com").unwrap()]);
    let reply = msg.into_reply(false, &account("bob@x.com")).unwrap();
    assert_eq!(reply.to.as_ref().unwrap()[0].email, "list@x.com");
}

#[test]
fn reply_twice_never_stacks_prefixes() {
    let msg = plain_msg("Meeting", "alice@x.com", "Hi");
    let acc = account("bob@x.com");
    let once = msg.into_reply(false, &acc).unwrap();
    assert_eq!(once.subject, "Re: Meeting");
    let twice = once.into_reply(false, &acc).unwrap();
    assert_eq!(twice.subject, "Re: Meeting");
}

#[test]
fn reply_quoting_stops_at_signature_delimiter() {
    let msg = plain_msg("S", "alice@x.com", "line1\nline2\n-- \nsig line");
    let reply = msg.into_reply(false, &account("bob@x.com")).unwrap();
    match &reply.parts.0[..] {
        [Part::TextPlain(p)] => {
            assert_eq!(
                p.content,
                "\n\nOn unknown date, alice@x.com wrote:\n> line1\n> line2"
            );
        }
        other => panic!("expected one plain part, got {:?}", other),
    }
}

#[test]
fn reply_quoting_glues_already_quoted_lines() {
    let msg = plain_msg("S", "alice@x.com", "fresh\n> old");
    let reply = msg.into_reply(false, &account("bob@x.com")).unwrap();
    match &reply.parts.0[..] {
        [Part::TextPlain(p)] => {
            assert_eq!(
                p.content,
                "\n\nOn unknown date, alice@x.com wrote:\n> fresh\n>> old"
            );
        }
        other => panic!("expected one plain part, got {:?}", other),
    }
}

#[test]
fn reply_uses_display_name_and_date() {
    let mut msg = plain_msg("S", "alice@x.com", "Hi");
    msg.from = Some(vec![parse_addr("Alice <alice@x.com>").unwrap()]);
    msg.date = Some(mail_entity::date::MsgDate {
        secs: 1609857000,
        offset_secs: 0,
    });
    let reply = msg.into_reply(false, &account("bob@x.com")).unwrap();
    match &reply.parts.0[..] {
        [Part::TextPlain(p)] => {
            assert_eq!(p.content, "\n\nOn 05 Jan 2021, at 14:30, Alice wrote:\n> Hi");
        }
        other => panic!("expected one plain part, got {:?}", other),
    }
}

#[test]
fn reply_fails_only_on_bad_account_address() {
    let msg = plain_msg("S", "alice@x.com", "Hi");
    let err = msg.into_reply(false, &account("not an address")).unwrap_err();
    assert!(matches!(err, MsgError::AddressParse { .. }));
}

#[test]
fn forward_builds_quoted_block() {
    let mut msg = plain_msg("Meeting", "alice@x.com", "Hi");
    msg.to = Some(vec![parse_addr("bob@x.com").unwrap()]);
    msg.date = Some(mail_entity::date::MsgDate {
        secs: 1609857000,
        offset_secs: 0,
    });
    let fwd = msg.into_forward(&account("bob@x.com")).unwrap();
    assert_eq!(fwd.subject, "Fwd: Meeting");
    assert_eq!(fwd.to.as_ref().unwrap().len(), 0);
    assert!(fwd.cc.is_none());
    assert!(fwd.bcc.is_none());
    match &fwd.parts.0[..] {
        [Part::TextPlain(p)] => {
            assert_eq!(
                p.content,
                "\n\n-------- Forwarded Message --------\nSubject: Meeting\nDate: Tue, 5 Jan 2021 14:30:00 +0000\nFrom: alice@x.com\nTo: bob@x.com\n\nHi"
            );
        }
        other => panic!("expected one plain part, got {:?}", other),
    }
}

#[test]
fn forward_keeps_attachments_and_html() {
    let mut msg = plain_msg("S", "alice@x.com", "Hi");
    msg.parts.0.push(Part::Binary(BinaryPart {
        filename: "a.bin".to_string(),
        mime: "application/octet-stream".to_string(),
        content: vec![1, 2],
    }));
    let fwd = msg.into_forward(&account("bob@x.com")).unwrap();
    assert_eq!(fwd.parts.0.len(), 2);
    assert!(matches!(fwd.parts.0[0], Part::Binary(_)));
    assert!(matches!(fwd.parts.0[1], Part::TextPlain(_)));
}

#[test]
fn fold_html_only_strips_tags_and_collapses() {
    // The external sanitizer strips markup and keeps the text; it
    // inserts no break of its own between adjacent elements.
    let mut msg = Msg::default();
    msg.parts = Parts(vec![Part::new_text_html("<p>Hi</p><p>There</p>".to_string())]);
    assert_eq!(msg.fold_text_plain_parts(), "HiThere");
    // A run of source line breaks between paragraphs collapses to one
    // blank line.
    let mut spaced = Msg::default();
    spaced.parts = Parts(vec![Part::new_text_html(
        "<p>Hi</p>\n\n\n<p>There</p>".to_string(),
    )]);
    assert_eq!(spaced.fold_text_plain_parts(), "Hi\n\nThere");
}

#[test]
fn fold_plain_text_is_idempotent() {
    let mut msg = Msg::default();
    msg.parts = Parts(vec![Part::new_text_plain("a\n\n\n\nb\tc   d".to_string())]);
    let once = msg.fold_text_plain_parts();
    let mut msg2 = Msg::default();
    msg2.parts = Parts(vec![Part::new_text_plain(once.clone())]);
    let twice = msg2.fold_text_plain_parts();
    assert_eq!(once, twice);

    let mut html = Msg::default();
    html.parts = Parts(vec![Part::new_text_html(
        "<p>Hi&nbsp;you</p>\n\n\n<p>There &amp; back</p>".to_string(),
    )]);
    let honce = html.fold_text_plain_parts();
    let mut html2 = Msg::default();
    html2.parts = Parts(vec![Part::new_text_plain(honce.clone())]);
    assert_eq!(honce, html2.fold_text_plain_parts());
}

#[test]
fn fold_decodes_entities_and_spaces() {
    let mut msg = Msg::default();
    msg.parts = Parts(vec![Part::new_text_html("a&nbsp;&amp;&nbsp;b".to_string())]);
    assert_eq!(msg.fold_text_plain_parts(), "a & b");
}

#[test]
fn fold_text_parts_dispatches_on_format() {
    let mut msg = Msg::default();
    msg.parts = Parts(vec![
        Part::new_text_plain("plain".to_string()),
        Part::new_text_html("<b>html</b>".to_string()),
    ]);
    assert_eq!(msg.fold_text_parts("plain"), "plain");
    assert_eq!(msg.fold_text_parts("html"), "<b>html</b>");
}

#[test]
fn merge_keeps_absent_fields_and_takes_present_ones() {
    let x = parse_addr("x@y.z").unwrap();
    let mut a = Msg::default();
    a.to = Some(vec![x]);
    let mut b = Msg::default();
    b.to = None;
    a.merge_with(b);
    assert_eq!(a.to.as_ref().unwrap().len(), 1);
    assert_eq!(a.to.as_ref().unwrap()[0].email, "x@y.z");

    let mut c = Msg::default();
    c.to = Some(vec![]);
    a.merge_with(c);
    assert_eq!(a.to.as_ref().unwrap().len(), 0);
}

#[test]
fn merge_subject_only_when_nonempty() {
    let mut a = Msg::default();
    a.subject = "old".to_string();
    let b = Msg::default();
    a.merge_with(b);
    assert_eq!(a.subject, "old");
    let mut c = Msg::default();
    c.subject = "new".to_string();
    a.merge_with(c);
    assert_eq!(a.subject, "new");
}

#[test]
fn merge_replaces_text_parts_and_appends_binaries() {
    let mut a = Msg::default();
    a.parts = Parts(vec![
        Part::TextPlain(TextPlainPart {
            content: "old".to_string(),
        }),
        Part::Binary(BinaryPart {
            filename: "a1.bin".to_string(),
            mime: "application/octet-stream".to_string(),
            content: vec![1],
        }),
    ]);
    let mut b = Msg::default();
    b.parts = Parts(vec![
        Part::TextPlain(TextPlainPart {
            content: "new".to_string(),
        }),
        Part::Binary(BinaryPart {
            filename: "b1.bin".to_string(),
            mime: "application/octet-stream".to_string(),
            content: vec![2],
        }),
    ]);
    a.merge_with(b);
    let plains: Vec<&str> = a
        .parts
        .0
        .iter()
        .filter_map(|p| match p {
            Part::TextPlain(t) => Some(t.content.as_str()),
            _ => None,
        })
        .collect();
    assert_eq!(plains, vec!["new"]);
    let bins = a.attachments();
    assert_eq!(bins.len(), 2);
    assert_eq!(bins[0].filename, "a1.bin");
    assert_eq!(bins[1].filename, "b1.bin");
    assert_eq!(a.parts.0.len(), 3);
}

#[test]
fn attachments_filters_binary_parts() {
    let mut msg = Msg::default();
    msg.parts = Parts(vec![
        Part::new_text_plain("body".to_string()),
        Part::Binary(BinaryPart {
            filename: "f.txt".to_string(),
            mime: "text/plain".to_string(),
            content: vec![104, 105],
        }),
    ]);
    let atts = msg.attachments();
    assert_eq!(atts.len(), 1);
    assert_eq!(atts[0].filename, "f.txt");
    assert_eq!(atts[0].content, vec![104, 105]);
}

#[test]
fn attaching_unreadable_file_names_its_path() {
    let msg = Msg::default();
    let err = msg
        .add_attachments(vec![AttachmentSource {
            path: "/no/such/file.bin".to_string(),
            content: None,
        }])
        .unwrap_err();
    match err {
        MsgError::Attachment { path } => assert_eq!(path, "/no/such/file.bin"),
        other => panic!("expected an attachment error, got {:?}", other),
    }
}

#[test]
fn attaching_readable_file_appends_binary_part() {
    let msg = Msg::default();
    let msg = msg
        .add_attachments(vec![AttachmentSource {
            path: "/tmp/files/report.pdf".to_string(),
            content: Some(vec![37, 80, 68, 70]),
        }])
        .unwrap();
    let atts = msg.attachments();
    assert_eq!(atts.len(), 1);
    assert_eq!(atts[0].filename, "report.pdf");
    assert_eq!(atts[0].content, vec![37, 80, 68, 70]);
    assert!(!atts[0].mime.is_empty());
}

#[test]
fn encrypt_toggle_sets_flag() {
    let msg = Msg::default();
    assert!(!msg.encrypt);
    let msg = msg.encrypt(true);
    assert!(msg.encrypt);
    let _ = Flags::default();
}
