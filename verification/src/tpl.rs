use vstd::prelude::*;
use vstd::string::StrSliceExecFns;
use vstd::string::StringExecFns;
use vstd::utf8::{valid_utf8, decode_utf8};
use crate::account::{Account, TplOverride};
use crate::addr::{Addr, AddrV, addr_of_str, joined_addrs, join_addrs, parse_addrs,
    all_addr_pieces_parse};
use crate::error::MsgError;
use crate::msg::Msg;
use crate::part::{Part, PartV};
use crate::sanitize::folded_plain;
use crate::textutil::{spec_joined, join_strings, split_commas, trimmed_of, trim_str,
    bytes_to_string};

verus! {

/// The lower-case form of an ASCII letter; anything else is itself.
pub open spec fn ascii_lower(c: char) -> char {
    if 'A' <= c && c <= 'Z' {
        ((c as int) + 32) as char
    } else {
        c
    }
}

/// Two header names are the same up to ASCII letter case.
pub open spec fn header_matches(k: Seq<char>, name: Seq<char>) -> bool {
    k.len() == name.len() && (forall|i: int|
        0 <= i < k.len() ==> ascii_lower(k[i]) == ascii_lower(name[i]))
}

/// Lowers one ASCII letter.
fn lower_ascii_char(c: char) -> (r: char)
    ensures
        r == ascii_lower(c),
{
    if 'A' <= c && c <= 'Z' {
        let b = c as u8;
        (b + 32) as char
    } else {
        c
    }
}

/// Compares two strings as header names: equal up to ASCII letter
/// case.
fn eq_ignore_ascii(a: &str, b: &str) -> (r: bool)
    ensures
        r == header_matches(a@, b@),
{
    let n = a.unicode_len();
    let m = b.unicode_len();
    if n != m {
        return false;
    }
    let mut k: usize = 0;
    while k < n
        invariant
            n == a@.len(),
            m == b@.len(),
            n == m,
            k <= n,
            forall|j: int| 0 <= j < k ==> ascii_lower(a@[j]) == ascii_lower(b@[j]),
        decreases n - k,
    {
        if lower_ascii_char(a.get_char(k)) != lower_ascii_char(b.get_char(k)) {
            return false;
        }
        k += 1;
    }
    true
}

/// The value a template header takes: the override joined when one is
/// given, else the entity's addresses written out, else nothing.
pub open spec fn over_join(over: Option<Seq<Seq<char>>>, addrs: Option<Seq<AddrV>>) -> Option<
    Seq<char>,
> {
    match over {
        Some(items) => Some(spec_joined(items, ", "@)),
        None => match addrs {
            Some(list) => Some(joined_addrs(list)),
            None => None,
        },
    }
}

/// The `From` value of a template: the override, else the entity's
/// own senders, else the account's address.
pub open spec fn tpl_from_value(
    over: Option<Seq<Seq<char>>>,
    from: Option<Seq<AddrV>>,
    account_addr: Seq<char>,
) -> Seq<char> {
    match over_join(over, from) {
        Some(v) => v,
        None => account_addr,
    }
}

/// The signature block of a template: the override, else the
/// account's signature, else nothing.
pub open spec fn tpl_sig_text(over: Option<Seq<char>>, account_sig: Option<Seq<char>>) -> Seq<
    char,
> {
    match over {
        Some(s) => "\n\n"@ + s,
        None => match account_sig {
            Some(s) => "\n\n"@ + s,
            None => Seq::empty(),
        },
    }
}

/// The header block of a template: the fixed content-type line, the
/// optional In-Reply-To, the header lines in fixed order, and the
/// blank separator line.
pub open spec fn tpl_header_text(msg: Msg, opts: TplOverride, account: Account) -> Seq<char> {
    "Content-Type: text/plain; charset=utf-8\n"@ + (match msg.in_reply_to {
        Some(s) => "In-Reply-To: "@ + s@ + "\n"@,
        None => Seq::empty(),
    }) + "From: "@ + tpl_from_value(opts.from.deep_view(), msg.from.deep_view(), account.address@)
        + "\nTo: "@ + (match over_join(opts.to.deep_view(), msg.to.deep_view()) {
        Some(v) => v,
        None => Seq::empty(),
    }) + "\n"@ + (match over_join(opts.cc.deep_view(), msg.cc.deep_view()) {
        Some(v) => "Cc: "@ + v + "\n"@,
        None => Seq::empty(),
    }) + (match over_join(opts.bcc.deep_view(), msg.bcc.deep_view()) {
        Some(v) => "Bcc: "@ + v + "\n"@,
        None => Seq::empty(),
    }) + "Subject: "@ + (match opts.subject {
        Some(s) => s@,
        None => msg.subject@,
    }) + "\n\n"@
}

/// The full editable template of a message: the header block, the
/// body and the signature, closed by a newline.
pub open spec fn tpl_text(msg: Msg, opts: TplOverride, account: Account) -> Seq<char> {
    let body = match opts.body {
        Some(b) => b@,
        None => folded_plain(msg.parts@),
    };
    tpl_header_text(msg, opts, account) + body + tpl_sig_text(
        opts.sig.deep_view(),
        account.sig.deep_view(),
    ) + "\n"@
}

impl Msg {
    /// Renders the header block of the template.
    #[verifier::rlimit(100)]
    fn render_tpl_headers(&self, opts: &TplOverride, account: &Account) -> (r: String)
        ensures
            r@ == tpl_header_text(*self, *opts, *account),
    {
        let mut tpl = "Content-Type: text/plain; charset=utf-8\n".to_owned();
        match &self.in_reply_to {
            Some(s) => {
                tpl.append("In-Reply-To: ");
                tpl.append(s.as_str());
                tpl.append("\n");
            },
            None => {},
        }
        let ghost upto_irt = tpl@;
        tpl.append("From: ");
        match &opts.from {
            Some(items) => {
                let joined = join_strings(items, ", ");
                tpl.append(joined.as_str());
            },
            None => {
                match &self.from {
                    Some(list) => {
                        let joined = join_addrs(list);
                        tpl.append(joined.as_str());
                    },
                    None => {
                        let a = account.address();
                        tpl.append(a.as_str());
                    },
                }
            },
        }
        proof {
            assert(tpl@ =~= upto_irt + "From: "@ + tpl_from_value(
                opts.from.deep_view(),
                self.from.deep_view(),
                account.address@,
            ));
        }
        tpl.append("\nTo: ");
        match &opts.to {
            Some(items) => {
                let joined = join_strings(items, ", ");
                tpl.append(joined.as_str());
            },
            None => {
                match &self.to {
                    Some(list) => {
                        let joined = join_addrs(list);
                        tpl.append(joined.as_str());
                    },
                    None => {},
                }
            },
        }
        proof {
            assert(tpl@ =~= upto_irt + "From: "@ + tpl_from_value(
                opts.from.deep_view(),
                self.from.deep_view(),
                account.address@,
            ) + "\nTo: "@ + (match over_join(opts.to.deep_view(), self.to.deep_view()) {
                Some(v) => v,
                None => Seq::<char>::empty(),
            }));
        }
        tpl.append("\n");
        let ghost upto_to = tpl@;
        match &opts.cc {
            Some(items) => {
                let joined = join_strings(items, ", ");
                tpl.append("Cc: ");
                tpl.append(joined.as_str());
                tpl.append("\n");
            },
            None => {
                match &self.cc {
                    Some(list) => {
                        let joined = join_addrs(list);
                        tpl.append("Cc: ");
                        tpl.append(joined.as_str());
                        tpl.append("\n");
                    },
                    None => {},
                }
            },
        }
        proof {
            assert(tpl@ =~= upto_to + (match over_join(opts.cc.deep_view(), self.cc.deep_view()) {
                Some(v) => "Cc: "@ + v + "\n"@,
                None => Seq::<char>::empty(),
            }));
        }
        let ghost upto_cc = tpl@;
        match &opts.bcc {
            Some(items) => {
                let joined = join_strings(items, ", ");
                tpl.append("Bcc: ");
                tpl.append(joined.as_str());
                tpl.append("\n");
            },
            None => {
                match &self.bcc {
                    Some(list) => {
                        let joined = join_addrs(list);
                        tpl.append("Bcc: ");
                        tpl.append(joined.as_str());
                        tpl.append("\n");
                    },
                    None => {},
                }
            },
        }
        proof {
            assert(tpl@ =~= upto_cc + (match over_join(
                opts.bcc.deep_view(),
                self.bcc.deep_view(),
            ) {
                Some(v) => "Bcc: "@ + v + "\n"@,
                None => Seq::<char>::empty(),
            }));
        }
        tpl.append("Subject: ");
        match &opts.subject {
            Some(s) => {
                tpl.append(s.as_str());
            },
            None => {
                tpl.append(self.subject.as_str());
            },
        }
        tpl.append("\n\n");
        tpl
    }

    /// Renders the message as an editable template. The header order
    /// and separators are a byte-exact compatibility surface for the
    /// editor around this library.
    pub fn to_tpl(&self, opts: TplOverride, account: &Account) -> (r: String)
        ensures
            r@ == tpl_text(*self, opts, *account),
    {
        let mut tpl = self.render_tpl_headers(&opts, account);
        let ghost header = tpl@;
        match &opts.body {
            Some(b) => {
                tpl.append(b.as_str());
            },
            None => {
                let folded = self.fold_text_plain_parts();
                tpl.append(folded.as_str());
            },
        }
        proof {
            assert(tpl@ =~= header + (match opts.body {
                Some(b) => b@,
                None => folded_plain(self.parts@),
            }));
        }
        let ghost with_body = tpl@;
        match &opts.sig {
            Some(s) => {
                tpl.append("\n\n");
                tpl.append(s.as_str());
            },
            None => {
                match &account.sig {
                    Some(s) => {
                        tpl.append("\n\n");
                        tpl.append(s.as_str());
                    },
                    None => {},
                }
            },
        }
        proof {
            assert(tpl@ =~= with_body + tpl_sig_text(
                opts.sig.deep_view(),
                account.sig.deep_view(),
            ));
        }
        tpl.append("\n");
        proof {
            assert(tpl@ =~= tpl_text(*self, opts, *account));
        }
        tpl
    }
}

/// What the external mail parser makes of a template: the header
/// fields (name and raw value bytes) and the transfer-decoded body.
pub uninterp spec fn mail_split_of(s: Seq<char>) -> Option<
    (Seq<(Seq<char>, Seq<u8>)>, Option<Seq<u8>>),
>;

/// Relies on mailparse::parse_mail: splits a mail text into its
/// header fields (via MailHeader's key and raw value) and its
/// transfer-decoded body (via get_body_raw).
#[verifier::external_body]
fn split_mail(s: &str) -> (r: Option<(Vec<(String, Vec<u8>)>, Option<Vec<u8>>)>)
    ensures
        (r is Some) <==> (mail_split_of(s@) is Some),
        r matches Some(p) ==> mail_split_of(s@) == Some((p.0.deep_view(), p.1.deep_view())),
{
    let parsed = mailparse::parse_mail(s.as_bytes()).ok()?;
    let headers = parsed.headers.iter().map(|h| (h.get_key(), h.get_value_raw().to_vec())).collect();
    let body = parsed.get_body_raw().ok();
    Some((headers, body))
}

/// The header fields a template can set on a fresh message.
pub ghost struct TplMsgV {
    pub message_id: Option<Seq<char>>,
    pub in_reply_to: Option<Seq<char>>,
    pub subject: Seq<char>,
    pub from: Option<Seq<AddrV>>,
    pub reply_to: Option<Seq<AddrV>>,
    pub to: Option<Seq<AddrV>>,
    pub cc: Option<Seq<AddrV>>,
    pub bcc: Option<Seq<AddrV>>,
}

/// A fresh message's template fields: everything absent, the subject
/// empty.
pub open spec fn init_tpl_msg() -> TplMsgV {
    TplMsgV {
        message_id: None,
        in_reply_to: None,
        subject: Seq::empty(),
        from: None,
        reply_to: None,
        to: None,
        cc: None,
        bcc: None,
    }
}

/// The addresses a comma-separated list parses to, absent when some
/// piece is rejected.
pub open spec fn addrs_of_list(s: Seq<char>) -> Option<Seq<AddrV>> {
    if all_addr_pieces_parse(s) {
        Some(
            Seq::new(
                split_commas(s).len(),
                |i: int| addr_of_str(trimmed_of(split_commas(s)[i]))->Some_0,
            ),
        )
    } else {
        None
    }
}

/// One header applied to the fields: a recognized name sets its
/// field from the trimmed decoded value, an unrecognized one is
/// ignored, and a value that is not text or not a parsable address
/// list fails.
pub open spec fn apply_header(m: TplMsgV, key: Seq<char>, raw: Seq<u8>) -> Option<TplMsgV> {
    if !valid_utf8(raw) {
        None
    } else {
        let val = trimmed_of(decode_utf8(raw));
        if header_matches(key, "message-id"@) {
            Some(TplMsgV { message_id: Some(val), ..m })
        } else if header_matches(key, "in-reply-to"@) {
            Some(TplMsgV { in_reply_to: Some(val), ..m })
        } else if header_matches(key, "subject"@) {
            Some(TplMsgV { subject: val, ..m })
        } else if header_matches(key, "from"@) {
            match addrs_of_list(val) {
                Some(a) => Some(TplMsgV { from: Some(a), ..m }),
                None => None,
            }
        } else if header_matches(key, "to"@) {
            match addrs_of_list(val) {
                Some(a) => Some(TplMsgV { to: Some(a), ..m }),
                None => None,
            }
        } else if header_matches(key, "reply-to"@) {
            match addrs_of_list(val) {
                Some(a) => Some(TplMsgV { reply_to: Some(a), ..m }),
                None => None,
            }
        } else if header_matches(key, "cc"@) {
            match addrs_of_list(val) {
                Some(a) => Some(TplMsgV { cc: Some(a), ..m }),
                None => None,
            }
        } else if header_matches(key, "bcc"@) {
            match addrs_of_list(val) {
                Some(a) => Some(TplMsgV { bcc: Some(a), ..m }),
                None => None,
            }
        } else {
            Some(m)
        }
    }
}

/// Every header applied in order; the first failing one fails all.
pub open spec fn apply_headers(m: TplMsgV, hs: Seq<(Seq<char>, Seq<u8>)>) -> Option<TplMsgV>
    decreases hs.len(),
{
    if hs.len() == 0 {
        Some(m)
    } else {
        match apply_header(m, hs[0].0, hs[0].1) {
            Some(m2) => apply_headers(m2, hs.skip(1)),
            None => None,
        }
    }
}

/// A template parses when the mail parser splits it, every recognized
/// header's value decodes and parses, and the body is valid text.
pub open spec fn tpl_parses(s: Seq<char>) -> bool {
    &&& mail_split_of(s) matches Some(p)
    &&& apply_headers(init_tpl_msg(), p.0) is Some
    &&& p.1 matches Some(b) && valid_utf8(b)
}

/// The template fields of a message under construction.
pub open spec fn tpl_view(m: Msg) -> TplMsgV {
    TplMsgV {
        message_id: m.message_id.deep_view(),
        in_reply_to: m.in_reply_to.deep_view(),
        subject: m.subject@,
        from: m.from.deep_view(),
        reply_to: m.reply_to.deep_view(),
        to: m.to.deep_view(),
        cc: m.cc.deep_view(),
        bcc: m.bcc.deep_view(),
    }
}

impl Msg {
    /// Parses an edited template back into a fresh message: recognized
    /// headers fill the fields, unrecognized ones are ignored, and the
    /// decoded body becomes the single plain-text part. Fails when the
    /// text cannot be split into headers and body, when a header value
    /// is not valid text, or when an address list does not parse, each
    /// failure naming the offending header.
    #[verifier::rlimit(100)]
    pub fn from_tpl(tpl: &str) -> (r: Result<Msg, MsgError>)
        ensures
            (r is Ok) <==> tpl_parses(tpl@),
            r matches Ok(m) ==> {
                let p = mail_split_of(tpl@)->Some_0;
                &&& Some(tpl_view(m)) == apply_headers(init_tpl_msg(), p.0)
                &&& m.parts@ == seq![PartV::TextPlain(decode_utf8(p.1->Some_0))]
                &&& m.id == 0
                &&& m.flags.0@.len() == 0
                &&& m.date is None
                &&& m.encrypt == false
            },
            r matches Err(e) ==> match e {
                MsgError::BodyParse => true,
                MsgError::TemplateParse { .. } => true,
                _ => false,
            },
    {
        let parsed = match split_mail(tpl) {
            Some(p) => p,
            None => {
                return Err(MsgError::BodyParse);
            },
        };
        let (headers, raw_body) = parsed;
        let mut msg = Msg::default();
        let ghost hs = headers.deep_view();
        let ghost bodyspec = raw_body.deep_view();
        proof {
            assert(mail_split_of(tpl@) == Some((hs, bodyspec)));
        }
        let mut i: usize = 0;
        proof {
            assert(tpl_view(msg) == init_tpl_msg());
            assert(hs.skip(0) =~= hs);
        }
        while i < headers.len()
            invariant
                i <= headers.len(),
                hs == headers.deep_view(),
                mail_split_of(tpl@) == Some((hs, bodyspec)),
                apply_headers(init_tpl_msg(), hs) == apply_headers(
                    tpl_view(msg),
                    hs.skip(i as int),
                ),
                msg.id == 0,
                msg.flags.0@.len() == 0,
                msg.date is None,
                msg.encrypt == false,
                msg.parts@ == Seq::<PartV>::empty(),
            decreases headers.len() - i,
        {
            proof {
                assert(hs.skip(i as int)[0] == hs[i as int]);
                assert(hs.skip(i as int).skip(1) =~= hs.skip(i + 1));
                assert(hs[i as int].0 == headers[i as int].0@);
                assert(hs[i as int].1 == headers[i as int].1@);
            }
            let key = &headers[i].0;
            let decoded = match bytes_to_string(&headers[i].1) {
                Some(v) => v,
                None => {
                    proof {
                        assert(apply_header(tpl_view(msg), hs[i as int].0, hs[i as int].1)
                            is None);
                        assert(apply_headers(tpl_view(msg), hs.skip(i as int)) is None);
                    }
                    return Err(
                        MsgError::TemplateParse {
                            header: key.clone(),
                            cause: Box::new(MsgError::HeaderDecode { header: key.clone() }),
                        },
                    );
                },
            };
            let val = trim_str(decoded.as_str());
            if eq_ignore_ascii(key.as_str(), "message-id") {
                msg.message_id = Some(val);
            } else if eq_ignore_ascii(key.as_str(), "in-reply-to") {
                msg.in_reply_to = Some(val);
            } else if eq_ignore_ascii(key.as_str(), "subject") {
                msg.subject = val;
            } else if eq_ignore_ascii(key.as_str(), "from") {
                match parse_addrs(val.as_str()) {
                    Ok(a) => {
                        proof {
                            lemma_parsed_addrs_view(&a, val@);
                        }
                        msg.from = a;
                    },
                    Err(e) => {
                        proof {
                            assert(apply_header(tpl_view(msg), hs[i as int].0, hs[i as int].1)
                                is None);
                            assert(apply_headers(tpl_view(msg), hs.skip(i as int)) is None);
                        }
                        return Err(
                            MsgError::TemplateParse { header: key.clone(), cause: Box::new(e) },
                        );
                    },
                }
            } else if eq_ignore_ascii(key.as_str(), "to") {
                match parse_addrs(val.as_str()) {
                    Ok(a) => {
                        proof {
                            lemma_parsed_addrs_view(&a, val@);
                        }
                        msg.to = a;
                    },
                    Err(e) => {
                        proof {
                            assert(apply_header(tpl_view(msg), hs[i as int].0, hs[i as int].1)
                                is None);
                            assert(apply_headers(tpl_view(msg), hs.skip(i as int)) is None);
                        }
                        return Err(
                            MsgError::TemplateParse { header: key.clone(), cause: Box::new(e) },
                        );
                    },
                }
            } else if eq_ignore_ascii(key.as_str(), "reply-to") {
                match parse_addrs(val.as_str()) {
                    Ok(a) => {
                        proof {
                            lemma_parsed_addrs_view(&a, val@);
                        }
                        msg.reply_to = a;
                    },
                    Err(e) => {
                        proof {
                            assert(apply_header(tpl_view(msg), hs[i as int].0, hs[i as int].1)
                                is None);
                            assert(apply_headers(tpl_view(msg), hs.skip(i as int)) is None);
                        }
                        return Err(
                            MsgError::TemplateParse { header: key.clone(), cause: Box::new(e) },
                        );
                    },
                }
            } else if eq_ignore_ascii(key.as_str(), "cc") {
                match parse_addrs(val.as_str()) {
                    Ok(a) => {
                        proof {
                            lemma_parsed_addrs_view(&a, val@);
                        }
                        msg.cc = a;
                    },
                    Err(e) => {
                        proof {
                            assert(apply_header(tpl_view(msg), hs[i as int].0, hs[i as int].1)
                                is None);
                            assert(apply_headers(tpl_view(msg), hs.skip(i as int)) is None);
                        }
                        return Err(
                            MsgError::TemplateParse { header: key.clone(), cause: Box::new(e) },
                        );
                    },
                }
            } else if eq_ignore_ascii(key.as_str(), "bcc") {
                match parse_addrs(val.as_str()) {
                    Ok(a) => {
                        proof {
                            lemma_parsed_addrs_view(&a, val@);
                        }
                        msg.bcc = a;
                    },
                    Err(e) => {
                        proof {
                            assert(apply_header(tpl_view(msg), hs[i as int].0, hs[i as int].1)
                                is None);
                            assert(apply_headers(tpl_view(msg), hs.skip(i as int)) is None);
                        }
                        return Err(
                            MsgError::TemplateParse { header: key.clone(), cause: Box::new(e) },
                        );
                    },
                }
            }
            i += 1;
        }
        proof {
            assert(hs.skip(headers.len() as int).len() == 0);
        }
        let body = match raw_body {
            Some(bytes) => {
                proof {
                    assert(bodyspec == Some(bytes@));
                }
                match bytes_to_string(&bytes) {
                    Some(s) => s,
                    None => {
                        return Err(MsgError::BodyParse);
                    },
                }
            },
            None => {
                proof {
                    assert(bodyspec is None);
                }
                return Err(MsgError::BodyParse);
            },
        };
        msg.parts.push(Part::new_text_plain(body));
        proof {
            assert(msg.parts@ =~= seq![
                PartV::TextPlain(decode_utf8(mail_split_of(tpl@)->Some_0.1->Some_0)),
            ]);
        }
        Ok(msg)
    }
}

/// What `parse_addrs` hands back, seen through views: exactly the
/// parsed pieces of the list.
proof fn lemma_parsed_addrs_view(a: &Option<Vec<Addr>>, s: Seq<char>)
    requires
        all_addr_pieces_parse(s),
        a matches Some(v) && v.len() == split_commas(s).len() && (forall|i: int|
            0 <= i < v.len() ==> Some(#[trigger] v[i]@) == addr_of_str(
                trimmed_of(split_commas(s)[i]),
            )),
    ensures
        a.deep_view() == addrs_of_list(s),
{
    let v = a->Some_0;
    assert(v.deep_view() =~= addrs_of_list(s)->Some_0);
}

} // verus!
