use vstd::prelude::*;
use vstd::string::StrSliceExecFns;
use vstd::string::StringExecFns;
use crate::account::Account;
use crate::addr::{Addr, AddrV, addr_of_str, joined_addrs, join_addrs, parse_mailbox};
use crate::date::{MsgDate, date_renderable, date_is_renderable, rfc2822_text, format_rfc2822,
    reply_date_view, render_reply_date};
use crate::error::MsgError;
use crate::msg::Msg;
use crate::part::{Part, Parts, PartV, drop_plains, TextPlainPart};
use crate::sanitize::folded_plain;
use crate::textutil::{spec_lines, spec_starts_with, split_lines, str_starts_with, trimmed_of,
    trim_str, clone_opt_string};

verus! {

/// A subject with the reply prefix, added unless one is already
/// there.
pub open spec fn reply_subject(s: Seq<char>) -> Seq<char> {
    if spec_starts_with(s, "Re:"@) {
        s
    } else {
        "Re: "@ + s
    }
}

/// A subject with the forward prefix, added unless one is already
/// there.
pub open spec fn forward_subject(s: Seq<char>) -> Seq<char> {
    if spec_starts_with(s, "Fwd:"@) {
        s
    } else {
        "Fwd: "@ + s
    }
}

/// Prefixing a subject for a reply is idempotent: transforming a
/// message twice never stacks a second prefix.
pub proof fn lemma_reply_subject_idempotent(s: Seq<char>)
    ensures
        reply_subject(reply_subject(s)) == reply_subject(s),
{
    reveal_strlit("Re:");
    reveal_strlit("Re: ");
    if !spec_starts_with(s, "Re:"@) {
        assert(("Re: "@ + s).take(3) =~= "Re:"@);
    }
}

/// The source recipients with one address removed everywhere it
/// occurs, in their original order.
pub open spec fn without_addr(list: Seq<AddrV>, me: AddrV) -> Seq<AddrV> {
    list.filter(|a: AddrV| a != me)
}

/// A reply to everyone keeps exactly the source recipients other than
/// the sender's own address: none of them is the sender's, and every
/// other one is kept; their order is the source's, since they form a
/// filtered subsequence.
pub proof fn lemma_reply_all_recipients(list: Seq<AddrV>, me: AddrV)
    ensures
        forall|k: int|
            0 <= k < without_addr(list, me).len() ==> #[trigger] without_addr(list, me)[k] != me,
        forall|k: int|
            0 <= k < list.len() && list[k] != me ==> without_addr(list, me).contains(
                #[trigger] list[k],
            ),
    decreases list.len(),
{
    reveal_with_fuel(Seq::filter, 2);
    let cur = without_addr(list, me);
    if list.len() == 0 {
        assert(cur.len() == 0);
    } else {
        lemma_reply_all_recipients(list.drop_last(), me);
        let prev = without_addr(list.drop_last(), me);
        if list.last() != me {
            assert(cur == prev.push(list.last()));
            assert forall|k: int| 0 <= k < cur.len() implies #[trigger] cur[k] != me by {
                if k < prev.len() {
                    assert(cur[k] == prev[k]);
                } else {
                    assert(cur[k] == list.last());
                }
            }
            assert forall|k: int|
                0 <= k < list.len() && list[k] != me implies cur.contains(#[trigger] list[k]) by {
                if k < list.len() - 1 {
                    assert(list.drop_last()[k] == list[k]);
                    assert(prev.contains(list[k]));
                    let j = choose|j: int| 0 <= j < prev.len() && prev[j] == list[k];
                    assert(cur[j] == list[k]);
                } else {
                    assert(cur[prev.len() as int] == list.last());
                    assert(cur.contains(list.last()));
                }
            }
        } else {
            assert(cur == prev);
            assert forall|k: int|
                0 <= k < list.len() && list[k] != me implies cur.contains(#[trigger] list[k]) by {
                assert(k < list.len() - 1);
                assert(list.drop_last()[k] == list[k]);
                assert(prev.contains(list[k]));
            }
        }
    }
}

/// Whom a reply is addressed to: everyone left after the sender's own
/// address leaves the source list, or only the first of them for a
/// single-recipient reply, which yields no recipient at all when
/// nobody is left.
pub open spec fn reply_recipients(source: Option<Seq<AddrV>>, me: AddrV, all: bool) -> Option<
    Seq<AddrV>,
> {
    match source {
        Some(list) => {
            let left = without_addr(list, me);
            if all {
                Some(left)
            } else {
                if left.len() > 0 {
                    Some(seq![left[0]])
                } else {
                    None
                }
            }
        },
        None => None,
    }
}

/// A single-recipient reply holds exactly one recipient whenever any
/// source address other than the sender's own existed.
pub proof fn lemma_reply_single_recipient(list: Seq<AddrV>, me: AddrV)
    requires
        without_addr(list, me).len() > 0,
    ensures
        reply_recipients(Some(list), me, false) matches Some(v) && v.len() == 1,
{
}

/// One quoted line: `>` glued to a line that already starts with `>`,
/// else `> ` before it.
pub open spec fn quote_line(l: Seq<char>) -> Seq<char> {
    if l.len() > 0 && l[0] == '>' {
        ">"@ + l
    } else {
        "> "@ + l
    }
}

/// The quoted lines after the first, each preceded by a line break,
/// stopping before the signature delimiter.
pub open spec fn quoted_rest(lines: Seq<Seq<char>>, delim: Seq<char>) -> Seq<char>
    decreases lines.len(),
{
    if lines.len() == 0 || lines[0] == delim {
        Seq::empty()
    } else {
        "\n"@ + quote_line(lines[0]) + quoted_rest(lines.skip(1), delim)
    }
}

/// Every line quoted with `>`, joined by line breaks, stopping before
/// the first line that equals the signature delimiter.
pub open spec fn quoted_lines(lines: Seq<Seq<char>>, delim: Seq<char>) -> Seq<char> {
    if lines.len() == 0 || lines[0] == delim {
        Seq::empty()
    } else {
        quote_line(lines[0]) + quoted_rest(lines.skip(1), delim)
    }
}

/// Quotes one line.
fn quote_line_str(l: &String) -> (r: String)
    ensures
        r@ == quote_line(l@),
{
    let starts = l.as_str().unicode_len() > 0 && l.as_str().get_char(0) == '>';
    let mut out = if starts {
        ">".to_owned()
    } else {
        "> ".to_owned()
    };
    out.append(l.as_str());
    out
}

/// Quotes the lines of a body, stopping before the signature
/// delimiter.
fn quote_body(lines: &Vec<String>, delim: &String) -> (r: String)
    ensures
        r@ == quoted_lines(lines.deep_view(), delim@),
{
    let ghost dv = lines.deep_view();
    if lines.len() == 0 {
        let r = String::new();
        return r;
    }
    proof {
        assert(dv[0] == lines[0]@);
    }
    if lines[0].eq(delim) {
        let r = String::new();
        return r;
    }
    let mut out = quote_line_str(&lines[0]);
    let mut i: usize = 1;
    proof {
        assert(quoted_lines(dv, delim@) == quote_line(dv[0]) + quoted_rest(dv.skip(1), delim@));
    }
    while i < lines.len()
        invariant
            1 <= i <= lines.len(),
            dv == lines.deep_view(),
            dv.len() >= 1,
            !(dv[0] == delim@),
            quoted_lines(dv, delim@) == out@ + quoted_rest(dv.skip(i as int), delim@),
        decreases lines.len() - i,
    {
        proof {
            assert(dv.skip(i as int)[0] == dv[i as int]);
            assert(dv[i as int] == lines[i as int]@);
            assert(dv.skip(i as int).skip(1) =~= dv.skip(i + 1));
        }
        if lines[i].eq(delim) {
            proof {
                assert(quoted_rest(dv.skip(i as int), delim@) == Seq::<char>::empty());
                assert(out@ + Seq::<char>::empty() =~= out@);
            }
            return out;
        }
        let q = quote_line_str(&lines[i]);
        let ghost out0 = out@;
        out.append("\n");
        out.append(q.as_str());
        proof {
            assert(quoted_rest(dv.skip(i as int), delim@) == "\n"@ + quote_line(dv[i as int])
                + quoted_rest(dv.skip(i + 1), delim@));
            assert((out@ + quoted_rest(dv.skip(i + 1), delim@)) =~= (out0 + quoted_rest(
                dv.skip(i as int),
                delim@,
            )));
        }
        i += 1;
    }
    proof {
        assert(dv.skip(lines.len() as int).len() == 0);
        assert(quoted_rest(dv.skip(lines.len() as int), delim@) == Seq::<char>::empty());
        assert(out@ + Seq::<char>::empty() =~= out@);
    }
    out
}

/// The sender named in a reply's quote header: the first source
/// address's display name, its email when it has none, and `unknown
/// sender` when there is no source address at all.
pub open spec fn reply_sender_view(source: Option<Seq<AddrV>>) -> Seq<char> {
    match source {
        Some(list) => if list.len() == 0 {
            "unknown sender"@
        } else {
            match list[0].name {
                Some(n) => n,
                None => list[0].email,
            }
        },
        None => "unknown sender"@,
    }
}

/// The whole body of a reply: two line breaks, the quote header, then
/// the original plain-text body quoted up to the signature delimiter.
pub open spec fn reply_body_text(
    date: Seq<char>,
    sender: Seq<char>,
    folded: Seq<char>,
    delim: Seq<char>,
) -> Seq<char> {
    "\n\nOn "@ + date + ", "@ + sender + " wrote:\n"@ + quoted_lines(
        spec_lines(trimmed_of(folded)),
        delim,
    )
}

/// The header lines of a forwarded body for an optional date: absent
/// when the date is, or when it lies outside the formatter's range.
pub open spec fn forward_date_line(date: Option<MsgDate>) -> Seq<char> {
    match date {
        Some(d) => if date_renderable(d.secs as int, d.offset_secs as int) {
            "Date: "@ + rfc2822_text(d.secs as int, d.offset_secs as int) + "\n"@
        } else {
            Seq::empty()
        },
        None => Seq::empty(),
    }
}

/// An address-list header line of a forwarded body; absent when the
/// list is.
pub open spec fn forward_addr_line(label: Seq<char>, addrs: Option<Seq<AddrV>>) -> Seq<char> {
    match addrs {
        Some(list) => label + joined_addrs(list) + "\n"@,
        None => Seq::empty(),
    }
}

/// The whole body of a forward: the banner, the original subject,
/// date and address lines, a blank line, then the original plain-text
/// body.
pub open spec fn forward_body_text(
    subject: Seq<char>,
    date: Option<MsgDate>,
    from: Option<Seq<AddrV>>,
    to: Option<Seq<AddrV>>,
    folded: Seq<char>,
) -> Seq<char> {
    "\n\n-------- Forwarded Message --------\nSubject: "@ + subject + "\n"@ + forward_date_line(
        date,
    ) + forward_addr_line("From: "@, from) + forward_addr_line("To: "@, to) + "\n"@ + folded
}

/// Removes every occurrence of one address from a list, keeping the
/// order of the rest.
fn filter_out_addr(list: &Vec<Addr>, me: &Addr) -> (r: Vec<Addr>)
    ensures
        r.deep_view() == without_addr(list.deep_view(), me@),
{
    let mut kept: Vec<Addr> = Vec::new();
    let mut i: usize = 0;
    proof {
        assert(list.deep_view().take(0).filter(|a: AddrV| a != me@) =~= Seq::<AddrV>::empty());
        assert(kept.deep_view() =~= Seq::<AddrV>::empty());
    }
    while i < list.len()
        invariant
            i <= list.len(),
            kept.deep_view() == without_addr(list.deep_view().take(i as int), me@),
        decreases list.len() - i,
    {
        proof {
            reveal_with_fuel(Seq::filter, 2);
            assert(list.deep_view().take(i + 1).drop_last() =~= list.deep_view().take(i as int));
            assert(list.deep_view().take(i + 1).last() == list.deep_view()[i as int]);
            assert(list.deep_view()[i as int] == list[i as int]@);
        }
        if !list[i].eq(me) {
            let a = list[i].clone();
            kept.push(a);
        }
        i += 1;
    }
    proof {
        assert(list.deep_view().take(list.len() as int) =~= list.deep_view());
    }
    kept
}

impl Msg {
    /// Turns this message into a reply draft: threading headers point
    /// at the original, the account becomes the sender, recipients
    /// come from the original's reply-to or from lists without the
    /// account's own address, the subject gains a reply prefix, and
    /// the body becomes a quote of the original's plain text. Fails
    /// only when the account's own address does not parse.
    pub fn into_reply(self, all: bool, account: &Account) -> (r: Result<Msg, MsgError>)
        ensures
            (r is Ok) <==> (addr_of_str(account.address@) is Some),
            r matches Err(e) ==> e matches MsgError::AddressParse { input } && input@
                == account.address@,
            r matches Ok(m) ==> {
                let me = addr_of_str(account.address@)->Some_0;
                let source = if self.reply_to is Some {
                    self.reply_to.deep_view()
                } else {
                    self.from.deep_view()
                };
                &&& m.message_id is None
                &&& m.in_reply_to.deep_view() == self.message_id.deep_view()
                &&& m.from.deep_view() == Some(seq![me])
                &&& m.to.deep_view() == reply_recipients(source, me, all)
                &&& m.cc.deep_view() == if all {
                    self.cc.deep_view()
                } else {
                    None::<Seq<AddrV>>
                }
                &&& m.bcc.deep_view() == if all {
                    self.bcc.deep_view()
                } else {
                    None::<Seq<AddrV>>
                }
                &&& m.subject@ == reply_subject(self.subject@)
                &&& m.parts@ == seq![
                    PartV::TextPlain(
                        reply_body_text(
                            reply_date_view(self.date),
                            reply_sender_view(source),
                            folded_plain(self.parts@),
                            account.sig_delim@,
                        ),
                    ),
                ]
                &&& m.id == self.id
                &&& m.flags == self.flags
                &&& m.reply_to == self.reply_to
                &&& m.date == self.date
                &&& m.encrypt == self.encrypt
            },
    {
        let account_addr = match parse_mailbox(account.address.as_str()) {
            Some((name, email)) => Addr { name, email },
            None => {
                return Err(MsgError::AddressParse { input: account.address.clone() });
            },
        };
        let mut msg = self;

        // Everything read from the original is captured before any
        // field changes.
        let source: &Option<Vec<Addr>> = if msg.reply_to.is_some() {
            &msg.reply_to
        } else {
            &msg.from
        };
        let filtered: Option<Vec<Addr>> = match source {
            Some(list) => Some(filter_out_addr(list, &account_addr)),
            None => None,
        };
        let sender: String = match source {
            Some(list) => {
                if list.len() == 0 {
                    "unknown sender".to_owned()
                } else {
                    match &list[0].name {
                        Some(n) => n.clone(),
                        None => list[0].email.clone(),
                    }
                }
            },
            None => "unknown sender".to_owned(),
        };
        let date_text = render_reply_date(&msg.date);
        let folded = msg.fold_text_plain_parts();
        let trimmed = trim_str(folded.as_str());
        let lines = split_lines(trimmed.as_str());
        let quoted = quote_body(&lines, &account.sig_delim);

        let mut content = "\n\nOn ".to_owned();
        content.append(date_text.as_str());
        content.append(", ");
        content.append(sender.as_str());
        content.append(" wrote:\n");
        content.append(quoted.as_str());

        msg.in_reply_to = clone_opt_string(&msg.message_id);
        msg.message_id = None;
        msg.from = Some(vec![account_addr]);
        if all {
            msg.to = filtered;
        } else {
            msg.to = match filtered {
                Some(list) => {
                    if list.len() > 0 {
                        let first = list[0].clone();
                        Some(vec![first])
                    } else {
                        None
                    }
                },
                None => None,
            };
            msg.cc = None;
            msg.bcc = None;
        }
        if !str_starts_with(msg.subject.as_str(), "Re:") {
            let mut subject = "Re: ".to_owned();
            subject.append(msg.subject.as_str());
            msg.subject = subject;
        }
        msg.parts = Parts(vec![Part::new_text_plain(content)]);
        Ok(msg)
    }

    /// Turns this message into a forward draft: threading headers are
    /// cleared, the account becomes the sender, the recipient list is
    /// left explicitly empty for the user, the subject gains a
    /// forward prefix, and the plain-text part becomes a forwarded
    /// block quoting the original headers and body. Fails only when
    /// the account's own address does not parse.
    pub fn into_forward(self, account: &Account) -> (r: Result<Msg, MsgError>)
        ensures
            (r is Ok) <==> (addr_of_str(account.address@) is Some),
            r matches Err(e) ==> e matches MsgError::AddressParse { input } && input@
                == account.address@,
            r matches Ok(m) ==> {
                let me = addr_of_str(account.address@)->Some_0;
                let source = if self.reply_to is Some {
                    self.reply_to.deep_view()
                } else {
                    self.from.deep_view()
                };
                &&& m.message_id is None
                &&& m.in_reply_to is None
                &&& m.from.deep_view() == Some(seq![me])
                &&& m.to.deep_view() == Some(Seq::<AddrV>::empty())
                &&& m.cc is None
                &&& m.bcc is None
                &&& m.subject@ == forward_subject(self.subject@)
                &&& m.parts@ == drop_plains(self.parts@).push(
                    PartV::TextPlain(
                        forward_body_text(
                            self.subject@,
                            self.date,
                            source,
                            self.to.deep_view(),
                            folded_plain(self.parts@),
                        ),
                    ),
                )
                &&& m.id == self.id
                &&& m.flags == self.flags
                &&& m.reply_to == self.reply_to
                &&& m.date == self.date
                &&& m.encrypt == self.encrypt
            },
    {
        let account_addr = match parse_mailbox(account.address.as_str()) {
            Some((name, email)) => Addr { name, email },
            None => {
                return Err(MsgError::AddressParse { input: account.address.clone() });
            },
        };
        let mut msg = self;

        let prev_from_join: Option<String> = match if msg.reply_to.is_some() {
            &msg.reply_to
        } else {
            &msg.from
        } {
            Some(list) => Some(join_addrs(list)),
            None => None,
        };
        let prev_to_join: Option<String> = match &msg.to {
            Some(list) => Some(join_addrs(list)),
            None => None,
        };
        let folded = msg.fold_text_plain_parts();

        let mut content = "\n\n-------- Forwarded Message --------\nSubject: ".to_owned();
        content.append(msg.subject.as_str());
        content.append("\n");
        let ghost upto_subject = content@;
        match &msg.date {
            Some(d) => {
                if date_is_renderable(d) {
                    let formatted = format_rfc2822(d);
                    content.append("Date: ");
                    content.append(formatted.as_str());
                    content.append("\n");
                }
            },
            None => {},
        }
        proof {
            assert(content@ =~= upto_subject + forward_date_line(msg.date));
        }
        let ghost upto_date = content@;
        match &prev_from_join {
            Some(joined) => {
                content.append("From: ");
                content.append(joined.as_str());
                content.append("\n");
            },
            None => {},
        }
        proof {
            let source = if msg.reply_to is Some {
                msg.reply_to.deep_view()
            } else {
                msg.from.deep_view()
            };
            assert(content@ =~= upto_date + forward_addr_line("From: "@, source));
        }
        let ghost upto_from = content@;
        match &prev_to_join {
            Some(joined) => {
                content.append("To: ");
                content.append(joined.as_str());
                content.append("\n");
            },
            None => {},
        }
        proof {
            assert(content@ =~= upto_from + forward_addr_line("To: "@, msg.to.deep_view()));
        }
        content.append("\n");
        content.append(folded.as_str());
        proof {
            assert(content@ =~= forward_body_text(
                msg.subject@,
                msg.date,
                if msg.reply_to is Some {
                    msg.reply_to.deep_view()
                } else {
                    msg.from.deep_view()
                },
                msg.to.deep_view(),
                folded_plain(msg.parts@),
            ));
        }

        msg.message_id = None;
        msg.in_reply_to = None;
        msg.from = Some(vec![account_addr]);
        msg.to = Some(Vec::new());
        msg.cc = None;
        msg.bcc = None;
        if !str_starts_with(msg.subject.as_str(), "Fwd:") {
            let mut subject = "Fwd: ".to_owned();
            subject.append(msg.subject.as_str());
            msg.subject = subject;
        }
        msg.parts.replace_text_plain_parts_with(TextPlainPart { content });
        Ok(msg)
    }
}

} // verus!
