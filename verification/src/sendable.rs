use vstd::prelude::*;
use crate::account::Account;
use crate::addr::{Addr, AddrV, clone_addrs, clone_opt_addrs};
use crate::error::MsgError;
use crate::msg::Msg;
use crate::part::{BinaryPart, BinV, binaries};
use crate::sanitize::folded_plain;

verus! {

/// What lettre's media type parser accepts.
pub uninterp spec fn mime_ok(s: Seq<char>) -> bool;

/// Relies on lettre's ContentType::parse: accepts exactly the media
/// type strings of its grammar; the parsed value is rebuilt by the
/// transport layer where it is needed.
#[verifier::external_body]
pub(crate) fn mime_type_ok(s: &str) -> (r: bool)
    ensures
        r == mime_ok(s@),
{
    lettre::message::header::ContentType::parse(s).is_ok()
}

/// The transport envelope: the sender and the recipients the message
/// is actually delivered to.
#[derive(Debug)]
pub struct Envelope {
    pub from: Option<Addr>,
    pub to: Vec<Addr>,
}

/// The sender of the envelope: the first `from` address, if any.
pub open spec fn envelope_from(from: Option<Seq<AddrV>>) -> Option<AddrV> {
    match from {
        Some(l) => if l.len() > 0 {
            Some(l[0])
        } else {
            None
        },
        None => None,
    }
}

/// A message ready for transport: the headers and addresses carried
/// over, the body folded to one text, the attachments with checked
/// media types, and the recipient to encrypt for when encryption was
/// asked.
#[derive(Debug)]
pub struct SendableMsg {
    pub message_id: Option<String>,
    pub in_reply_to: Option<String>,
    pub subject: String,
    pub from: Option<Vec<Addr>>,
    pub reply_to: Option<Vec<Addr>>,
    pub to: Option<Vec<Addr>>,
    pub cc: Option<Vec<Addr>>,
    pub bcc: Option<Vec<Addr>>,
    pub envelope: Envelope,
    pub text: String,
    pub attachments: Vec<BinaryPart>,
    pub encrypt_to: Option<String>,
}

/// Every attachment's stored media type parses.
pub open spec fn attachments_mime_ok(atts: Seq<BinV>) -> bool {
    forall|j: int| 0 <= j < atts.len() ==> mime_ok(#[trigger] atts[j].mime)
}

/// An encryption request can be honoured: a command is configured and
/// a first recipient exists to encrypt for.
pub open spec fn encrypt_ok(msg: Msg, account: Account) -> bool {
    !msg.encrypt || (account.pgp_encrypt_cmd is Some && (msg.to.deep_view() matches Some(l)
        && l.len() > 0))
}

impl Msg {
    /// The transport envelope of this message: the sender is the first
    /// `from` address and the recipients are the full `to` list, which
    /// must not be empty.
    pub fn to_envelope(&self) -> (r: Result<Envelope, MsgError>)
        ensures
            (r is Ok) <==> (self.to.deep_view() matches Some(l) && l.len() > 0),
            r matches Ok(env) ==> env.to.deep_view() == self.to.deep_view()->Some_0
                && env.from.deep_view() == envelope_from(self.from.deep_view()),
            r matches Err(e) ==> e matches MsgError::EnvelopeConstruction,
    {
        let to: Vec<Addr> = match &self.to {
            Some(list) => clone_addrs(list),
            None => Vec::new(),
        };
        if to.len() == 0 {
            return Err(MsgError::EnvelopeConstruction);
        }
        let from: Option<Addr> = match &self.from {
            Some(list) => {
                if list.len() > 0 {
                    Some(list[0].clone())
                } else {
                    None
                }
            },
            None => None,
        };
        Ok(Envelope { from, to })
    }

    /// Builds the transport form of this message: the folded text
    /// body, the attachments with their media types checked, the
    /// envelope, and, when encryption was asked, the recipient to
    /// encrypt for. Fails on an attachment whose media type does not
    /// parse, then on an envelope without recipients, then on an
    /// encryption request without a command or a recipient.
    pub fn into_sendable_msg(&self, account: &Account) -> (r: Result<SendableMsg, MsgError>)
        ensures
            (r is Ok) <==> {
                &&& attachments_mime_ok(binaries(self.parts@))
                &&& self.to.deep_view() matches Some(l) && l.len() > 0
                &&& encrypt_ok(*self, *account)
            },
            r matches Ok(sm) ==> {
                &&& sm.message_id.deep_view() == self.message_id.deep_view()
                &&& sm.in_reply_to.deep_view() == self.in_reply_to.deep_view()
                &&& sm.subject@ == self.subject@
                &&& sm.from.deep_view() == self.from.deep_view()
                &&& sm.reply_to.deep_view() == self.reply_to.deep_view()
                &&& sm.to.deep_view() == self.to.deep_view()
                &&& sm.cc.deep_view() == self.cc.deep_view()
                &&& sm.bcc.deep_view() == self.bcc.deep_view()
                &&& sm.envelope.to.deep_view() == self.to.deep_view()->Some_0
                &&& sm.envelope.from.deep_view() == envelope_from(self.from.deep_view())
                &&& sm.text@ == folded_plain(self.parts@)
                &&& sm.attachments.deep_view() == binaries(self.parts@)
                &&& sm.encrypt_to.deep_view() == if self.encrypt {
                    Some((self.to.deep_view()->Some_0)[0].email)
                } else {
                    None::<Seq<char>>
                }
            },
            r matches Err(e) ==> match e {
                MsgError::Attachment { path } => exists|j: int|
                    0 <= j < binaries(self.parts@).len() && !mime_ok(
                        #[trigger] binaries(self.parts@)[j].mime,
                    ) && path@ == binaries(self.parts@)[j].filename,
                MsgError::EnvelopeConstruction => attachments_mime_ok(binaries(self.parts@)) && !(
                self.to.deep_view() matches Some(l) && l.len() > 0),
                MsgError::Encryption => attachments_mime_ok(binaries(self.parts@)) && (
                self.to.deep_view() matches Some(l) && l.len() > 0) && !encrypt_ok(
                    *self,
                    *account,
                ),
                _ => false,
            },
    {
        let text = self.fold_text_plain_parts();
        let attachments = self.attachments();
        let ghost atts = binaries(self.parts@);
        let mut j: usize = 0;
        while j < attachments.len()
            invariant
                j <= attachments.len(),
                attachments.deep_view() == atts,
                atts == binaries(self.parts@),
                forall|k: int| 0 <= k < j ==> mime_ok(#[trigger] atts[k].mime),
            decreases attachments.len() - j,
        {
            proof {
                assert(atts[j as int] == attachments[j as int]@);
            }
            if !mime_type_ok(attachments[j].mime.as_str()) {
                proof {
                    assert(!mime_ok(binaries(self.parts@)[j as int].mime));
                    assert(attachments[j as int].filename@ == binaries(
                        self.parts@,
                    )[j as int].filename);
                    assert(!attachments_mime_ok(binaries(self.parts@)));
                }
                return Err(MsgError::Attachment { path: attachments[j].filename.clone() });
            }
            j += 1;
        }
        let envelope = match self.to_envelope() {
            Ok(env) => env,
            Err(e) => {
                return Err(e);
            },
        };
        let encrypt_to: Option<String> = if self.encrypt {
            if account.pgp_encrypt_cmd.is_none() {
                return Err(MsgError::Encryption);
            }
            match &self.to {
                Some(list) => {
                    if list.len() == 0 {
                        return Err(MsgError::Encryption);
                    }
                    Some(list[0].email.clone())
                },
                None => {
                    return Err(MsgError::Encryption);
                },
            }
        } else {
            None
        };
        Ok(
            SendableMsg {
                message_id: crate::textutil::clone_opt_string(&self.message_id),
                in_reply_to: crate::textutil::clone_opt_string(&self.in_reply_to),
                subject: self.subject.clone(),
                from: clone_opt_addrs(&self.from),
                reply_to: clone_opt_addrs(&self.reply_to),
                to: clone_opt_addrs(&self.to),
                cc: clone_opt_addrs(&self.cc),
                bcc: clone_opt_addrs(&self.bcc),
                envelope,
                text,
                attachments,
                encrypt_to,
            },
        )
    }
}

} // verus!
