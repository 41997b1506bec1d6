use vstd::prelude::*;
use vstd::utf8::{valid_utf8, decode_utf8};
use crate::account::Flags;
use crate::addr::{Addr, AddrV, email_new_ok, new_email};
use crate::date::MsgDate;
use crate::error::MsgError;
use crate::msg::Msg;
use crate::part::Parts;
use crate::textutil::bytes_to_string;

verus! {

/// One address of a mailbox fetch, still in its wire form: each piece
/// is raw, possibly encoded-word bytes.
#[derive(Debug)]
pub struct AddrRaw {
    pub name: Option<Vec<u8>>,
    pub mailbox: Option<Vec<u8>>,
    pub host: Option<Vec<u8>>,
}

/// Mathematical view of a wire address.
pub ghost struct AddrRawV {
    pub name: Option<Seq<u8>>,
    pub mailbox: Option<Seq<u8>>,
    pub host: Option<Seq<u8>>,
}

impl View for AddrRaw {
    type V = AddrRawV;

    open spec fn view(&self) -> AddrRawV {
        AddrRawV {
            name: self.name.deep_view(),
            mailbox: self.mailbox.deep_view(),
            host: self.host.deep_view(),
        }
    }
}

impl DeepView for AddrRaw {
    type V = AddrRawV;

    open spec fn deep_view(&self) -> AddrRawV {
        self.view()
    }
}

/// What the external encoded-word decoder makes of raw header bytes,
/// absent when it rejects them.
pub uninterp spec fn rfc2047_of(b: Seq<u8>) -> Option<Seq<char>>;

/// Relies on rfc2047_decoder::decode: decodes encoded-word header
/// bytes into text, a function of the bytes alone.
#[verifier::external_body]
pub(crate) fn decode_rfc2047(b: &Vec<u8>) -> (r: Option<String>)
    ensures
        (r is Some) <==> (rfc2047_of(b@) is Some),
        r matches Some(s) ==> rfc2047_of(b@) == Some(s@),
{
    rfc2047_decoder::decode(b.as_slice()).ok()
}

/// A wire address converts when its optional name decodes, its
/// mailbox and host are present and decode, and the two pass the
/// address checks.
pub open spec fn raw_addr_ok(a: AddrRawV) -> bool {
    &&& (match a.name {
        Some(b) => rfc2047_of(b) is Some,
        None => true,
    })
    &&& a.mailbox is Some
    &&& rfc2047_of(a.mailbox->Some_0) is Some
    &&& a.host is Some
    &&& rfc2047_of(a.host->Some_0) is Some
    &&& email_new_ok(
        rfc2047_of(a.mailbox->Some_0)->Some_0,
        rfc2047_of(a.host->Some_0)->Some_0,
    )
}

/// The address a wire address converts to.
pub open spec fn raw_addr_view(a: AddrRawV) -> AddrV {
    AddrV {
        name: match a.name {
            Some(b) => Some(rfc2047_of(b)->Some_0),
            None => None,
        },
        email: rfc2047_of(a.mailbox->Some_0)->Some_0 + seq!['@'] + rfc2047_of(
            a.host->Some_0,
        )->Some_0,
    }
}

/// Converts one fetched wire address: the name is decoded when
/// present, the mailbox and host are decoded and checked as an
/// address.
pub fn to_addr(addr: &AddrRaw) -> (r: Result<Addr, MsgError>)
    ensures
        (r is Ok) <==> raw_addr_ok(addr@),
        r matches Ok(a) ==> a@ == raw_addr_view(addr@) && a.wf(),
        r matches Err(e) ==> match e {
            MsgError::HeaderDecode { .. } => true,
            MsgError::AddressParse { .. } => true,
            _ => false,
        },
{
    let name: Option<String> = match &addr.name {
        Some(b) => {
            proof {
                assert(b.deep_view() =~= b@);
                assert(addr@.name == Some(b@));
            }
            match decode_rfc2047(b) {
                Some(s) => Some(s),
                None => {
                    return Err(MsgError::HeaderDecode { header: "name".to_owned() });
                },
            }
        },
        None => None,
    };
    let user: String = match &addr.mailbox {
        Some(b) => {
            proof {
                assert(b.deep_view() =~= b@);
                assert(addr@.mailbox == Some(b@));
            }
            match decode_rfc2047(b) {
                Some(s) => s,
                None => {
                    return Err(MsgError::HeaderDecode { header: "mailbox".to_owned() });
                },
            }
        },
        None => {
            return Err(MsgError::HeaderDecode { header: "mailbox".to_owned() });
        },
    };
    let host: String = match &addr.host {
        Some(b) => {
            proof {
                assert(b.deep_view() =~= b@);
                assert(addr@.host == Some(b@));
            }
            match decode_rfc2047(b) {
                Some(s) => s,
                None => {
                    return Err(MsgError::HeaderDecode { header: "host".to_owned() });
                },
            }
        },
        None => {
            return Err(MsgError::HeaderDecode { header: "host".to_owned() });
        },
    };
    let email = match new_email(&user, &host) {
        Some(e) => e,
        None => {
            return Err(MsgError::AddressParse { input: user });
        },
    };
    proof {
        assert(addr@.mailbox is Some);
        assert(rfc2047_of(addr@.mailbox->Some_0) == Some(user@));
        assert(rfc2047_of(addr@.host->Some_0) == Some(host@));
        assert(email_new_ok(user@, host@));
        assert(raw_addr_ok(addr@));
    }
    Ok(Addr { name, email })
}

/// Every wire address of the list converts.
pub open spec fn raw_list_ok(l: Seq<AddrRawV>) -> bool {
    forall|i: int| 0 <= i < l.len() ==> raw_addr_ok(#[trigger] l[i])
}

/// The addresses a list of wire addresses converts to.
pub open spec fn raw_list_view(l: Seq<AddrRawV>) -> Seq<AddrV> {
    Seq::new(l.len(), |i: int| raw_addr_view(l[i]))
}

/// Converts a list of fetched wire addresses; the first failing one
/// fails all.
pub fn to_addrs(addrs: &Vec<AddrRaw>) -> (r: Result<Vec<Addr>, MsgError>)
    ensures
        (r is Ok) <==> raw_list_ok(addrs.deep_view()),
        r matches Ok(v) ==> v.deep_view() == raw_list_view(addrs.deep_view()),
        r matches Err(e) ==> match e {
            MsgError::HeaderDecode { .. } => true,
            MsgError::AddressParse { .. } => true,
            _ => false,
        },
{
    let mut out: Vec<Addr> = Vec::new();
    let mut i: usize = 0;
    while i < addrs.len()
        invariant
            i <= addrs.len(),
            out.len() == i,
            forall|j: int| 0 <= j < i ==> raw_addr_ok(#[trigger] addrs.deep_view()[j]),
            forall|j: int| 0 <= j < i ==> out[j]@ == raw_addr_view(#[trigger] addrs.deep_view()[j]),
        decreases addrs.len() - i,
    {
        proof {
            assert(addrs.deep_view()[i as int] == addrs[i as int]@);
        }
        match to_addr(&addrs[i]) {
            Ok(a) => out.push(a),
            Err(e) => {
                return Err(e);
            },
        }
        i += 1;
    }
    proof {
        assert(out.deep_view() =~= raw_list_view(addrs.deep_view()));
    }
    Ok(out)
}

/// Converts an optional list of fetched wire addresses.
pub fn to_some_addrs(addrs: &Option<Vec<AddrRaw>>) -> (r: Result<Option<Vec<Addr>>, MsgError>)
    ensures
        (r is Ok) <==> (match addrs.deep_view() {
            Some(l) => raw_list_ok(l),
            None => true,
        }),
        r matches Ok(o) ==> o.deep_view() == (match addrs.deep_view() {
            Some(l) => Some(raw_list_view(l)),
            None => None::<Seq<AddrV>>,
        }),
        r matches Err(e) ==> match e {
            MsgError::HeaderDecode { .. } => true,
            MsgError::AddressParse { .. } => true,
            _ => false,
        },
{
    match addrs {
        Some(list) => match to_addrs(list) {
            Ok(v) => Ok(Some(v)),
            Err(e) => Err(e),
        },
        None => Ok(None),
    }
}

/// Everything one mailbox fetch carries, in wire form: the envelope
/// fields as raw bytes, the flags, the internal date, and the body's
/// parts as the external mail parser handed them out.
#[derive(Debug)]
pub struct FetchData {
    pub id: u32,
    pub flags: Flags,
    pub subject: Option<Vec<u8>>,
    pub sender: Option<Vec<AddrRaw>>,
    pub from: Option<Vec<AddrRaw>>,
    pub reply_to: Option<Vec<AddrRaw>>,
    pub to: Option<Vec<AddrRaw>>,
    pub cc: Option<Vec<AddrRaw>>,
    pub bcc: Option<Vec<AddrRaw>>,
    pub in_reply_to: Option<Vec<u8>>,
    pub message_id: Option<Vec<u8>>,
    pub date: Option<MsgDate>,
    pub parts: Option<Parts>,
}

/// A fetch converts when its subject and identifiers decode, every
/// address list converts, and the body was parsed into parts.
pub open spec fn fetch_ok(d: FetchData) -> bool {
    &&& (match d.subject.deep_view() {
        Some(b) => rfc2047_of(b) is Some,
        None => true,
    })
    &&& (match (if d.sender is Some {
        d.sender.deep_view()
    } else {
        d.from.deep_view()
    }) {
        Some(l) => raw_list_ok(l),
        None => true,
    })
    &&& (match d.reply_to.deep_view() {
        Some(l) => raw_list_ok(l),
        None => true,
    })
    &&& (match d.to.deep_view() {
        Some(l) => raw_list_ok(l),
        None => true,
    })
    &&& (match d.cc.deep_view() {
        Some(l) => raw_list_ok(l),
        None => true,
    })
    &&& (match d.bcc.deep_view() {
        Some(l) => raw_list_ok(l),
        None => true,
    })
    &&& (match d.in_reply_to.deep_view() {
        Some(b) => valid_utf8(b),
        None => true,
    })
    &&& (match d.message_id.deep_view() {
        Some(b) => valid_utf8(b),
        None => true,
    })
    &&& d.parts is Some
}

/// The optional address list a fetched field converts to.
pub open spec fn fetched_addrs(l: Option<Seq<AddrRawV>>) -> Option<Seq<AddrV>> {
    match l {
        Some(x) => Some(raw_list_view(x)),
        None => None,
    }
}

/// The optional string a fetched byte field decodes to.
pub open spec fn fetched_text(b: Option<Seq<u8>>) -> Option<Seq<char>> {
    match b {
        Some(x) => Some(decode_utf8(x)),
        None => None,
    }
}

impl Msg {
    /// Builds a message from one mailbox fetch: the subject and the
    /// sender name are decoded as encoded words, the senders come from
    /// the envelope's sender else its from list, the identifiers must
    /// be text, and the already-parsed parts become the body. Fails on
    /// the first field that does not decode, and without parsed parts.
    pub fn from_fetch(data: FetchData) -> (r: Result<Msg, MsgError>)
        ensures
            (r is Ok) <==> fetch_ok(data),
            r matches Ok(m) ==> {
                &&& m.id == data.id
                &&& m.flags == data.flags
                &&& m.subject@ == (match data.subject.deep_view() {
                    Some(b) => rfc2047_of(b)->Some_0,
                    None => Seq::<char>::empty(),
                })
                &&& m.from.deep_view() == fetched_addrs(
                    if data.sender is Some {
                        data.sender.deep_view()
                    } else {
                        data.from.deep_view()
                    },
                )
                &&& m.reply_to.deep_view() == fetched_addrs(data.reply_to.deep_view())
                &&& m.to.deep_view() == fetched_addrs(data.to.deep_view())
                &&& m.cc.deep_view() == fetched_addrs(data.cc.deep_view())
                &&& m.bcc.deep_view() == fetched_addrs(data.bcc.deep_view())
                &&& m.in_reply_to.deep_view() == fetched_text(data.in_reply_to.deep_view())
                &&& m.message_id.deep_view() == fetched_text(data.message_id.deep_view())
                &&& m.date == data.date
                &&& m.parts@ == data.parts->Some_0@
                &&& m.encrypt == false
            },
            r matches Err(e) ==> match e {
                MsgError::HeaderDecode { .. } => true,
                MsgError::AddressParse { .. } => true,
                MsgError::BodyParse => true,
                _ => false,
            },
    {
        let FetchData {
            id,
            flags,
            subject,
            sender,
            from,
            reply_to,
            to,
            cc,
            bcc,
            in_reply_to,
            message_id,
            date,
            parts,
        } = data;
        let subject_text: String = match &subject {
            Some(b) => {
                proof {
                    assert(b.deep_view() =~= b@);
                    assert(data.subject.deep_view() == Some(b@));
                }
                match decode_rfc2047(b) {
                Some(s) => s,
                None => {
                    proof {
                        assert(!fetch_ok(data));
                    }
                    return Err(MsgError::HeaderDecode { header: "subject".to_owned() });
                },
                }
            },
            None => String::new(),
        };
        let from_list = match to_some_addrs(if sender.is_some() {
            &sender
        } else {
            &from
        }) {
            Ok(v) => v,
            Err(e) => {
                return Err(e);
            },
        };
        let reply_to_list = match to_some_addrs(&reply_to) {
            Ok(v) => v,
            Err(e) => {
                return Err(e);
            },
        };
        let to_list = match to_some_addrs(&to) {
            Ok(v) => v,
            Err(e) => {
                return Err(e);
            },
        };
        let cc_list = match to_some_addrs(&cc) {
            Ok(v) => v,
            Err(e) => {
                return Err(e);
            },
        };
        let bcc_list = match to_some_addrs(&bcc) {
            Ok(v) => v,
            Err(e) => {
                return Err(e);
            },
        };
        let in_reply_to_text: Option<String> = match &in_reply_to {
            Some(b) => {
                proof {
                    assert(b.deep_view() =~= b@);
                    assert(data.in_reply_to.deep_view() == Some(b@));
                }
                match bytes_to_string(b) {
                Some(s) => Some(s),
                None => {
                    proof {
                        assert(!fetch_ok(data));
                    }
                    return Err(MsgError::HeaderDecode { header: "in-reply-to".to_owned() });
                },
                }
            },
            None => None,
        };
        let message_id_text: Option<String> = match &message_id {
            Some(b) => {
                proof {
                    assert(b.deep_view() =~= b@);
                    assert(data.message_id.deep_view() == Some(b@));
                }
                match bytes_to_string(b) {
                Some(s) => Some(s),
                None => {
                    proof {
                        assert(!fetch_ok(data));
                    }
                    return Err(MsgError::HeaderDecode { header: "message-id".to_owned() });
                },
                }
            },
            None => None,
        };
        let body_parts = match parts {
            Some(p) => p,
            None => {
                return Err(MsgError::BodyParse);
            },
        };
        Ok(
            Msg {
                id,
                flags,
                subject: subject_text,
                from: from_list,
                reply_to: reply_to_list,
                to: to_list,
                cc: cc_list,
                bcc: bcc_list,
                in_reply_to: in_reply_to_text,
                message_id: message_id_text,
                date,
                parts: body_parts,
                encrypt: false,
            },
        )
    }
}

} // verus!
