use vstd::prelude::*;

verus! {

/// The sending account's configuration, as far as message building
/// reads it: its own address, an optional signature, the token that
/// ends a body before the signature, and an optional encrypt command.
#[derive(Debug)]
pub struct Account {
    pub address: String,
    pub sig: Option<String>,
    pub sig_delim: String,
    pub pgp_encrypt_cmd: Option<String>,
}

impl Account {
    /// The account's own address string.
    pub fn address(&self) -> (r: String)
        ensures
            r@ == self.address@,
    {
        self.address.clone()
    }
}

/// Explicit values that take precedence over a message's fields when
/// it is rendered to a template.
#[derive(Debug)]
pub struct TplOverride {
    pub subject: Option<String>,
    pub from: Option<Vec<String>>,
    pub to: Option<Vec<String>>,
    pub cc: Option<Vec<String>>,
    pub bcc: Option<Vec<String>>,
    pub sig: Option<String>,
    pub body: Option<String>,
}

impl Default for TplOverride {
    fn default() -> (r: Self)
        ensures
            r.subject is None,
            r.from is None,
            r.to is None,
            r.cc is None,
            r.bcc is None,
            r.sig is None,
            r.body is None,
    {
        TplOverride {
            subject: None,
            from: None,
            to: None,
            cc: None,
            bcc: None,
            sig: None,
            body: None,
        }
    }
}

/// One mailbox state flag; the transformation logic carries flags
/// through without reading them.
#[derive(Debug)]
pub enum Flag {
    Seen,
    Answered,
    Flagged,
    Deleted,
    Draft,
    Recent,
    MayCreate,
    Custom(String),
}

/// The set of a message's mailbox flags.
#[derive(Debug)]
pub struct Flags(pub Vec<Flag>);

impl Default for Flags {
    fn default() -> (r: Self)
        ensures
            r.0@.len() == 0,
    {
        Flags(Vec::new())
    }
}

} // verus!
