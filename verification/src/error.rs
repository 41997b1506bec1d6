use vstd::prelude::*;

verus! {

/// Why an operation on a message failed. Every failure names the
/// field, header or attachment that caused it.
#[derive(Debug)]
pub enum MsgError {
    /// A string could not be parsed as a mailbox address.
    AddressParse { input: String },
    /// A header's raw bytes could not be decoded as text.
    HeaderDecode { header: String },
    /// A raw message could not be split into headers and a body.
    BodyParse,
    /// No valid sender/recipient combination for the transport envelope.
    EnvelopeConstruction,
    /// An attachment could not be read, or its media type is invalid.
    Attachment { path: String },
    /// Encryption was requested but cannot be performed.
    Encryption,
    /// A template could not be parsed; names the offending header.
    TemplateParse { header: String, cause: Box<MsgError> },
}

impl MsgError {
    /// A short, fixed description of the error variant.
    pub fn describe(&self) -> (r: &'static str)
        ensures
            r@ == self.describe_spec(),
    {
        match self {
            MsgError::AddressParse { .. } => "cannot parse address",
            MsgError::HeaderDecode { .. } => "cannot decode header",
            MsgError::BodyParse => "cannot parse message body",
            MsgError::EnvelopeConstruction => "cannot create envelope",
            MsgError::Attachment { .. } => "cannot read attachment",
            MsgError::Encryption => "cannot encrypt message",
            MsgError::TemplateParse { .. } => "cannot parse template",
        }
    }

    /// What `describe` returns for each variant.
    pub open spec fn describe_spec(&self) -> Seq<char> {
        match self {
            MsgError::AddressParse { .. } => "cannot parse address"@,
            MsgError::HeaderDecode { .. } => "cannot decode header"@,
            MsgError::BodyParse => "cannot parse message body"@,
            MsgError::EnvelopeConstruction => "cannot create envelope"@,
            MsgError::Attachment { .. } => "cannot read attachment"@,
            MsgError::Encryption => "cannot encrypt message"@,
            MsgError::TemplateParse { .. } => "cannot parse template"@,
        }
    }
}

} // verus!
