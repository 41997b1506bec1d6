//! A verified model of a mail message entity.
//!
//! A message aggregates header fields, address lists and an ordered
//! collection of MIME parts. It can be turned into a reply or forward
//! draft, rendered to a flat editable template and parsed back, merged
//! with an edited copy, and converted into a transport-ready form.
//! External parsers (address grammar, MIME, RFC 2047, HTML sanitizing)
//! are reached through narrow trusted wrappers; everything around them
//! is verified.

pub mod account;
pub mod addr;
pub mod date;
pub mod edit;
pub mod fetch;
pub mod msg;
pub mod part;
pub mod sanitize;
pub mod sendable;
pub mod tpl;
pub mod transform;
pub mod error;
pub mod textutil;

pub use account::{Account, TplOverride};
pub use addr::Addr;
pub use error::MsgError;
pub use msg::Msg;
pub use part::{Part, Parts};
