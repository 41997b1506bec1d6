use vstd::prelude::*;
use crate::account::Flags;
use crate::addr::Addr;
use crate::date::MsgDate;
use crate::error::MsgError;
use crate::part::{
    Part, Parts, PartV, BinaryPart, BinV, binaries, merged_parts, lemma_merged_parts_push,
};
use crate::sanitize::{
    folded_plain, folded_html, collapse_blank_lines, collapse_line_breaks, collapse_tabs,
    collapse_tabs_nbsp, collapse_spaces, strip_tags, decode_entities,
};
use crate::part::{fold_texts, html_contents};
use crate::textutil::{join_strings, str_eq, find_char};
use vstd::string::StrSliceExecFns;
use vstd::string::StringExecFns;

verus! {

/// A message: its mailbox identity, header fields, address lists and
/// ordered parts.
#[derive(Debug)]
pub struct Msg {
    /// The sequence number the mailbox assigned; meaningful only for
    /// fetched messages.
    pub id: u32,
    /// The mailbox flags; carried through, never interpreted.
    pub flags: Flags,
    /// The subject, possibly empty but never absent.
    pub subject: String,
    pub from: Option<Vec<Addr>>,
    pub reply_to: Option<Vec<Addr>>,
    pub to: Option<Vec<Addr>>,
    pub cc: Option<Vec<Addr>>,
    pub bcc: Option<Vec<Addr>>,
    pub in_reply_to: Option<String>,
    pub message_id: Option<String>,
    /// The mailbox's internal date, informational only.
    pub date: Option<MsgDate>,
    pub parts: Parts,
    /// Whether the message asks for encryption when it is sent.
    pub encrypt: bool,
}

/// An overlay field wins only when it is present; an absent overlay
/// leaves the base, and a present but empty one replaces it.
pub open spec fn spec_overlay<T>(base: Option<T>, over: Option<T>) -> Option<T> {
    match over {
        Some(v) => Some(v),
        None => base,
    }
}

/// An overlay that carries no value leaves the base field untouched;
/// one that carries a value, even an empty list, replaces it.
pub proof fn lemma_overlay_fields(x: Seq<crate::addr::AddrV>, base: Option<Seq<crate::addr::AddrV>>)
    ensures
        spec_overlay(Some(x), None::<Seq<crate::addr::AddrV>>) == Some(x),
        spec_overlay(base, Some(Seq::<crate::addr::AddrV>::empty())) == Some(
            Seq::<crate::addr::AddrV>::empty(),
        ),
{
}

/// What folding to a chosen format yields: the HTML body for `html`,
/// else the plain-text body.
pub open spec fn folded_text(parts: Seq<PartV>, mime: Seq<char>) -> Seq<char> {
    if mime == "html"@ {
        folded_html(parts)
    } else {
        folded_plain(parts)
    }
}

/// The name part of a path: what follows its last slash.
pub open spec fn file_name_of(path: Seq<char>) -> Seq<char>
    decreases path.len(),
{
    let i = find_char(path, '/');
    if 0 <= i && i < path.len() {
        file_name_of(path.skip(i + 1))
    } else {
        path
    }
}

/// A file to attach: the path it came from and its bytes, absent when
/// the file could not be read.
#[derive(Debug)]
pub struct AttachmentSource {
    pub path: String,
    pub content: Option<Vec<u8>>,
}

impl AttachmentSource {
    /// A source is usable when its bytes could be read and its path
    /// ends in a non-empty file name.
    pub open spec fn usable(&self) -> bool {
        self.content is Some && file_name_of(self.path@).len() > 0
    }
}

/// Relies on tree_magic::from_u8: guesses a media type for the bytes
/// from the machine's MIME database. What it returns depends on that
/// database, so nothing is assumed of it.
#[verifier::external_body]
pub(crate) fn sniff_mime(content: &Vec<u8>) -> (r: String)
{
    tree_magic::from_u8(content.as_slice())
}

/// What follows the last slash of the path, the whole path when it
/// has none.
pub fn path_file_name(path: &str) -> (r: String)
    ensures
        r@ == file_name_of(path@),
{
    let n = path.unicode_len();
    let mut cut: usize = 0;
    let mut k: usize = 0;
    proof {
        assert(path@.skip(0) =~= path@);
    }
    while k < n
        invariant
            n == path@.len(),
            cut <= k <= n,
            cut > 0 ==> path@[cut - 1] == '/',
            forall|j: int| cut <= j < k ==> path@[j] != '/',
            file_name_of(path@) == file_name_of(path@.skip(cut as int)),
        decreases n - k,
    {
        if path.get_char(k) == '/' {
            proof {
                let suf = path@.skip(cut as int);
                assert forall|j: int| 0 <= j < k - cut implies suf[j] != '/' by {
                    assert(suf[j] == path@[cut + j]);
                }
                crate::textutil::lemma_find_char_is(suf, '/', k - cut);
                assert(suf.skip(k - cut + 1) =~= path@.skip(k + 1));
            }
            cut = k + 1;
        }
        k += 1;
    }
    proof {
        let suf = path@.skip(cut as int);
        assert forall|j: int| 0 <= j < suf.len() implies suf[j] != '/' by {
            assert(suf[j] == path@[cut + j]);
        }
        crate::textutil::lemma_find_char_is(suf, '/', suf.len() as int);
    }
    let r = path.substring_char(cut, n).to_owned();
    proof {
        assert(path@.skip(cut as int) =~= path@.subrange(cut as int, n as int));
    }
    r
}

impl Default for Msg {
    fn default() -> (r: Msg)
        ensures
            r.id == 0,
            r.flags.0@.len() == 0,
            r.subject@ == Seq::<char>::empty(),
            r.from is None,
            r.reply_to is None,
            r.to is None,
            r.cc is None,
            r.bcc is None,
            r.in_reply_to is None,
            r.message_id is None,
            r.date is None,
            r.parts@ == Seq::<PartV>::empty(),
            r.encrypt == false,
    {
        Msg {
            id: 0,
            flags: Flags(Vec::new()),
            subject: String::new(),
            from: None,
            reply_to: None,
            to: None,
            cc: None,
            bcc: None,
            in_reply_to: None,
            message_id: None,
            date: None,
            parts: Parts::default(),
            encrypt: false,
        }
    }
}

impl Msg {
    /// The message's binary parts, its attachments, in order.
    pub fn attachments(&self) -> (r: Vec<BinaryPart>)
        ensures
            r.deep_view() == binaries(self.parts@),
    {
        self.parts.attachments_of()
    }

    /// Folds the body into one plain-text string: the plain parts
    /// joined by a blank line and sanitized, or, when there are none,
    /// the HTML parts joined, stripped of markup and sanitized.
    pub fn fold_text_plain_parts(&self) -> (r: String)
        ensures
            r@ == folded_plain(self.parts@),
    {
        let mut plain = String::new();
        let mut html = String::new();
        let n = self.parts.0.len();
        let mut i: usize = 0;
        proof {
            assert(self.parts@.skip(0) =~= self.parts@);
        }
        while i < n
            invariant
                n == self.parts.0.len(),
                i <= n,
                fold_texts(self.parts@, Seq::empty(), Seq::empty()) == fold_texts(
                    self.parts@.skip(i as int),
                    plain@,
                    html@,
                ),
            decreases n - i,
        {
            proof {
                assert(self.parts@.skip(i as int)[0] == self.parts@[i as int]);
                assert(self.parts@.skip(i as int).skip(1) =~= self.parts@.skip(i + 1));
            }
            match &self.parts.0[i] {
                Part::TextPlain(p) => {
                    if !plain.as_str().is_empty() {
                        plain.append("\n\n");
                    }
                    plain.append(p.content.as_str());
                },
                Part::TextHtml(p) => {
                    if !html.as_str().is_empty() {
                        html.append("\n\n");
                    }
                    html.append(p.content.as_str());
                },
                Part::Binary(_) => {},
            }
            i += 1;
        }
        proof {
            assert(self.parts@.skip(n as int).len() == 0);
        }
        if plain.as_str().is_empty() {
            let s1 = strip_tags(html.as_str());
            let s2 = collapse_blank_lines(s1.as_str());
            let s3 = collapse_tabs_nbsp(s2.as_str());
            let s4 = collapse_spaces(s3.as_str());
            decode_entities(s4.as_str())
        } else {
            let s1 = collapse_blank_lines(plain.as_str());
            let s2 = collapse_tabs(s1.as_str());
            collapse_spaces(s2.as_str())
        }
    }

    /// Folds the HTML parts into one string, joined by a blank line,
    /// runs of line breaks collapsed; no tag is stripped.
    fn fold_text_html_parts(&self) -> (r: String)
        ensures
            r@ == folded_html(self.parts@),
    {
        let mut pieces: Vec<String> = Vec::new();
        let n = self.parts.0.len();
        let mut i: usize = 0;
        proof {
            assert(pieces.deep_view() =~= Seq::<Seq<char>>::empty());
            assert(self.parts@.skip(0) =~= self.parts@);
            assert(pieces.deep_view() + html_contents(self.parts@) =~= html_contents(
                self.parts@,
            ));
        }
        while i < n
            invariant
                n == self.parts.0.len(),
                i <= n,
                html_contents(self.parts@) == pieces.deep_view() + html_contents(
                    self.parts@.skip(i as int),
                ),
            decreases n - i,
        {
            proof {
                assert(self.parts@.skip(i as int)[0] == self.parts@[i as int]);
                assert(self.parts@.skip(i as int).skip(1) =~= self.parts@.skip(i + 1));
            }
            match &self.parts.0[i] {
                Part::TextHtml(p) => {
                    let c = p.content.clone();
                    proof {
                        assert(pieces.deep_view() + (seq![self.parts@[i as int]->TextHtml_0]
                            + html_contents(self.parts@.skip(i + 1))) =~= pieces.deep_view().push(
                            c@,
                        ) + html_contents(self.parts@.skip(i + 1)));
                    }
                    pieces.push(c);
                },
                _ => {
                    proof {
                        assert(Seq::<Seq<char>>::empty() + html_contents(self.parts@.skip(i + 1))
                            =~= html_contents(self.parts@.skip(i + 1)));
                    }
                },
            }
            i += 1;
        }
        proof {
            assert(self.parts@.skip(n as int).len() == 0);
            assert(pieces.deep_view() + html_contents(self.parts@.skip(n as int))
                =~= pieces.deep_view());
        }
        let joined = join_strings(&pieces, "\n\n");
        collapse_line_breaks(joined.as_str())
    }

    /// Folds the body for the chosen format: `html` keeps the HTML
    /// parts, anything else folds to plain text.
    pub fn fold_text_parts(&self, text_mime: &str) -> (r: String)
        ensures
            r@ == folded_text(self.parts@, text_mime@),
    {
        if str_eq(text_mime, "html") {
            self.fold_text_html_parts()
        } else {
            self.fold_text_plain_parts()
        }
    }

    /// Sets whether the message asks for encryption at send time.
    pub fn encrypt(self, encrypt: bool) -> (r: Msg)
        ensures
            r.encrypt == encrypt,
            r.id == self.id,
            r.flags == self.flags,
            r.subject == self.subject,
            r.from == self.from,
            r.reply_to == self.reply_to,
            r.to == self.to,
            r.cc == self.cc,
            r.bcc == self.bcc,
            r.in_reply_to == self.in_reply_to,
            r.message_id == self.message_id,
            r.date == self.date,
            r.parts == self.parts,
    {
        Msg { encrypt, ..self }
    }

    /// Appends one attachment part, leaving every other field alone.
    pub fn add_attachment_with_mime(&mut self, filename: String, mime: String, content: Vec<u8>)
        ensures
            final(self).parts@ == old(self).parts@.push(
                PartV::Binary(BinV { filename: filename@, mime: mime@, content: content@ }),
            ),
            final(self).id == old(self).id,
            final(self).flags == old(self).flags,
            final(self).subject == old(self).subject,
            final(self).from == old(self).from,
            final(self).reply_to == old(self).reply_to,
            final(self).to == old(self).to,
            final(self).cc == old(self).cc,
            final(self).bcc == old(self).bcc,
            final(self).in_reply_to == old(self).in_reply_to,
            final(self).message_id == old(self).message_id,
            final(self).date == old(self).date,
            final(self).encrypt == old(self).encrypt,
    {
        self.parts.push(Part::Binary(BinaryPart { filename, mime, content }));
    }

    /// Attaches each readable file in order: its name is what follows
    /// the last slash of its path, its media type is guessed from its
    /// bytes. The first unreadable or nameless source fails the whole
    /// operation and names its path.
    pub fn add_attachments(self, attachments: Vec<AttachmentSource>) -> (r: Result<
        Msg,
        MsgError,
    >)
        ensures
            (r is Ok) <==> (forall|j: int|
                0 <= j < attachments.len() ==> attachments[j].usable()),
            r matches Ok(m) ==> {
                &&& m.parts@.len() == self.parts@.len() + attachments@.len()
                &&& forall|j: int|
                    0 <= j < self.parts@.len() ==> m.parts@[j] == self.parts@[j]
                &&& forall|j: int|
                    0 <= j < attachments@.len() ==> (#[trigger] m.parts@[self.parts@.len() + j]
                        matches PartV::Binary(b) && b.filename == file_name_of(
                        attachments@[j].path@,
                    ) && Some(b.content) == attachments@[j].content.deep_view())
                &&& m.id == self.id
                &&& m.flags == self.flags
                &&& m.subject == self.subject
                &&& m.from == self.from
                &&& m.reply_to == self.reply_to
                &&& m.to == self.to
                &&& m.cc == self.cc
                &&& m.bcc == self.bcc
                &&& m.in_reply_to == self.in_reply_to
                &&& m.message_id == self.message_id
                &&& m.date == self.date
                &&& m.encrypt == self.encrypt
            },
            r matches Err(e) ==> (e matches MsgError::Attachment { path } && exists|j: int|
                0 <= j < attachments.len() && !attachments[j].usable() && path@
                    == attachments[j].path@),
    {
        let ghost orig = self;
        let mut msg = self;
        let mut i: usize = 0;
        while i < attachments.len()
            invariant
                i <= attachments.len(),
                forall|j: int| 0 <= j < i ==> attachments[j].usable(),
                msg.parts@.len() == orig.parts@.len() + i,
                forall|j: int| 0 <= j < orig.parts@.len() ==> msg.parts@[j] == orig.parts@[j],
                forall|j: int|
                    0 <= j < i ==> (#[trigger] msg.parts@[orig.parts@.len() + j] matches
                    PartV::Binary(b) && b.filename == file_name_of(attachments@[j].path@) && Some(
                        b.content,
                    ) == attachments@[j].content.deep_view()),
                msg.id == orig.id,
                msg.flags == orig.flags,
                msg.subject == orig.subject,
                msg.from == orig.from,
                msg.reply_to == orig.reply_to,
                msg.to == orig.to,
                msg.cc == orig.cc,
                msg.bcc == orig.bcc,
                msg.in_reply_to == orig.in_reply_to,
                msg.message_id == orig.message_id,
                msg.date == orig.date,
                msg.encrypt == orig.encrypt,
            decreases attachments.len() - i,
        {
            let filename = path_file_name(attachments[i].path.as_str());
            let usable = match &attachments[i].content {
                Some(_) => !filename.as_str().is_empty(),
                None => false,
            };
            if !usable {
                return Err(MsgError::Attachment { path: attachments[i].path.clone() });
            }
            let content = match &attachments[i].content {
                Some(c) => c.clone(),
                None => Vec::new(),
            };
            let mime = sniff_mime(&content);
            msg.add_attachment_with_mime(filename, mime, content);
            i += 1;
        }
        Ok(msg)
    }

    /// Merges an edited copy into this message: address fields follow
    /// the overlay rule, a non-empty overlay subject wins, binary
    /// overlay parts are appended, and an overlay text part replaces
    /// every part of its kind.
    pub fn merge_with(&mut self, msg: Msg)
        ensures
            final(self).from.deep_view() == spec_overlay(
                old(self).from.deep_view(),
                msg.from.deep_view(),
            ),
            final(self).to.deep_view() == spec_overlay(
                old(self).to.deep_view(),
                msg.to.deep_view(),
            ),
            final(self).cc.deep_view() == spec_overlay(
                old(self).cc.deep_view(),
                msg.cc.deep_view(),
            ),
            final(self).bcc.deep_view() == spec_overlay(
                old(self).bcc.deep_view(),
                msg.bcc.deep_view(),
            ),
            final(self).subject@ == if msg.subject@.len() == 0 {
                old(self).subject@
            } else {
                msg.subject@
            },
            final(self).parts@ == merged_parts(old(self).parts@, msg.parts@),
            final(self).id == old(self).id,
            final(self).flags == old(self).flags,
            final(self).reply_to == old(self).reply_to,
            final(self).in_reply_to == old(self).in_reply_to,
            final(self).message_id == old(self).message_id,
            final(self).date == old(self).date,
            final(self).encrypt == old(self).encrypt,
    {
        if msg.from.is_some() {
            self.from = msg.from;
        }
        if msg.to.is_some() {
            self.to = msg.to;
        }
        if msg.cc.is_some() {
            self.cc = msg.cc;
        }
        if msg.bcc.is_some() {
            self.bcc = msg.bcc;
        }
        if !msg.subject.as_str().is_empty() {
            self.subject = msg.subject;
        }
        let other = msg.parts.0;
        let ghost base = self.parts@;
        let ghost overlay = other.deep_view();
        let ghost mid = *self;
        let mut i: usize = 0;
        proof {
            assert(overlay.take(0) =~= Seq::<PartV>::empty());
        }
        while i < other.len()
            invariant
                i <= other.len(),
                overlay == other.deep_view(),
                self.parts@ == merged_parts(base, overlay.take(i as int)),
                self.from == mid.from,
                self.to == mid.to,
                self.cc == mid.cc,
                self.bcc == mid.bcc,
                self.subject == mid.subject,
                self.id == mid.id,
                self.flags == mid.flags,
                self.reply_to == mid.reply_to,
                self.in_reply_to == mid.in_reply_to,
                self.message_id == mid.message_id,
                self.date == mid.date,
                self.encrypt == mid.encrypt,
            decreases other.len() - i,
        {
            proof {
                lemma_merged_parts_push(base, overlay.take(i as int), overlay[i as int]);
                assert(overlay.take(i + 1) =~= overlay.take(i as int).push(overlay[i as int]));
            }
            let p = other[i].clone();
            match &p {
                Part::Binary(_) => {
                    self.parts.push(p);
                },
                Part::TextPlain(_) => {
                    self.parts.remove_plains();
                    self.parts.push(p);
                },
                Part::TextHtml(_) => {
                    self.parts.remove_htmls();
                    self.parts.push(p);
                },
            }
            i += 1;
        }
        proof {
            assert(overlay.take(other.len() as int) =~= overlay);
        }
    }
}

} // verus!
