use vstd::prelude::*;
use crate::error::MsgError;
use crate::textutil::{
    spec_joined, lemma_spec_joined_push, split_commas, split_at_commas, trimmed_of, trim_str,
};

verus! {

/// Mathematical view of a mailbox address: an optional display name
/// and the address itself.
pub ghost struct AddrV {
    pub name: Option<Seq<char>>,
    pub email: Seq<char>,
}

/// What the external mailbox grammar accepts, and the pieces it reads
/// out of an accepted string.
pub uninterp spec fn addr_of_str(s: Seq<char>) -> Option<AddrV>;

/// How the external renderer writes a mailbox: `email`, or
/// `name <email>` with the name quoted as the grammar demands.
pub uninterp spec fn str_of_addr(name: Option<Seq<char>>, email: Seq<char>) -> Seq<char>;

/// Whether a full `user@domain` string passes the external address
/// check.
pub uninterp spec fn email_str_ok(email: Seq<char>) -> bool;

/// Whether a user and a domain pass the external address checks.
pub uninterp spec fn email_new_ok(user: Seq<char>, domain: Seq<char>) -> bool;

/// A parsed mailbox address with an optional display name.
#[derive(Debug)]
pub struct Addr {
    pub name: Option<String>,
    pub email: String,
}

impl View for Addr {
    type V = AddrV;

    open spec fn view(&self) -> AddrV {
        AddrV {
            name: match self.name {
                Some(n) => Some(n@),
                None => None,
            },
            email: self.email@,
        }
    }
}

impl DeepView for Addr {
    type V = AddrV;

    open spec fn deep_view(&self) -> AddrV {
        self.view()
    }
}

impl Clone for Addr {
    fn clone(&self) -> (r: Self)
        ensures
            r@ == self@,
    {
        Addr { name: self.name.clone(), email: self.email.clone() }
    }
}

impl PartialEq for Addr {
    fn eq(&self, o: &Addr) -> (r: bool) {
        let names_eq = match (&self.name, &o.name) {
            (Some(a), Some(b)) => *a == *b,
            (None, None) => true,
            _ => false,
        };
        let r = names_eq && self.email == o.email;
        proof {
            if r {
                assert(self@ == o@);
            } else {
                assert(self@ != o@);
            }
        }
        r
    }
}

impl vstd::std_specs::cmp::PartialEqSpecImpl for Addr {
    open spec fn obeys_eq_spec() -> bool {
        true
    }

    open spec fn eq_spec(&self, o: &Addr) -> bool {
        self@ == o@
    }
}

/// How an address is written out: through the external renderer when
/// the stored email passes the address check, verbatim otherwise.
pub open spec fn addr_render(a: AddrV) -> Seq<char> {
    if email_str_ok(a.email) {
        str_of_addr(a.name, a.email)
    } else {
        a.email
    }
}

impl Addr {
    /// A well-formed address stores an email that the external address
    /// check accepts; every constructor of this crate yields one.
    pub open spec fn wf(&self) -> bool {
        email_str_ok(self.email@)
    }

    /// The address in its string form, `email` or `name <email>`.
    pub fn render(&self) -> (r: String)
        ensures
            r@ == addr_render(self@),
    {
        match render_mailbox(&self.name, &self.email) {
            Some(s) => s,
            None => self.email.clone(),
        }
    }
}

/// Relies on lettre's Mailbox Display: writes `email`, or the name
/// (quoted where the grammar demands) and then ` <email>`. The stored
/// email is first re-read by lettre's Address parser; a string that
/// Address::new built always passes it, since a valid domain holds no
/// `'@'` and the parser splits at the last `'@'`.
#[verifier::external_body]
fn render_mailbox(name: &Option<String>, email: &String) -> (r: Option<String>)
    ensures
        (r is Some) <==> email_str_ok(email@),
        r matches Some(s) ==> s@ == str_of_addr(name.deep_view(), email@),
{
    let addr: lettre::Address = email.as_str().parse().ok()?;
    Some(lettre::message::Mailbox::new(name.clone(), addr).to_string())
}

/// Relies on lettre's Mailbox grammar parser (FromStr for Mailbox):
/// accepts exactly the mailbox grammar and hands out the display name
/// and the serialized `user@domain` address, which the Address parser
/// accepts again.
#[verifier::external_body]
pub(crate) fn parse_mailbox(s: &str) -> (r: Option<(Option<String>, String)>)
    ensures
        (r is Some) <==> (addr_of_str(s@) is Some),
        r matches Some(p) ==> addr_of_str(s@) == Some(
            AddrV { name: p.0.deep_view(), email: p.1@ },
        ) && email_str_ok(p.1@),
{
    let m: lettre::message::Mailbox = s.parse().ok()?;
    Some((m.name, m.email.to_string()))
}

/// Relies on lettre's Address::new: succeeds exactly when user and
/// domain pass its checks; the value then serializes as `user@domain`,
/// which the Address parser accepts again.
#[verifier::external_body]
pub(crate) fn new_email(user: &String, domain: &String) -> (r: Option<String>)
    ensures
        (r is Some) <==> email_new_ok(user@, domain@),
        r matches Some(s) ==> s@ == user@ + seq!['@'] + domain@ && email_str_ok(s@),
{
    lettre::Address::new(user.as_str(), domain.as_str()).ok().map(|a| a.to_string())
}

/// Parses a trimmed address string through the external mailbox
/// grammar.
pub fn parse_addr(raw_addr: &str) -> (r: Result<Addr, MsgError>)
    ensures
        match r {
            Ok(a) => addr_of_str(trimmed_of(raw_addr@)) == Some(a@) && a.wf(),
            Err(e) => addr_of_str(trimmed_of(raw_addr@)) is None && (e matches
                MsgError::AddressParse { input } && input@ == raw_addr@),
        },
{
    let t = trim_str(raw_addr);
    match parse_mailbox(t.as_str()) {
        Some((name, email)) => Ok(Addr { name, email }),
        None => Err(MsgError::AddressParse { input: raw_addr.to_owned() }),
    }
}

/// Every comma-separated piece of `s`, trimmed, is accepted by the
/// mailbox grammar.
pub open spec fn all_addr_pieces_parse(s: Seq<char>) -> bool {
    forall|i: int|
        0 <= i < split_commas(s).len() ==> addr_of_str(
            trimmed_of(split_commas(s)[i]),
        ) is Some
}

/// Parses a comma-separated address list; fails on the first piece the
/// grammar rejects.
pub fn parse_addrs(raw_addrs: &str) -> (r: Result<Option<Vec<Addr>>, MsgError>)
    ensures
        match r {
            Ok(opt) => {
                &&& all_addr_pieces_parse(raw_addrs@)
                &&& opt matches Some(v)
                &&& v.len() == split_commas(raw_addrs@).len()
                &&& forall|i: int|
                    0 <= i < v.len() ==> Some(v[i]@) == addr_of_str(
                        trimmed_of(split_commas(raw_addrs@)[i]),
                    ) && v[i].wf()
            },
            Err(e) => !all_addr_pieces_parse(raw_addrs@) && (e matches
                MsgError::AddressParse { .. }),
        },
{
    let pieces = split_at_commas(raw_addrs);
    let mut addrs: Vec<Addr> = Vec::new();
    let mut i: usize = 0;
    while i < pieces.len()
        invariant
            i <= pieces.len(),
            pieces.deep_view() == split_commas(raw_addrs@),
            addrs.len() == i,
            forall|j: int|
                0 <= j < i ==> Some(addrs[j]@) == addr_of_str(
                    trimmed_of(split_commas(raw_addrs@)[j]),
                ) && addrs[j].wf(),
        decreases pieces.len() - i,
    {
        proof {
            assert(pieces[i as int]@ == split_commas(raw_addrs@)[i as int]);
        }
        match parse_addr(pieces[i].as_str()) {
            Ok(a) => addrs.push(a),
            Err(e) => {
                proof {
                    assert(addr_of_str(trimmed_of(split_commas(raw_addrs@)[i as int])) is None);
                    assert(!all_addr_pieces_parse(raw_addrs@));
                }
                return Err(e);
            },
        }
        i += 1;
    }
    proof {
        crate::textutil::lemma_split_commas_nonempty(raw_addrs@);
        assert(pieces.deep_view().len() == pieces@.len());
        assert(addrs.len() == split_commas(raw_addrs@).len());
        assert(all_addr_pieces_parse(raw_addrs@)) by {
            assert forall|j: int|
                0 <= j < split_commas(raw_addrs@).len() implies addr_of_str(
                trimmed_of(split_commas(raw_addrs@)[j]),
            ) is Some by {
                assert(Some(addrs[j]@) == addr_of_str(trimmed_of(split_commas(raw_addrs@)[j])));
            }
        }
    }
    if addrs.is_empty() {
        Ok(None)
    } else {
        Ok(Some(addrs))
    }
}

/// Copies a list of addresses.
pub fn clone_addrs(v: &Vec<Addr>) -> (r: Vec<Addr>)
    ensures
        r.deep_view() == v.deep_view(),
{
    let mut out: Vec<Addr> = Vec::new();
    let mut i: usize = 0;
    while i < v.len()
        invariant
            i <= v.len(),
            out.len() == i,
            forall|j: int| 0 <= j < i ==> out[j]@ == v[j]@,
        decreases v.len() - i,
    {
        out.push(v[i].clone());
        i += 1;
    }
    proof {
        assert(out.deep_view() =~= v.deep_view());
    }
    out
}

/// Copies an optional list of addresses.
pub fn clone_opt_addrs(v: &Option<Vec<Addr>>) -> (r: Option<Vec<Addr>>)
    ensures
        r.deep_view() == v.deep_view(),
{
    match v {
        Some(list) => Some(clone_addrs(list)),
        None => None,
    }
}

/// The string forms of a list of addresses.
pub open spec fn rendered_addrs(addrs: Seq<AddrV>) -> Seq<Seq<char>> {
    addrs.map(|i: int, a: AddrV| addr_render(a))
}

/// A list of addresses written out and joined with `", "`.
pub open spec fn joined_addrs(addrs: Seq<AddrV>) -> Seq<char> {
    spec_joined(rendered_addrs(addrs), ", "@)
}

/// Writes out the addresses, joined with `", "`.
pub fn join_addrs(addrs: &Vec<Addr>) -> (r: String)
    ensures
        r@ == joined_addrs(addrs.deep_view()),
{
    let mut out = String::new();
    let mut i: usize = 0;
    proof {
        assert(rendered_addrs(addrs.deep_view().take(0)) =~= Seq::<Seq<char>>::empty());
    }
    while i < addrs.len()
        invariant
            i <= addrs.len(),
            out@ == spec_joined(rendered_addrs(addrs.deep_view().take(i as int)), ", "@),
        decreases addrs.len() - i,
    {
        proof {
            let dv = addrs.deep_view();
            lemma_spec_joined_push(rendered_addrs(dv.take(i as int)), ", "@, addr_render(dv[i as int]));
            assert(rendered_addrs(dv.take(i + 1)) =~= rendered_addrs(dv.take(i as int)).push(
                addr_render(dv[i as int]),
            ));
        }
        if i > 0 {
            out.append(", ");
        }
        let piece = addrs[i].render();
        out.append(piece.as_str());
        i += 1;
    }
    proof {
        assert(addrs.deep_view().take(addrs.len() as int) =~= addrs.deep_view());
    }
    out
}

} // verus!
