use vstd::prelude::*;

verus! {

/// A plain-text body part.
#[derive(Debug)]
pub struct TextPlainPart {
    pub content: String,
}

/// An HTML body part.
#[derive(Debug)]
pub struct TextHtmlPart {
    pub content: String,
}

/// A binary part: an attachment with its file name and media type.
#[derive(Debug)]
pub struct BinaryPart {
    pub filename: String,
    pub mime: String,
    pub content: Vec<u8>,
}

/// One MIME part of a message.
#[derive(Debug)]
pub enum Part {
    TextPlain(TextPlainPart),
    TextHtml(TextHtmlPart),
    Binary(BinaryPart),
}

/// Mathematical view of a binary part.
pub ghost struct BinV {
    pub filename: Seq<char>,
    pub mime: Seq<char>,
    pub content: Seq<u8>,
}

/// Mathematical view of a part.
pub ghost enum PartV {
    TextPlain(Seq<char>),
    TextHtml(Seq<char>),
    Binary(BinV),
}

impl View for BinaryPart {
    type V = BinV;

    open spec fn view(&self) -> BinV {
        BinV { filename: self.filename@, mime: self.mime@, content: self.content@ }
    }
}

impl DeepView for BinaryPart {
    type V = BinV;

    open spec fn deep_view(&self) -> BinV {
        self.view()
    }
}

impl Clone for BinaryPart {
    fn clone(&self) -> (r: Self)
        ensures
            r@ == self@,
    {
        BinaryPart {
            filename: self.filename.clone(),
            mime: self.mime.clone(),
            content: self.content.clone(),
        }
    }
}

impl View for Part {
    type V = PartV;

    open spec fn view(&self) -> PartV {
        match self {
            Part::TextPlain(p) => PartV::TextPlain(p.content@),
            Part::TextHtml(p) => PartV::TextHtml(p.content@),
            Part::Binary(b) => PartV::Binary(b@),
        }
    }
}

impl DeepView for Part {
    type V = PartV;

    open spec fn deep_view(&self) -> PartV {
        self.view()
    }
}

impl Clone for Part {
    fn clone(&self) -> (r: Self)
        ensures
            r@ == self@,
    {
        match self {
            Part::TextPlain(p) => Part::TextPlain(TextPlainPart { content: p.content.clone() }),
            Part::TextHtml(p) => Part::TextHtml(TextHtmlPart { content: p.content.clone() }),
            Part::Binary(b) => Part::Binary(b.clone()),
        }
    }
}

impl Part {
    /// Wraps a string as a plain-text part.
    pub fn new_text_plain(content: String) -> (r: Part)
        ensures
            r@ == PartV::TextPlain(content@),
    {
        Part::TextPlain(TextPlainPart { content })
    }

    /// Wraps a string as an HTML part.
    pub fn new_text_html(content: String) -> (r: Part)
        ensures
            r@ == PartV::TextHtml(content@),
    {
        Part::TextHtml(TextHtmlPart { content })
    }
}

/// The ordered collection of a message's parts.
#[derive(Debug)]
pub struct Parts(pub Vec<Part>);

impl View for Parts {
    type V = Seq<PartV>;

    open spec fn view(&self) -> Seq<PartV> {
        self.0.deep_view()
    }
}

impl Default for Parts {
    fn default() -> (r: Self)
        ensures
            r@ == Seq::<PartV>::empty(),
    {
        let r = Parts(Vec::new());
        proof {
            assert(r@ =~= Seq::<PartV>::empty());
        }
        r
    }
}

/// The binary parts of a sequence, in order.
pub open spec fn binaries(parts: Seq<PartV>) -> Seq<BinV>
    decreases parts.len(),
{
    if parts.len() == 0 {
        Seq::empty()
    } else {
        (match parts[0] {
            PartV::Binary(b) => seq![b],
            _ => Seq::empty(),
        }) + binaries(parts.skip(1))
    }
}

/// The contents of the plain-text parts of a sequence, in order.
pub open spec fn plain_contents(parts: Seq<PartV>) -> Seq<Seq<char>>
    decreases parts.len(),
{
    if parts.len() == 0 {
        Seq::empty()
    } else {
        (match parts[0] {
            PartV::TextPlain(c) => seq![c],
            _ => Seq::empty(),
        }) + plain_contents(parts.skip(1))
    }
}

/// The contents of the HTML parts of a sequence, in order.
pub open spec fn html_contents(parts: Seq<PartV>) -> Seq<Seq<char>>
    decreases parts.len(),
{
    if parts.len() == 0 {
        Seq::empty()
    } else {
        (match parts[0] {
            PartV::TextHtml(c) => seq![c],
            _ => Seq::empty(),
        }) + html_contents(parts.skip(1))
    }
}

/// A sequence without its plain-text parts, in order.
pub open spec fn drop_plains(parts: Seq<PartV>) -> Seq<PartV>
    decreases parts.len(),
{
    if parts.len() == 0 {
        Seq::empty()
    } else {
        (match parts[0] {
            PartV::TextPlain(_) => Seq::empty(),
            _ => seq![parts[0]],
        }) + drop_plains(parts.skip(1))
    }
}

/// A sequence without its HTML parts, in order.
pub open spec fn drop_htmls(parts: Seq<PartV>) -> Seq<PartV>
    decreases parts.len(),
{
    if parts.len() == 0 {
        Seq::empty()
    } else {
        (match parts[0] {
            PartV::TextHtml(_) => Seq::empty(),
            _ => seq![parts[0]],
        }) + drop_htmls(parts.skip(1))
    }
}

/// Appends a piece to an accumulated body, with a blank line between
/// them once the accumulator is non-empty.
pub open spec fn glue_join(acc: Seq<char>, piece: Seq<char>) -> Seq<char> {
    if acc.len() == 0 {
        acc + piece
    } else {
        acc + "\n\n"@ + piece
    }
}

/// Accumulates the plain-text and HTML contents of the parts, each
/// kind joined by a blank line.
pub open spec fn fold_texts(parts: Seq<PartV>, plain: Seq<char>, html: Seq<char>) -> (
    Seq<char>,
    Seq<char>,
)
    decreases parts.len(),
{
    if parts.len() == 0 {
        (plain, html)
    } else {
        let next = match parts[0] {
            PartV::TextPlain(c) => (glue_join(plain, c), html),
            PartV::TextHtml(c) => (plain, glue_join(html, c)),
            PartV::Binary(_) => (plain, html),
        };
        fold_texts(parts.skip(1), next.0, next.1)
    }
}

/// The plain-text contents of the parts, joined by a blank line.
pub open spec fn joined_plain(parts: Seq<PartV>) -> Seq<char> {
    fold_texts(parts, Seq::empty(), Seq::empty()).0
}

/// The HTML contents of the parts, joined by a blank line.
pub open spec fn joined_html(parts: Seq<PartV>) -> Seq<char> {
    fold_texts(parts, Seq::empty(), Seq::empty()).1
}

impl Parts {
    /// Appends a part.
    pub fn push(&mut self, part: Part)
        ensures
            final(self)@ == old(self)@.push(part@),
    {
        self.0.push(part);
        proof {
            assert(self@ =~= old(self)@.push(part@));
        }
    }

    /// Removes every plain-text part, keeping the order of the rest.
    pub fn remove_plains(&mut self)
        ensures
            final(self)@ == drop_plains(old(self)@),
    {
        let mut kept: Vec<Part> = Vec::new();
        let n = self.0.len();
        let mut i: usize = 0;
        proof {
            assert(kept.deep_view() =~= Seq::<PartV>::empty());
            assert(old(self)@.skip(0) =~= old(self)@);
            assert(kept.deep_view() + drop_plains(old(self)@) =~= drop_plains(old(self)@));
        }
        while i < n
            invariant
                n == self.0.len(),
                self@ == old(self)@,
                i <= n,
                drop_plains(old(self)@) == kept.deep_view() + drop_plains(
                    old(self)@.skip(i as int),
                ),
            decreases n - i,
        {
            proof {
                assert(old(self)@.skip(i as int)[0] == old(self)@[i as int]);
                assert(old(self)@.skip(i as int).skip(1) =~= old(self)@.skip(i + 1));
            }
            match &self.0[i] {
                Part::TextPlain(_) => {
                    proof {
                        assert(Seq::<PartV>::empty() + drop_plains(old(self)@.skip(i + 1)) =~=
                            drop_plains(old(self)@.skip(i + 1)));
                    }
                },
                _ => {
                    let p = self.0[i].clone();
                    proof {
                        assert(kept.deep_view() + (seq![old(self)@[i as int]] + drop_plains(
                            old(self)@.skip(i + 1),
                        )) =~= kept.deep_view().push(p@) + drop_plains(old(self)@.skip(i + 1)));
                    }
                    kept.push(p);
                },
            }
            i += 1;
        }
        proof {
            assert(old(self)@.skip(n as int).len() == 0);
            assert(kept.deep_view() + drop_plains(old(self)@.skip(n as int)) =~= kept.deep_view());
        }
        self.0 = kept;
    }

    /// Removes every HTML part, keeping the order of the rest.
    pub fn remove_htmls(&mut self)
        ensures
            final(self)@ == drop_htmls(old(self)@),
    {
        let mut kept: Vec<Part> = Vec::new();
        let n = self.0.len();
        let mut i: usize = 0;
        proof {
            assert(kept.deep_view() =~= Seq::<PartV>::empty());
            assert(old(self)@.skip(0) =~= old(self)@);
            assert(kept.deep_view() + drop_htmls(old(self)@) =~= drop_htmls(old(self)@));
        }
        while i < n
            invariant
                n == self.0.len(),
                self@ == old(self)@,
                i <= n,
                drop_htmls(old(self)@) == kept.deep_view() + drop_htmls(old(self)@.skip(i as int)),
            decreases n - i,
        {
            proof {
                assert(old(self)@.skip(i as int)[0] == old(self)@[i as int]);
                assert(old(self)@.skip(i as int).skip(1) =~= old(self)@.skip(i + 1));
            }
            match &self.0[i] {
                Part::TextHtml(_) => {
                    proof {
                        assert(Seq::<PartV>::empty() + drop_htmls(old(self)@.skip(i + 1)) =~=
                            drop_htmls(old(self)@.skip(i + 1)));
                    }
                },
                _ => {
                    let p = self.0[i].clone();
                    proof {
                        assert(kept.deep_view() + (seq![old(self)@[i as int]] + drop_htmls(
                            old(self)@.skip(i + 1),
                        )) =~= kept.deep_view().push(p@) + drop_htmls(old(self)@.skip(i + 1)));
                    }
                    kept.push(p);
                },
            }
            i += 1;
        }
        proof {
            assert(old(self)@.skip(n as int).len() == 0);
            assert(kept.deep_view() + drop_htmls(old(self)@.skip(n as int)) =~= kept.deep_view());
        }
        self.0 = kept;
    }

    /// Replaces every plain-text part with the given one, appended at
    /// the end; other parts are left untouched.
    pub fn replace_text_plain_parts_with(&mut self, part: TextPlainPart)
        ensures
            final(self)@ == drop_plains(old(self)@).push(PartV::TextPlain(part.content@)),
    {
        self.remove_plains();
        self.push(Part::TextPlain(part));
    }

    /// The binary parts, in order.
    pub fn attachments_of(&self) -> (r: Vec<BinaryPart>)
        ensures
            r.deep_view() == binaries(self@),
    {
        let mut out: Vec<BinaryPart> = Vec::new();
        let n = self.0.len();
        let mut i: usize = 0;
        proof {
            assert(out.deep_view() =~= Seq::<BinV>::empty());
            assert(self@.skip(0) =~= self@);
            assert(out.deep_view() + binaries(self@) =~= binaries(self@));
        }
        while i < n
            invariant
                n == self.0.len(),
                i <= n,
                binaries(self@) == out.deep_view() + binaries(self@.skip(i as int)),
            decreases n - i,
        {
            proof {
                assert(self@.skip(i as int)[0] == self@[i as int]);
                assert(self@.skip(i as int).skip(1) =~= self@.skip(i + 1));
            }
            match &self.0[i] {
                Part::Binary(b) => {
                    let c = b.clone();
                    proof {
                        assert(out.deep_view() + (seq![self@[i as int]->Binary_0] + binaries(
                            self@.skip(i + 1),
                        )) =~= (out.deep_view().push(c@)) + binaries(self@.skip(i + 1)));
                    }
                    out.push(c);
                },
                _ => {
                    proof {
                        assert(Seq::<BinV>::empty() + binaries(self@.skip(i + 1)) =~= binaries(
                            self@.skip(i + 1),
                        ));
                    }
                },
            }
            i += 1;
        }
        proof {
            assert(self@.skip(n as int).len() == 0);
            assert(out.deep_view() + binaries(self@.skip(n as int)) =~= out.deep_view());
        }
        out
    }
}

/// One step of the merge: a binary part is appended; a plain-text or
/// HTML part first removes every part of its own kind, then is
/// appended.
pub open spec fn merge_step(a: Seq<PartV>, p: PartV) -> Seq<PartV> {
    match p {
        PartV::Binary(_) => a.push(p),
        PartV::TextPlain(_) => drop_plains(a).push(p),
        PartV::TextHtml(_) => drop_htmls(a).push(p),
    }
}

/// The parts of `a` after every part of `b` was merged in, in order.
pub open spec fn merged_parts(a: Seq<PartV>, b: Seq<PartV>) -> Seq<PartV>
    decreases b.len(),
{
    if b.len() == 0 {
        a
    } else {
        merged_parts(merge_step(a, b[0]), b.skip(1))
    }
}

/// Merging one more overlay part is one more merge step.
pub proof fn lemma_merged_parts_push(a: Seq<PartV>, b: Seq<PartV>, x: PartV)
    ensures
        merged_parts(a, b.push(x)) == merge_step(merged_parts(a, b), x),
    decreases b.len(),
{
    if b.len() == 0 {
        assert(b.push(x) =~= seq![x]);
        assert(b.push(x).skip(1) =~= Seq::<PartV>::empty());
        assert(merged_parts(merge_step(a, x), Seq::<PartV>::empty()) == merge_step(a, x));
    } else {
        lemma_merged_parts_push(merge_step(a, b[0]), b.skip(1), x);
        assert(b.push(x)[0] == b[0]);
        assert(b.push(x).skip(1) =~= b.skip(1).push(x));
    }
}

/// How each projection treats an appended part.
pub proof fn lemma_contents_push(s: Seq<PartV>, p: PartV)
    ensures
        binaries(s.push(p)) == binaries(s) + (match p {
            PartV::Binary(b) => seq![b],
            _ => Seq::empty(),
        }),
        plain_contents(s.push(p)) == plain_contents(s) + (match p {
            PartV::TextPlain(c) => seq![c],
            _ => Seq::empty(),
        }),
        html_contents(s.push(p)) == html_contents(s) + (match p {
            PartV::TextHtml(c) => seq![c],
            _ => Seq::empty(),
        }),
    decreases s.len(),
{
    if s.len() == 0 {
        assert(s.push(p) =~= seq![p]);
        assert(s.push(p).skip(1) =~= Seq::<PartV>::empty());
        assert(binaries(Seq::<PartV>::empty()) == Seq::<BinV>::empty());
        assert(plain_contents(Seq::<PartV>::empty()) == Seq::<Seq<char>>::empty());
        assert(html_contents(Seq::<PartV>::empty()) == Seq::<Seq<char>>::empty());
        assert(binaries(s.push(p)) =~= binaries(s) + (match p {
            PartV::Binary(b) => seq![b],
            _ => Seq::empty(),
        }));
        assert(plain_contents(s.push(p)) =~= plain_contents(s) + (match p {
            PartV::TextPlain(c) => seq![c],
            _ => Seq::empty(),
        }));
        assert(html_contents(s.push(p)) =~= html_contents(s) + (match p {
            PartV::TextHtml(c) => seq![c],
            _ => Seq::empty(),
        }));
    } else {
        lemma_contents_push(s.skip(1), p);
        assert(s.push(p)[0] == s[0]);
        assert(s.push(p).skip(1) =~= s.skip(1).push(p));
        assert(binaries(s.push(p)) =~= binaries(s) + (match p {
            PartV::Binary(b) => seq![b],
            _ => Seq::empty(),
        }));
        assert(plain_contents(s.push(p)) =~= plain_contents(s) + (match p {
            PartV::TextPlain(c) => seq![c],
            _ => Seq::empty(),
        }));
        assert(html_contents(s.push(p)) =~= html_contents(s) + (match p {
            PartV::TextHtml(c) => seq![c],
            _ => Seq::empty(),
        }));
    }
}

/// Dropping the plain-text parts keeps the binary and HTML parts and
/// leaves no plain-text content.
pub proof fn lemma_drop_plains_contents(s: Seq<PartV>)
    ensures
        binaries(drop_plains(s)) == binaries(s),
        html_contents(drop_plains(s)) == html_contents(s),
        plain_contents(drop_plains(s)) == Seq::<Seq<char>>::empty(),
    decreases s.len(),
{
    if s.len() == 0 {
    } else {
        lemma_drop_plains_contents(s.skip(1));
        match s[0] {
            PartV::TextPlain(_) => {
                assert(drop_plains(s) =~= drop_plains(s.skip(1)));
            },
            _ => {
                assert(drop_plains(s)[0] == s[0]);
                assert(drop_plains(s).len() >= 1);
                assert(drop_plains(s).skip(1) =~= drop_plains(s.skip(1)));
                assert(binaries(drop_plains(s)) =~= binaries(s));
                assert(html_contents(drop_plains(s)) =~= html_contents(s));
                assert(plain_contents(drop_plains(s)) =~= Seq::<Seq<char>>::empty());
            },
        }
    }
}

/// Dropping the HTML parts keeps the binary and plain-text parts and
/// leaves no HTML content.
pub proof fn lemma_drop_htmls_contents(s: Seq<PartV>)
    ensures
        binaries(drop_htmls(s)) == binaries(s),
        plain_contents(drop_htmls(s)) == plain_contents(s),
        html_contents(drop_htmls(s)) == Seq::<Seq<char>>::empty(),
    decreases s.len(),
{
    if s.len() == 0 {
    } else {
        lemma_drop_htmls_contents(s.skip(1));
        match s[0] {
            PartV::TextHtml(_) => {
                assert(drop_htmls(s) =~= drop_htmls(s.skip(1)));
            },
            _ => {
                assert(drop_htmls(s)[0] == s[0]);
                assert(drop_htmls(s).len() >= 1);
                assert(drop_htmls(s).skip(1) =~= drop_htmls(s.skip(1)));
                assert(binaries(drop_htmls(s)) =~= binaries(s));
                assert(plain_contents(drop_htmls(s)) =~= plain_contents(s));
                assert(html_contents(drop_htmls(s)) =~= Seq::<Seq<char>>::empty());
            },
        }
    }
}

/// Merging preserves every binary part of the base and appends the
/// overlay's, so their count is the sum of both.
pub proof fn lemma_merged_parts_binaries(a: Seq<PartV>, b: Seq<PartV>)
    ensures
        binaries(merged_parts(a, b)) == binaries(a) + binaries(b),
        binaries(merged_parts(a, b)).len() == binaries(a).len() + binaries(b).len(),
    decreases b.len(),
{
    if b.len() == 0 {
        assert(binaries(merged_parts(a, b)) =~= binaries(a) + binaries(b));
    } else {
        lemma_merged_parts_binaries(merge_step(a, b[0]), b.skip(1));
        lemma_contents_push(a, b[0]);
        match b[0] {
            PartV::Binary(x) => {
                assert(binaries(b) =~= seq![x] + binaries(b.skip(1)));
                assert(binaries(merge_step(a, b[0])) == binaries(a) + seq![x]);
                assert((binaries(a) + seq![x]) + binaries(b.skip(1)) =~= binaries(a) + binaries(
                    b,
                ));
            },
            PartV::TextPlain(_) => {
                lemma_drop_plains_contents(a);
                lemma_contents_push(drop_plains(a), b[0]);
                assert(binaries(b) =~= binaries(b.skip(1)));
                assert(binaries(merge_step(a, b[0])) =~= binaries(a));
            },
            PartV::TextHtml(_) => {
                lemma_drop_htmls_contents(a);
                lemma_contents_push(drop_htmls(a), b[0]);
                assert(binaries(b) =~= binaries(b.skip(1)));
                assert(binaries(merge_step(a, b[0])) =~= binaries(a));
            },
        }
    }
}

/// After a merge the plain-text content is the base's when the
/// overlay brings none, else exactly the overlay's last plain-text
/// part: the overlay's plain text fully replaces the base's.
pub proof fn lemma_merged_parts_plains(a: Seq<PartV>, b: Seq<PartV>)
    ensures
        plain_contents(merged_parts(a, b)) == if plain_contents(b).len() == 0 {
            plain_contents(a)
        } else {
            seq![plain_contents(b).last()]
        },
    decreases b.len(),
{
    if b.len() == 0 {
    } else {
        lemma_merged_parts_plains(merge_step(a, b[0]), b.skip(1));
        lemma_contents_push(a, b[0]);
        match b[0] {
            PartV::TextPlain(c) => {
                lemma_drop_plains_contents(a);
                lemma_contents_push(drop_plains(a), b[0]);
                assert(plain_contents(merge_step(a, b[0])) =~= seq![c]);
                assert(plain_contents(b) =~= seq![c] + plain_contents(b.skip(1)));
                if plain_contents(b.skip(1)).len() == 0 {
                    assert(plain_contents(b).last() == c);
                } else {
                    assert(plain_contents(b).last() == plain_contents(b.skip(1)).last());
                }
            },
            PartV::TextHtml(_) => {
                lemma_drop_htmls_contents(a);
                lemma_contents_push(drop_htmls(a), b[0]);
                assert(plain_contents(merge_step(a, b[0])) =~= plain_contents(a));
                assert(plain_contents(b) =~= plain_contents(b.skip(1)));
            },
            PartV::Binary(_) => {
                assert(plain_contents(merge_step(a, b[0])) =~= plain_contents(a));
                assert(plain_contents(b) =~= plain_contents(b.skip(1)));
            },
        }
    }
}

/// After a merge the HTML content is the base's when the overlay
/// brings none, else exactly the overlay's last HTML part.
pub proof fn lemma_merged_parts_htmls(a: Seq<PartV>, b: Seq<PartV>)
    ensures
        html_contents(merged_parts(a, b)) == if html_contents(b).len() == 0 {
            html_contents(a)
        } else {
            seq![html_contents(b).last()]
        },
    decreases b.len(),
{
    if b.len() == 0 {
    } else {
        lemma_merged_parts_htmls(merge_step(a, b[0]), b.skip(1));
        lemma_contents_push(a, b[0]);
        match b[0] {
            PartV::TextHtml(c) => {
                lemma_drop_htmls_contents(a);
                lemma_contents_push(drop_htmls(a), b[0]);
                assert(html_contents(merge_step(a, b[0])) =~= seq![c]);
                assert(html_contents(b) =~= seq![c] + html_contents(b.skip(1)));
                if html_contents(b.skip(1)).len() == 0 {
                    assert(html_contents(b).last() == c);
                } else {
                    assert(html_contents(b).last() == html_contents(b.skip(1)).last());
                }
            },
            PartV::TextPlain(_) => {
                lemma_drop_plains_contents(a);
                lemma_contents_push(drop_plains(a), b[0]);
                assert(html_contents(merge_step(a, b[0])) =~= html_contents(a));
                assert(html_contents(b) =~= html_contents(b.skip(1)));
            },
            PartV::Binary(_) => {
                assert(html_contents(merge_step(a, b[0])) =~= html_contents(a));
                assert(html_contents(b) =~= html_contents(b.skip(1)));
            },
        }
    }
}

} // verus!
