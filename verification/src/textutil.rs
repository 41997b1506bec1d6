use vstd::prelude::*;
use vstd::string::StrSliceExecFns;
use vstd::string::StringExecFns;

verus! {

/// Index of the first occurrence of `c` in `s`, or `s.len()` when `c`
/// does not occur.
pub open spec fn find_char(s: Seq<char>, c: char) -> int
    decreases s.len(),
{
    if s.len() == 0 {
        0
    } else if s[0] == c {
        0
    } else {
        1 + find_char(s.skip(1), c)
    }
}

pub proof fn lemma_find_char(s: Seq<char>, c: char)
    ensures
        0 <= find_char(s, c) <= s.len(),
        find_char(s, c) < s.len() ==> s[find_char(s, c)] == c,
        forall|j: int| 0 <= j < find_char(s, c) ==> s[j] != c,
    decreases s.len(),
{
    if s.len() == 0 {
    } else if s[0] == c {
    } else {
        lemma_find_char(s.skip(1), c);
        assert forall|j: int| 0 <= j < find_char(s, c) implies s[j] != c by {
            if j > 0 {
                assert(s.skip(1)[j - 1] == s[j]);
            }
        }
    }
}

/// `find_char` returns `i` exactly when `c` is at `i` and nowhere before.
pub proof fn lemma_find_char_is(s: Seq<char>, c: char, i: int)
    requires
        0 <= i <= s.len(),
        forall|j: int| 0 <= j < i ==> s[j] != c,
        i < s.len() ==> s[i] == c,
    ensures
        find_char(s, c) == i,
{
    lemma_find_char(s, c);
}

/// A line with one trailing carriage return removed, as `str::lines`
/// does for lines that a line feed terminated.
pub open spec fn strip_cr(l: Seq<char>) -> Seq<char> {
    if l.len() > 0 && l[l.len() - 1] == '\r' {
        l.drop_last()
    } else {
        l
    }
}

/// The lines of `s`: split at `'\n'`, one trailing `'\r'` removed from
/// each terminated line, no empty line after a final line feed.
pub open spec fn spec_lines(s: Seq<char>) -> Seq<Seq<char>>
    decreases s.len(),
{
    if s.len() == 0 {
        Seq::empty()
    } else {
        let i = find_char(s, '\n');
        if 0 <= i && i < s.len() {
            seq![strip_cr(s.take(i))] + spec_lines(s.skip(i + 1))
        } else {
            seq![s]
        }
    }
}

/// Splits `s` into its lines, as `str::lines` counts them.
pub fn split_lines(s: &str) -> (r: Vec<String>)
    ensures
        r.deep_view() == spec_lines(s@),
{
    let n = s.unicode_len();
    let mut out: Vec<String> = Vec::new();
    let mut start: usize = 0;
    let mut k: usize = 0;
    proof {
        assert(s@.skip(0) =~= s@);
        assert(out.deep_view() =~= Seq::<Seq<char>>::empty());
        assert(out.deep_view() + spec_lines(s@) =~= spec_lines(s@));
    }
    while k < n
        invariant
            n == s@.len(),
            start <= k <= n,
            forall|j: int| start <= j < k ==> s@[j] != '\n',
            spec_lines(s@) == out.deep_view() + spec_lines(s@.skip(start as int)),
        decreases n - k,
    {
        if s.get_char(k) == '\n' {
            let end = if k > start && s.get_char(k - 1) == '\r' {
                k - 1
            } else {
                k
            };
            let line = s.substring_char(start, end).to_owned();
            proof {
                let suf = s@.skip(start as int);
                assert forall|j: int| 0 <= j < k - start implies suf[j] != '\n' by {
                    assert(suf[j] == s@[start + j]);
                }
                lemma_find_char_is(suf, '\n', k - start);
                assert(suf.take(k - start) =~= s@.subrange(start as int, k as int));
                assert(suf.skip(k - start + 1) =~= s@.skip(k + 1));
                if k > start && s@[k - 1] == '\r' {
                    assert(strip_cr(s@.subrange(start as int, k as int)) =~= s@.subrange(
                        start as int,
                        end as int,
                    ));
                } else {
                    assert(strip_cr(s@.subrange(start as int, k as int)) =~= s@.subrange(
                        start as int,
                        end as int,
                    ));
                }
                assert(out.deep_view().push(line@) =~= out.deep_view() + seq![line@]);
                assert(out.deep_view() + (seq![strip_cr(suf.take(k - start))] + spec_lines(
                    suf.skip(k - start + 1),
                )) =~= (out.deep_view() + seq![line@]) + spec_lines(s@.skip(k + 1)));
            }
            out.push(line);
            start = k + 1;
        }
        k += 1;
    }
    if start < n {
        let line = s.substring_char(start, n).to_owned();
        proof {
            let suf = s@.skip(start as int);
            assert forall|j: int| 0 <= j < suf.len() implies suf[j] != '\n' by {
                assert(suf[j] == s@[start + j]);
            }
            lemma_find_char_is(suf, '\n', suf.len() as int);
            assert(suf =~= s@.subrange(start as int, n as int));
            assert(out.deep_view().push(line@) =~= out.deep_view() + seq![line@]);
            assert(out.deep_view() + seq![suf] =~= out.deep_view().push(line@));
        }
        out.push(line);
    } else {
        proof {
            assert(s@.skip(start as int).len() == 0);
            assert(out.deep_view() + spec_lines(s@.skip(start as int)) =~= out.deep_view());
        }
    }
    out
}

/// The pieces of `s` between commas; splitting never yields fewer than
/// one piece.
pub open spec fn split_commas(s: Seq<char>) -> Seq<Seq<char>>
    decreases s.len(),
{
    let i = find_char(s, ',');
    if 0 <= i && i < s.len() {
        seq![s.take(i)] + split_commas(s.skip(i + 1))
    } else {
        seq![s]
    }
}

pub proof fn lemma_split_commas_nonempty(s: Seq<char>)
    ensures
        split_commas(s).len() >= 1,
{
}

/// Splits `s` at every comma, keeping empty pieces.
pub fn split_at_commas(s: &str) -> (r: Vec<String>)
    ensures
        r.deep_view() == split_commas(s@),
{
    let n = s.unicode_len();
    let mut out: Vec<String> = Vec::new();
    let mut start: usize = 0;
    let mut k: usize = 0;
    proof {
        assert(s@.skip(0) =~= s@);
        assert(out.deep_view() =~= Seq::<Seq<char>>::empty());
        assert(out.deep_view() + split_commas(s@) =~= split_commas(s@));
    }
    while k < n
        invariant
            n == s@.len(),
            start <= k <= n,
            forall|j: int| start <= j < k ==> s@[j] != ',',
            split_commas(s@) == out.deep_view() + split_commas(s@.skip(start as int)),
        decreases n - k,
    {
        if s.get_char(k) == ',' {
            let piece = s.substring_char(start, k).to_owned();
            proof {
                let suf = s@.skip(start as int);
                assert forall|j: int| 0 <= j < k - start implies suf[j] != ',' by {
                    assert(suf[j] == s@[start + j]);
                }
                lemma_find_char_is(suf, ',', k - start);
                assert(suf.take(k - start) =~= s@.subrange(start as int, k as int));
                assert(suf.skip(k - start + 1) =~= s@.skip(k + 1));
                assert(out.deep_view() + (seq![suf.take(k - start)] + split_commas(
                    suf.skip(k - start + 1),
                )) =~= (out.deep_view() + seq![piece@]) + split_commas(s@.skip(k + 1)));
                assert(out.deep_view().push(piece@) =~= out.deep_view() + seq![piece@]);
            }
            out.push(piece);
            start = k + 1;
        }
        k += 1;
    }
    let piece = s.substring_char(start, n).to_owned();
    proof {
        let suf = s@.skip(start as int);
        assert forall|j: int| 0 <= j < suf.len() implies suf[j] != ',' by {
            assert(suf[j] == s@[start + j]);
        }
        lemma_find_char_is(suf, ',', suf.len() as int);
        assert(suf =~= s@.subrange(start as int, n as int));
        assert(out.deep_view() + seq![suf] =~= out.deep_view().push(piece@));
    }
    out.push(piece);
    out
}

/// `p` is a prefix of `s`.
pub open spec fn spec_starts_with(s: Seq<char>, p: Seq<char>) -> bool {
    p.len() <= s.len() && s.take(p.len() as int) == p
}

/// Whether `p` is a prefix of `s`, counted in characters.
pub fn str_starts_with(s: &str, p: &str) -> (r: bool)
    ensures
        r == spec_starts_with(s@, p@),
{
    let n = s.unicode_len();
    let m = p.unicode_len();
    if m > n {
        return false;
    }
    let mut k: usize = 0;
    while k < m
        invariant
            n == s@.len(),
            m == p@.len(),
            m <= n,
            k <= m,
            forall|j: int| 0 <= j < k ==> s@[j] == p@[j],
        decreases m - k,
    {
        if s.get_char(k) != p.get_char(k) {
            proof {
                assert(s@.take(m as int)[k as int] != p@[k as int]);
            }
            return false;
        }
        k += 1;
    }
    proof {
        assert(s@.take(m as int) =~= p@);
    }
    true
}

/// Whether two string slices hold the same characters.
pub fn str_eq(a: &str, b: &str) -> (r: bool)
    ensures
        r == (a@ == b@),
{
    let x = a.to_owned();
    let y = b.to_owned();
    x == y
}

/// What `str::trim` removes is left abstract; only that the result is
/// a contiguous piece of the input is stated.
pub uninterp spec fn trimmed_of(s: Seq<char>) -> Seq<char>;

/// Relies on str::trim: the result is the input without leading and
/// trailing whitespace, so a contiguous piece of the input.
#[verifier::external_body]
pub fn trim_str(s: &str) -> (r: String)
    ensures
        r@ == trimmed_of(s@),
        r@.len() <= s@.len(),
{
    s.trim().to_owned()
}

/// Relies on String::from_utf8: returns the decoded characters exactly
/// when the bytes are valid UTF-8.
#[verifier::external_body]
pub fn bytes_to_string(b: &Vec<u8>) -> (r: Option<String>)
    ensures
        r matches Some(s) <==> vstd::utf8::valid_utf8(b@),
        r matches Some(s) ==> s@ == vstd::utf8::decode_utf8(b@),
{
    String::from_utf8(b.clone()).ok()
}

/// Joins pieces with a separator between neighbours.
pub open spec fn spec_joined(items: Seq<Seq<char>>, sep: Seq<char>) -> Seq<char>
    decreases items.len(),
{
    if items.len() == 0 {
        Seq::empty()
    } else if items.len() == 1 {
        items[0]
    } else {
        items[0] + sep + spec_joined(items.skip(1), sep)
    }
}

/// Copies an optional string.
pub fn clone_opt_string(o: &Option<String>) -> (r: Option<String>)
    ensures
        r.deep_view() == o.deep_view(),
{
    match o {
        Some(s) => Some(s.clone()),
        None => None,
    }
}

pub proof fn lemma_spec_joined_push(items: Seq<Seq<char>>, sep: Seq<char>, x: Seq<char>)
    ensures
        spec_joined(items.push(x), sep) == if items.len() == 0 {
            x
        } else {
            spec_joined(items, sep) + sep + x
        },
    decreases items.len(),
{
    if items.len() == 0 {
        assert(items.push(x) =~= seq![x]);
    } else if items.len() == 1 {
        assert(items.push(x).skip(1) =~= seq![x]);
        assert(spec_joined(seq![x], sep) == x);
        assert(spec_joined(items.push(x), sep) == items.push(x)[0] + sep + spec_joined(
            items.push(x).skip(1),
            sep,
        ));
        assert(spec_joined(items, sep) == items[0]);
    } else {
        lemma_spec_joined_push(items.skip(1), sep, x);
        assert(items.push(x).skip(1) =~= items.skip(1).push(x));
        assert(spec_joined(items.push(x), sep) == items[0] + sep + (spec_joined(
            items.skip(1),
            sep,
        ) + sep + x));
        assert(items[0] + sep + (spec_joined(items.skip(1), sep) + sep + x) =~= (items[0] + sep
            + spec_joined(items.skip(1), sep)) + sep + x);
    }
}

/// Joins the strings, a separator between neighbours.
pub fn join_strings(items: &Vec<String>, sep: &str) -> (r: String)
    ensures
        r@ == spec_joined(items.deep_view(), sep@),
{
    let mut out = String::new();
    let mut i: usize = 0;
    proof {
        assert(items.deep_view().take(0) =~= Seq::<Seq<char>>::empty());
    }
    while i < items.len()
        invariant
            i <= items.len(),
            out@ == spec_joined(items.deep_view().take(i as int), sep@),
        decreases items.len() - i,
    {
        proof {
            let dv = items.deep_view();
            lemma_spec_joined_push(dv.take(i as int), sep@, dv[i as int]);
            assert(dv.take(i + 1) =~= dv.take(i as int).push(dv[i as int]));
        }
        if i > 0 {
            out.append(sep);
        }
        out.append(items[i].as_str());
        i += 1;
    }
    proof {
        assert(items.deep_view().take(items.len() as int) =~= items.deep_view());
    }
    out
}

} // verus!
