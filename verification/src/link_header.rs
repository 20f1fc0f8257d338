//! Parsing of the pagination (`Link`) header.
//!
//! The header is a comma-ish list of `<uri>; rel="name"` entries.  The
//! number of the terminal page is the `page` query parameter of the entry
//! tagged `last`: the parser collects every `rel` entry in order (a repeated
//! name keeps its latest entry), then reads the digits after the last
//! `?page=` of the `last` entry's URI.

use vstd::prelude::*;
use vstd::slice::slice_subrange;
use vstd::slice::slice_to_vec;

use crate::error::Error;
use crate::text::spec_find_from;
use crate::text::spec_parse_u64;
use crate::text::find_from;
use crate::text::lemma_find_from_bounds;
use crate::text::parse_u64_chars;
use crate::text::str_chars;

verus! {

/// Whether `c` is whitespace as the entry grammar admits between `;` and
/// `rel`.
pub open spec fn is_link_space(c: char) -> bool {
    c == ' ' || c == '\t' || c == '\n' || c == '\r' || c == '\u{b}' || c == '\u{c}'
}

fn is_link_space_exec(c: char) -> (r: bool)
    ensures
        r == is_link_space(c),
{
    c == ' ' || c == '\t' || c == '\n' || c == '\r' || c == '\u{b}' || c == '\u{c}'
}

/// Whether a `<uri>; rel="name` entry starts at position `p`.
pub open spec fn entry_at(s: Seq<char>, p: int) -> bool {
    let close = spec_find_from(s, p + 1, '>');
    &&& 0 <= p < s.len()
    &&& s[p] == '<'
    &&& close + 8 <= s.len()
    &&& s[close + 1] == ';'
    &&& is_link_space(s[close + 2])
    &&& s[close + 3] == 'r'
    &&& s[close + 4] == 'e'
    &&& s[close + 5] == 'l'
    &&& s[close + 6] == '='
    &&& s[close + 7] == '"'
}

/// The URI of the entry starting at `p`: what stands between `<` and the
/// first `>`.
pub open spec fn entry_uri(s: Seq<char>, p: int) -> Seq<char> {
    s.subrange(p + 1, spec_find_from(s, p + 1, '>'))
}

/// The relation name of the entry starting at `p`: what follows `rel="` up
/// to the next quote or the end of the header.
pub open spec fn entry_rel(s: Seq<char>, p: int) -> Seq<char> {
    let close = spec_find_from(s, p + 1, '>');
    s.subrange(close + 8, spec_find_from(s, close + 8, '"'))
}

/// Where the scan resumes after the entry starting at `p`.
pub open spec fn entry_end(s: Seq<char>, p: int) -> int {
    let close = spec_find_from(s, p + 1, '>');
    spec_find_from(s, close + 8, '"')
}

/// All `(rel, uri)` entries found at or after position `p`, in order.
pub open spec fn spec_rels_from(s: Seq<char>, p: int) -> Seq<(Seq<char>, Seq<char>)>
    decreases s.len() - p,
        when p >= 0
    via spec_rels_from_decreases
{
    if p >= s.len() {
        Seq::empty()
    } else if entry_at(s, p) {
        seq![(entry_rel(s, p), entry_uri(s, p))] + spec_rels_from(s, entry_end(s, p))
    } else {
        spec_rels_from(s, p + 1)
    }
}

#[via_fn]
proof fn spec_rels_from_decreases(s: Seq<char>, p: int) {
    if 0 <= p < s.len() && entry_at(s, p) {
        lemma_find_from_bounds(s, p + 1, '>');
        let close = spec_find_from(s, p + 1, '>');
        lemma_find_from_bounds(s, close + 8, '"');
    }
}

/// The URI of the latest entry tagged with relation name `last`, if any.
pub open spec fn spec_last_rel_uri(pairs: Seq<(Seq<char>, Seq<char>)>) -> Option<Seq<char>>
    decreases pairs.len(),
{
    if pairs.len() == 0 {
        None
    } else if pairs.last().0 == "last"@ {
        Some(pairs.last().1)
    } else {
        spec_last_rel_uri(pairs.drop_last())
    }
}

/// `a`, unless it is `None`, then `b`.
pub open spec fn spec_or_else(a: Option<Seq<char>>, b: Option<Seq<char>>) -> Option<Seq<char>> {
    if a is Some {
        a
    } else {
        b
    }
}

proof fn lemma_last_rel_uri_cons(x: (Seq<char>, Seq<char>), rest: Seq<(Seq<char>, Seq<char>)>)
    ensures
        spec_last_rel_uri(seq![x] + rest) == spec_or_else(
            spec_last_rel_uri(rest),
            if x.0 == "last"@ { Some(x.1) } else { None },
        ),
    decreases rest.len(),
{
    if rest.len() == 0 {
        assert(seq![x] + rest =~= seq![x]);
        assert((seq![x]).drop_last() =~= Seq::<(Seq<char>, Seq<char>)>::empty());
    } else {
        assert((seq![x] + rest).drop_last() =~= seq![x] + rest.drop_last());
        assert((seq![x] + rest).last() == rest.last());
        lemma_last_rel_uri_cons(x, rest.drop_last());
    }
}

/// Whether the six characters `?page=` stand at position `p` of `u`.
pub open spec fn marker_at(u: Seq<char>, p: int) -> bool {
    &&& 0 <= p
    &&& p + 6 <= u.len()
    &&& u.subrange(p, p + 6) == "?page="@
}

fn marker_at_exec(uri: &Vec<char>, k: usize) -> (r: bool)
    requires
        k + 6 <= uri@.len(),
    ensures
        r == marker_at(uri@, k as int),
{
    let _len = uri.len();
    let r = uri[k] == '?' && uri[k + 1] == 'p' && uri[k + 2] == 'a' && uri[k + 3] == 'g'
        && uri[k + 4] == 'e' && uri[k + 5] == '=';
    proof {
        reveal_strlit("?page=");
        let sub = uri@.subrange(k as int, k as int + 6);
        assert(sub[0] == uri@[k as int] && sub[1] == uri@[k as int + 1] && sub[2] == uri@[k as int
            + 2] && sub[3] == uri@[k as int + 3] && sub[4] == uri@[k as int + 4] && sub[5]
            == uri@[k as int + 5]);
        if r {
            assert(sub =~= "?page="@);
        }
    }
    r
}

/// The position of the last `?page=` in `u` at or before `p`, if any.
pub open spec fn spec_last_marker(u: Seq<char>, p: int) -> Option<int>
    decreases p + 1,
{
    if p < 0 {
        None
    } else if marker_at(u, p) {
        Some(p)
    } else {
        spec_last_marker(u, p - 1)
    }
}

/// The page number carried by a `rel="last"` URI: the digits after its last
/// `?page=`, when they read as a decimal number.
pub open spec fn spec_page_of_uri(u: Seq<char>) -> Option<u64> {
    match spec_last_marker(u, u.len() - 6) {
        None => None,
        Some(p) => spec_parse_u64(u.subrange(p + 6, u.len() as int)),
    }
}

/// What `get_last_page` returns for a header with these characters.
pub open spec fn spec_get_last_page(s: Seq<char>) -> Result<usize, Error> {
    match spec_last_rel_uri(spec_rels_from(s, 0)) {
        None => Err(Error::MissingLastRel),
        Some(uri) => match spec_page_of_uri(uri) {
            Some(n) => if n <= usize::MAX as u64 {
                Ok(n as usize)
            } else {
                Err(Error::MalformedPageNumber)
            },
            None => Err(Error::MalformedPageNumber),
        },
    }
}

/// The view of the URI held so far, if any.
pub open spec fn spec_opt_chars(o: Option<Vec<char>>) -> Option<Seq<char>> {
    match o {
        Some(u) => Some(u@),
        None => None,
    }
}

/// The view of an optional index.
pub open spec fn spec_opt_index(o: Option<usize>) -> Option<int> {
    match o {
        Some(x) => Some(x as int),
        None => None,
    }
}

/// The terminal page number in a pagination header: the `page` query
/// parameter of the entry tagged `rel="last"`.  Fails with
/// `Error::MissingLastRel` when no entry is tagged `last`, and with
/// `Error::MalformedPageNumber` when the `last` URI carries no readable page
/// number.
pub fn get_last_page(link: &str) -> (r: Result<usize, Error>)
    ensures
        r == spec_get_last_page(link@),
{
    let cs = str_chars(link);
    let ghost s = cs@;
    let mut p: usize = 0;
    let mut last_uri: Option<Vec<char>> = None;
    while p < cs.len()
        invariant
            cs@ == s,
            p <= s.len(),
            spec_last_rel_uri(spec_rels_from(s, 0)) == spec_or_else(
                spec_last_rel_uri(spec_rels_from(s, p as int)),
                spec_opt_chars(last_uri),
            ),
        decreases s.len() - p,
    {
        if cs[p] != '<' {
            p = p + 1;
        } else {
            let close = find_from(&cs, p + 1, '>');
            let shape_ok = cs.len() >= 8 && close <= cs.len() - 8 && cs[close + 1] == ';'
                && is_link_space_exec(cs[close + 2]) && cs[close + 3] == 'r' && cs[close + 4] == 'e'
                && cs[close + 5] == 'l' && cs[close + 6] == '=' && cs[close + 7] == '"';
            if !shape_ok {
                p = p + 1;
            } else {
                let rel_start = close + 8;
                let rel_end = find_from(&cs, rel_start, '"');
                let is_last = rel_end - rel_start == 4 && cs[rel_start] == 'l' && cs[rel_start + 1]
                    == 'a' && cs[rel_start + 2] == 's' && cs[rel_start + 3] == 't';
                proof {
                    reveal_strlit("last");
                    let rel = entry_rel(s, p as int);
                    assert(rel == s.subrange(rel_start as int, rel_end as int));
                    if is_last {
                        assert(rel =~= "last"@);
                    } else {
                        if rel == "last"@ {
                            assert(rel.len() == 4);
                            assert(rel[0] == s[rel_start as int] && rel[1] == s[rel_start as int
                                + 1] && rel[2] == s[rel_start as int + 2] && rel[3]
                                == s[rel_start as int + 3]);
                        }
                    }
                }
                if is_last {
                    let sl = slice_subrange(cs.as_slice(), p + 1, close);
                    let uri: Vec<char> = slice_to_vec(sl);
                    last_uri = Some(uri);
                }
                proof {
                    lemma_last_rel_uri_cons(
                        (entry_rel(s, p as int), entry_uri(s, p as int)),
                        spec_rels_from(s, entry_end(s, p as int)),
                    );
                }
                p = rel_end;
            }
        }
    }
    let uri: Vec<char> = match last_uri {
        None => {
            return Err(Error::MissingLastRel);
        },
        Some(u) => u,
    };
    let ghost uv = uri@;
    if uri.len() < 6 {
        return Err(Error::MalformedPageNumber);
    }
    let mut k: usize = 0;
    let mut found: Option<usize> = None;
    while k <= uri.len() - 6
        invariant
            uri@ == uv,
            uv.len() >= 6,
            k <= uv.len() - 5,
            match found {
                Some(x) => x + 6 <= uv.len(),
                None => true,
            },
            spec_opt_index(found) == spec_last_marker(uv, k as int - 1),
        decreases uri@.len() - k,
    {
        if marker_at_exec(&uri, k) {
            found = Some(k);
        }
        k = k + 1;
    }
    proof {
        assert(k as int - 1 == uv.len() - 6);
    }
    match found {
        None => Err(Error::MalformedPageNumber),
        Some(mpos) => {
            let digits = slice_subrange(uri.as_slice(), mpos + 6, uri.len());
            match parse_u64_chars(digits) {
                Some(n) => {
                    if n <= usize::MAX as u64 {
                        Ok(n as usize)
                    } else {
                        Err(Error::MalformedPageNumber)
                    }
                },
                None => Err(Error::MalformedPageNumber),
            }
        },
    }
}

} // verus!
