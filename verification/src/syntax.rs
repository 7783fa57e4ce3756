//! Parse steps over the flat token model that several configuration
//! grammars share.
use vstd::prelude::*;
use crate::error::{CtorError, CtorErrorV, Expected};
use crate::outside::{ident_text_ok, parses_as_ident, parses_as_visibility, visibility_text_ok};
use crate::tokens::{
    copy_range, extend_toks, find_group_close, find_tree_end, group_close, group_contents,
    is_ident_named, is_punct_char, lemma_group_close_bounds, origin_at, origin_at_exec, origin_of,
    push_tok, render, render_range, tree_end, tv, Delim, Origin, Tok, TokV,
};

verus! {

/// A name and where it points.
pub struct Name {
    pub text: String,
    pub span: Origin,
}

/// The value of a [`Name`].
pub struct NameV {
    pub text: Seq<char>,
    pub span: Origin,
}

impl View for Name {
    type V = NameV;

    open spec fn view(&self) -> NameV {
        NameV { text: self.text@, span: self.span }
    }
}

impl Name {
    /// A copy of the name.
    pub fn copy(&self) -> (r: Name)
        ensures
            r@ == self@,
    {
        Name { text: self.text.clone(), span: self.span }
    }

    /// The name as an identifier token.
    pub fn to_tok(&self) -> (r: Tok)
        ensures
            r@ == TokV::Ident(self.text@, self.span),
    {
        Tok::Ident { text: self.text.clone(), span: self.span }
    }
}

/// The token is an identifier that `syn` accepts as one (no keyword).
pub open spec fn accepted_ident(t: TokV) -> bool {
    t matches TokV::Ident(x, _) && ident_text_ok(x)
}

/// The text of an identifier token.
pub open spec fn ident_text(t: TokV) -> Seq<char> {
    match t {
        TokV::Ident(x, _) => x,
        _ => seq![],
    }
}

/// The name that an identifier token carries.
pub open spec fn name_of(t: TokV) -> NameV {
    NameV { text: ident_text(t), span: origin_of(t) }
}

/// An accepted identifier stands at position `p`.
pub open spec fn spec_peek_ident(s: Seq<TokV>, p: int) -> bool {
    0 <= p < s.len() && accepted_ident(s[p])
}

/// The identifier `kw` stands at position `p`.
pub open spec fn at_ident(s: Seq<TokV>, p: int, kw: Seq<char>) -> bool {
    0 <= p < s.len() && is_ident_named(s[p], kw)
}

/// The punctuation character `c` stands at position `p`.
pub open spec fn at_punct(s: Seq<TokV>, p: int, c: char) -> bool {
    0 <= p < s.len() && is_punct_char(s[p], c)
}

/// A group with delimiter `d` opens at position `p`.
pub open spec fn at_open(s: Seq<TokV>, p: int, d: Delim) -> bool {
    0 <= p < s.len() && (s[p] matches TokV::Open(x, _) && x == d)
}

/// A group of any delimiter opens at position `p`.
pub open spec fn at_any_open(s: Seq<TokV>, p: int) -> bool {
    0 <= p < s.len() && s[p] is Open
}

/// The number of tokens that a visibility takes at position `p`: `pub`
/// with a restriction group when `syn` reads both as one visibility, `pub`
/// alone otherwise, and nothing when no `pub` stands there.
pub open spec fn spec_vis_len(s: Seq<TokV>, p: int) -> int {
    if at_ident(s, p, "pub"@) {
        if at_open(s, p + 1, Delim::Paren) && visibility_text_ok(
            render(s.subrange(p, tree_end(s, p + 1))),
        ) {
            tree_end(s, p + 1) - p
        } else {
            1
        }
    } else {
        0
    }
}

/// The tokens `pub (c[..n])`: the `pub` at `p` and the start `c[..n]` of
/// the contents of the group after it, closed again.
pub open spec fn vis_candidate(s: Seq<TokV>, p: int, n: int) -> Seq<TokV> {
    seq![s[p], s[p + 1]] + group_contents(s, p + 1).subrange(0, n) + seq![
        TokV::Close(Delim::Paren, origin_of(s[p + 1])),
    ]
}

/// The length of the longest start `c[..k]`, with `k <= n`, of the contents
/// of the group after the `pub` at `p` such that `pub (c[..k])` reads as
/// one visibility; 0 when none does.
pub open spec fn vis_prefix_len(s: Seq<TokV>, p: int, n: int) -> int
    decreases n,
{
    if n <= 0 {
        0
    } else if visibility_text_ok(render(vis_candidate(s, p, n))) {
        n
    } else {
        vis_prefix_len(s, p, n - 1)
    }
}

/// The visibility at `p`: how many tokens it takes and the left-over token
/// recorded so far. A restriction `pub(in PATH)` takes its whole group,
/// and what follows the longest path in it is left over; with no path
/// after `in` at all, the visibility is an error. Any other `pub` takes
/// what [`spec_vis_len`] says.
pub open spec fn spec_vis(s: Seq<TokV>, p: int, pending: Option<Leftover>, end: Origin) -> Result<
    (int, Option<Leftover>),
    CtorErrorV,
> {
    if at_ident(s, p, "pub"@) && at_open(s, p + 1, Delim::Paren) && at_ident(
        group_contents(s, p + 1),
        0,
        "in"@,
    ) {
        let c = group_contents(s, p + 1);
        let k = vis_prefix_len(s, p, c.len() as int);
        if k > 0 {
            Ok((tree_end(s, p + 1) - p, leftover(pending, c, k, Delim::Paren)))
        } else {
            Err(CtorErrorV::Expected { what: Expected::Ident, at: origin_at(s, p + 3, end) })
        }
    } else {
        Ok((spec_vis_len(s, p), pending))
    }
}

/// A token left over in a group, and the delimiter of that group.
#[derive(Clone, Copy, Debug, PartialEq, Eq, Structural)]
pub struct Leftover {
    pub at: Origin,
    pub within: Delim,
}

/// The first left-over token of a group records itself, unless an earlier
/// one did: `k` is the position in the contents `c`, of a group delimited
/// by `d`, where parsing stopped.
pub open spec fn leftover(pending: Option<Leftover>, c: Seq<TokV>, k: int, d: Delim) -> Option<
    Leftover,
> {
    if pending is None && 0 <= k < c.len() {
        Some(Leftover { at: origin_of(c[k]), within: d })
    } else {
        pending
    }
}

/// The delimiter of a group's opening marker.
pub open spec fn open_delim(t: TokV) -> Delim {
    match t {
        TokV::Open(d, _) => d,
        _ => Delim::Paren,
    }
}

/// The check that ends the parse of a whole argument list: a recorded
/// left-over token, then any token after the parsed part, is an error.
pub open spec fn spec_finish(s: Seq<TokV>, pos: int, pending: Option<Leftover>) -> Result<
    (),
    CtorErrorV,
> {
    match pending {
        Some(l) => Err(CtorErrorV::UnexpectedToken { at: l.at, within: Some(l.within) }),
        None => if pos < s.len() {
            Err(CtorErrorV::UnexpectedToken { at: origin_at(s, pos, Origin::CallSite), within: None })
        } else {
            Ok(())
        },
    }
}

/// Whether an accepted identifier stands at position `p`.
pub fn peek_ident(s: &Vec<Tok>, p: usize) -> (r: bool)
    ensures
        r == spec_peek_ident(tv(s), p as int),
{
    if p < s.len() {
        match &s[p] {
            Tok::Ident { text, .. } => parses_as_ident(text.as_str()),
            _ => false,
        }
    } else {
        false
    }
}

/// Whether the identifier `kw` stands at position `p`.
pub fn ident_at(s: &Vec<Tok>, p: usize, kw: &str) -> (r: bool)
    ensures
        r == at_ident(tv(s), p as int, kw@),
{
    p < s.len() && s[p].is_ident(kw)
}

/// Whether the punctuation character `c` stands at position `p`.
pub fn punct_at(s: &Vec<Tok>, p: usize, c: char) -> (r: bool)
    ensures
        r == at_punct(tv(s), p as int, c),
{
    p < s.len() && s[p].is_punct(c)
}

/// Whether a group with delimiter `d` opens at position `p`.
pub fn open_at(s: &Vec<Tok>, p: usize, d: Delim) -> (r: bool)
    ensures
        r == at_open(tv(s), p as int, d),
{
    if p < s.len() {
        match &s[p] {
            Tok::Open { delim, .. } => *delim == d,
            _ => false,
        }
    } else {
        false
    }
}

/// Whether a group of any delimiter opens at position `p`.
pub fn any_open_at(s: &Vec<Tok>, p: usize) -> (r: bool)
    ensures
        r == at_any_open(tv(s), p as int),
{
    if p < s.len() {
        match &s[p] {
            Tok::Open { .. } => true,
            _ => false,
        }
    } else {
        false
    }
}

/// The name carried by the identifier at position `p`.
pub fn name_at(s: &Vec<Tok>, p: usize) -> (r: Name)
    requires
        p < s.len(),
    ensures
        r@ == name_of(tv(s)[p as int]),
{
    match &s[p] {
        Tok::Ident { text, span } => Name { text: text.clone(), span: *span },
        Tok::Punct { span, .. } => Name { text: String::new(), span: *span },
        Tok::Literal { span, .. } => Name { text: String::new(), span: *span },
        Tok::Open { span, .. } => Name { text: String::new(), span: *span },
        Tok::Close { span, .. } => Name { text: String::new(), span: *span },
    }
}

/// The number of tokens that a visibility takes at position `p`.
pub fn vis_len(s: &Vec<Tok>, p: usize) -> (r: usize)
    requires
        p <= s.len(),
    ensures
        r as int == spec_vis_len(tv(s), p as int),
        p + r <= s.len(),
{
    if ident_at(s, p, "pub") {
        if open_at(s, p + 1, Delim::Paren) {
            let e = find_tree_end(s, p + 1);
            let text = render_range(s, p, e);
            if parses_as_visibility(&text) {
                return e - p;
            }
        }
        1
    } else {
        0
    }
}

/// The length of the longest start of the contents of the group after the
/// `pub` at `p` that makes `pub (...)` one visibility.
fn vis_prefix(s: &Vec<Tok>, p: usize) -> (r: usize)
    requires
        p + 1 < s.len(),
        at_open(tv(s), p as int + 1, Delim::Paren),
    ensures
        r as int == vis_prefix_len(tv(s), p as int, group_contents(tv(s), p + 1).len() as int),
{
    let ghost sv = tv(s);
    let close = find_group_close(s, p + 1);
    let ghost c = group_contents(sv, p + 1);
    proof {
        assert(c == sv.subrange(p + 2, close as int));
    }
    let mut k: usize = close - (p + 2);
    while k > 0
        invariant
            sv == tv(s),
            p + 2 + k <= close <= s.len(),
            c == sv.subrange(p + 2, close as int),
            c == group_contents(sv, p + 1),
            vis_prefix_len(sv, p as int, c.len() as int) == vis_prefix_len(sv, p as int, k as int),
        decreases k,
    {
        let mut cand: Vec<Tok> = Vec::new();
        push_tok(&mut cand, s[p].copy());
        push_tok(&mut cand, s[p + 1].copy());
        let middle = copy_range(s, p + 2, p + 2 + k);
        extend_toks(&mut cand, &middle);
        push_tok(&mut cand, Tok::Close { delim: Delim::Paren, span: s[p + 1].origin() });
        proof {
            assert(c.subrange(0, k as int) =~= sv.subrange(p + 2, p + 2 + k));
            assert(tv(&cand) =~= vis_candidate(sv, p as int, k as int));
            assert(tv(&cand).subrange(0, cand.len() as int) =~= tv(&cand));
        }
        let text = render_range(&cand, 0, cand.len());
        if parses_as_visibility(&text) {
            return k;
        }
        k = k - 1;
    }
    0
}

/// The visibility at `p`: how many tokens it takes and the left-over token
/// recorded so far.
pub fn vis(s: &Vec<Tok>, p: usize, pending: Option<Leftover>, end: Origin) -> (r: Result<
    (usize, Option<Leftover>),
    CtorError,
>)
    requires
        p <= s.len(),
    ensures
        match r {
            Ok((n, pd)) => spec_vis(tv(s), p as int, pending, end) == Ok::<
                (int, Option<Leftover>),
                CtorErrorV,
            >((n as int, pd)) && p + n <= s.len(),
            Err(e) => spec_vis(tv(s), p as int, pending, end) == Err::<
                (int, Option<Leftover>),
                CtorErrorV,
            >(e@),
        },
{
    let ghost sv = tv(s);
    if ident_at(s, p, "pub") && open_at(s, p + 1, Delim::Paren) && p + 2 < s.len()
        && s[p + 2].is_ident("in") {
        let close = find_group_close(s, p + 1);
        let np = find_tree_end(s, p + 1);
        proof {
            let c = group_contents(sv, p + 1);
            assert(c == sv.subrange(p + 2, close as int));
            assert(at_ident(c, 0, "in"@) == (p + 2 < close && is_ident_named(sv[p + 2], "in"@)));
        }
        if p + 2 < close {
            let k = vis_prefix(s, p);
            if k > 0 {
                let pd = record_leftover(pending, s, p + 2, close, k, Delim::Paren);
                return Ok((np - p, pd));
            } else {
                return Err(
                    CtorError::Expected { what: Expected::Ident, at: origin_at_exec(s, p + 3, end) },
                );
            }
        }
    }
    proof {
        let c = group_contents(sv, p + 1);
        if at_ident(sv, p as int, "pub"@) && at_open(sv, p + 1, Delim::Paren) {
            let close = group_close(sv, p + 1);
            lemma_group_close_bounds(sv, p + 1);
            assert(c == sv.subrange(p + 2, close));
            if c.len() > 0 {
                assert(c[0] == sv[p + 2]);
            }
        }
    }
    let n = vis_len(s, p);
    Ok((n, pending))
}

/// Records the first left-over token of the contents `s[lo..hi]`, where
/// parsing stopped at `lo + k`.
pub fn record_leftover(
    pending: Option<Leftover>,
    s: &Vec<Tok>,
    lo: usize,
    hi: usize,
    k: usize,
    d: Delim,
) -> (r: Option<Leftover>)
    requires
        lo <= hi <= s.len(),
    ensures
        r == leftover(pending, tv(s).subrange(lo as int, hi as int), k as int, d),
{
    if pending.is_none() && k < hi - lo {
        Some(Leftover { at: s[lo + k].origin(), within: d })
    } else {
        pending
    }
}

/// The delimiter of the group that opens at `p`.
pub fn open_delim_at(s: &Vec<Tok>, p: usize) -> (r: Delim)
    requires
        at_any_open(tv(s), p as int),
    ensures
        r == open_delim(tv(s)[p as int]),
{
    match &s[p] {
        Tok::Open { delim, .. } => *delim,
        _ => Delim::Paren,
    }
}

/// Ends the parse of a whole argument list.
pub fn finish(s: &Vec<Tok>, pos: usize, pending: Option<Leftover>) -> (r: Result<(), CtorError>)
    ensures
        match r {
            Ok(()) => spec_finish(tv(s), pos as int, pending) == Ok::<(), CtorErrorV>(()),
            Err(e) => spec_finish(tv(s), pos as int, pending) == Err::<(), CtorErrorV>(e@),
        },
{
    match pending {
        Some(l) => Err(CtorError::UnexpectedToken { at: l.at, within: Some(l.within) }),
        None => if pos < s.len() {
            Err(CtorError::UnexpectedToken { at: s[pos].origin(), within: None })
        } else {
            Ok(())
        },
    }
}

} // verus!
