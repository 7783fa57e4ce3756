//! A flat model of a token stream: identifiers, punctuation and literals,
//! with each delimited group written as an opening marker, its contents and
//! a closing marker.
use vstd::prelude::*;

verus! {

/// The three visible delimiters of a token group.
#[derive(Clone, Copy, Debug, PartialEq, Eq, Structural)]
pub enum Delim {
    Paren,
    Bracket,
    Brace,
}

/// Where a token or an error points: the macro call site, the mixed-site
/// hygiene context, or the input token (or field) with the given number.
#[derive(Clone, Copy, Debug, PartialEq, Eq, Structural)]
pub enum Origin {
    CallSite,
    MixedSite,
    Input(usize),
}

/// One entry of a flat token stream.
#[derive(Debug, PartialEq, Eq)]
pub enum Tok {
    Ident { text: String, span: Origin },
    Punct { ch: char, joint: bool, span: Origin },
    Literal { text: String, span: Origin },
    Open { delim: Delim, span: Origin },
    Close { delim: Delim, span: Origin },
}

/// The mathematical value of a [`Tok`].
pub enum TokV {
    Ident(Seq<char>, Origin),
    Punct(char, bool, Origin),
    Literal(Seq<char>, Origin),
    Open(Delim, Origin),
    Close(Delim, Origin),
}

impl View for Tok {
    type V = TokV;

    open spec fn view(&self) -> TokV {
        match self {
            Tok::Ident { text, span } => TokV::Ident(text@, *span),
            Tok::Punct { ch, joint, span } => TokV::Punct(*ch, *joint, *span),
            Tok::Literal { text, span } => TokV::Literal(text@, *span),
            Tok::Open { delim, span } => TokV::Open(*delim, *span),
            Tok::Close { delim, span } => TokV::Close(*delim, *span),
        }
    }
}

impl DeepView for Tok {
    type V = TokV;

    open spec fn deep_view(&self) -> TokV {
        self@
    }
}

/// The value of a token vector.
pub open spec fn tv(v: &Vec<Tok>) -> Seq<TokV> {
    tvs(v@)
}

/// The value of a sequence of tokens.
pub open spec fn tvs(s: Seq<Tok>) -> Seq<TokV> {
    s.map_values(|t: Tok| t@)
}

/// Appending a token appends its value.
pub proof fn lemma_tvs_push(s: Seq<Tok>, t: Tok)
    ensures
        tvs(s.push(t)) == tvs(s).push(t@),
{
    assert(tvs(s.push(t)) =~= tvs(s).push(t@));
}

/// The token is the identifier `name`.
pub open spec fn is_ident_named(t: TokV, name: Seq<char>) -> bool {
    t matches TokV::Ident(text, _) && text == name
}

/// The token is the punctuation character `c`.
pub open spec fn is_punct_char(t: TokV, c: char) -> bool {
    t matches TokV::Punct(ch, _, _) && ch == c
}

/// Where the token points.
pub open spec fn origin_of(t: TokV) -> Origin {
    match t {
        TokV::Ident(_, o) => o,
        TokV::Punct(_, _, o) => o,
        TokV::Literal(_, o) => o,
        TokV::Open(_, o) => o,
        TokV::Close(_, o) => o,
    }
}

/// Where an error at position `i` points: the token there, or `end` past
/// the last token.
pub open spec fn origin_at(s: Seq<TokV>, i: int, end: Origin) -> Origin {
    if 0 <= i < s.len() {
        origin_of(s[i])
    } else {
        end
    }
}

/// The index of the marker that closes the group whose contents start at
/// `j` with `depth` groups still open inside it; the length of `s` when the
/// group is never closed.
pub open spec fn close_from(s: Seq<TokV>, j: int, depth: nat) -> int
    decreases s.len() - j,
{
    if j < 0 || j >= s.len() {
        s.len() as int
    } else {
        match s[j] {
            TokV::Open(_, _) => close_from(s, j + 1, depth + 1),
            TokV::Close(_, _) => if depth == 0 {
                j
            } else {
                close_from(s, j + 1, (depth - 1) as nat)
            },
            _ => close_from(s, j + 1, depth),
        }
    }
}

/// The index of the marker that closes the group opened at `i`.
pub open spec fn group_close(s: Seq<TokV>, i: int) -> int {
    close_from(s, i + 1, 0)
}

/// The contents of the group opened at `i`.
pub open spec fn group_contents(s: Seq<TokV>, i: int) -> Seq<TokV> {
    s.subrange(i + 1, group_close(s, i))
}

/// The index just past the token tree that starts at `i`: past the closing
/// marker of a group, or past a single token.
pub open spec fn tree_end(s: Seq<TokV>, i: int) -> int {
    if s[i] is Open {
        let c = group_close(s, i);
        if c < s.len() {
            c + 1
        } else {
            s.len() as int
        }
    } else {
        i + 1
    }
}

/// The closing marker found from `j` on lies at or after `j`, and at most
/// at the end.
pub proof fn lemma_close_from_bounds(s: Seq<TokV>, j: int, depth: nat)
    requires
        0 <= j,
    ensures
        j <= close_from(s, j, depth) <= s.len() || (j > s.len() && close_from(s, j, depth)
            == s.len()),
    decreases s.len() - j,
{
    if j < s.len() {
        match s[j] {
            TokV::Open(_, _) => lemma_close_from_bounds(s, j + 1, depth + 1),
            TokV::Close(_, _) => if depth != 0 {
                lemma_close_from_bounds(s, j + 1, (depth - 1) as nat)
            },
            _ => lemma_close_from_bounds(s, j + 1, depth),
        }
    }
}

/// A group's closing marker lies after its opening one.
pub proof fn lemma_group_close_bounds(s: Seq<TokV>, i: int)
    requires
        0 <= i < s.len(),
    ensures
        i + 1 <= group_close(s, i) <= s.len(),
{
    lemma_close_from_bounds(s, i + 1, 0);
}

/// A token tree takes at least one token.
pub proof fn lemma_tree_end_bounds(s: Seq<TokV>, i: int)
    requires
        0 <= i < s.len(),
    ensures
        i < tree_end(s, i) <= s.len(),
{
    lemma_group_close_bounds(s, i);
}

/// The opening character of a delimiter.
pub open spec fn open_char(d: Delim) -> char {
    match d {
        Delim::Paren => '(',
        Delim::Bracket => '[',
        Delim::Brace => '{',
    }
}

/// The closing character of a delimiter.
pub open spec fn close_char(d: Delim) -> char {
    match d {
        Delim::Paren => ')',
        Delim::Bracket => ']',
        Delim::Brace => '}',
    }
}

/// The source text of one token.
pub open spec fn tok_chars(t: TokV) -> Seq<char> {
    match t {
        TokV::Ident(x, _) => x,
        TokV::Punct(c, _, _) => seq![c],
        TokV::Literal(x, _) => x,
        TokV::Open(d, _) => seq![open_char(d)],
        TokV::Close(d, _) => seq![close_char(d)],
    }
}

/// The separator written before token `k`: nothing at the start and after
/// a joint punctuation character, a space otherwise.
pub open spec fn gap_before(s: Seq<TokV>, k: int) -> Seq<char> {
    if k <= 0 {
        seq![]
    } else if s[k - 1] matches TokV::Punct(_, true, _) {
        seq![]
    } else {
        seq![' ']
    }
}

/// The source text of the first `n` tokens of `s`.
pub open spec fn render_upto(s: Seq<TokV>, n: int) -> Seq<char>
    decreases n,
{
    if n <= 0 {
        seq![]
    } else {
        render_upto(s, n - 1) + gap_before(s, n - 1) + tok_chars(s[n - 1])
    }
}

/// The source text of a token sequence, which lexes back to the same
/// tokens.
pub open spec fn render(s: Seq<TokV>) -> Seq<char> {
    render_upto(s, s.len() as int)
}

/// Some token tree at the top level of `s`, from position `i` on, is the
/// identifier `PhantomData`.
pub open spec fn phantom_from(s: Seq<TokV>, i: int) -> bool
    decreases s.len() - i,
{
    if i < 0 || i >= s.len() {
        false
    } else if is_ident_named(s[i], "PhantomData"@) {
        true
    } else {
        proof {
            lemma_tree_end_bounds(s, i);
        }
        phantom_from(s, tree_end(s, i))
    }
}

/// A type's tokens mention `PhantomData` as one of their top-level token
/// trees.
pub open spec fn spec_is_phantom(ty: Seq<TokV>) -> bool {
    phantom_from(ty, 0)
}

impl Tok {
    /// A copy of the token.
    pub fn copy(&self) -> (r: Tok)
        ensures
            r@ == self@,
    {
        match self {
            Tok::Ident { text, span } => Tok::Ident { text: text.clone(), span: *span },
            Tok::Punct { ch, joint, span } => Tok::Punct { ch: *ch, joint: *joint, span: *span },
            Tok::Literal { text, span } => Tok::Literal { text: text.clone(), span: *span },
            Tok::Open { delim, span } => Tok::Open { delim: *delim, span: *span },
            Tok::Close { delim, span } => Tok::Close { delim: *delim, span: *span },
        }
    }

    /// Where the token points.
    pub fn origin(&self) -> (r: Origin)
        ensures
            r == origin_of(self@),
    {
        match self {
            Tok::Ident { span, .. } => *span,
            Tok::Punct { span, .. } => *span,
            Tok::Literal { span, .. } => *span,
            Tok::Open { span, .. } => *span,
            Tok::Close { span, .. } => *span,
        }
    }

    /// Whether the token is the punctuation character `c`.
    pub fn is_punct(&self, c: char) -> (r: bool)
        ensures
            r == is_punct_char(self@, c),
    {
        match self {
            Tok::Punct { ch, .. } => *ch == c,
            _ => false,
        }
    }

    /// Whether the token is the identifier `name`.
    pub fn is_ident(&self, name: &str) -> (r: bool)
        ensures
            r == is_ident_named(self@, name@),
    {
        match self {
            Tok::Ident { text, .. } => {
                let other = String::from_str(name);
                *text == other
            },
            _ => false,
        }
    }
}

/// An identifier token with the given text, pointing at `span`.
pub fn ident_tok(text: &str, span: Origin) -> (r: Tok)
    ensures
        r@ == TokV::Ident(text@, span),
{
    Tok::Ident { text: String::from_str(text), span }
}

/// A punctuation token at the call site.
pub fn punct_tok(ch: char, joint: bool) -> (r: Tok)
    ensures
        r@ == TokV::Punct(ch, joint, Origin::CallSite),
{
    Tok::Punct { ch, joint, span: Origin::CallSite }
}

/// Where an error at position `i` points.
pub fn origin_at_exec(s: &Vec<Tok>, i: usize, end: Origin) -> (r: Origin)
    ensures
        r == origin_at(tv(s), i as int, end),
{
    if i < s.len() {
        s[i].origin()
    } else {
        end
    }
}

/// The index of the marker that closes the group opened at `i`.
pub fn find_group_close(s: &Vec<Tok>, i: usize) -> (c: usize)
    requires
        i < s.len(),
    ensures
        c as int == group_close(tv(s), i as int),
        i < c <= s.len(),
{
    let ghost sv = tv(s);
    proof {
        lemma_group_close_bounds(sv, i as int);
    }
    let mut j: usize = i + 1;
    let mut depth: usize = 0;
    while j < s.len()
        invariant
            sv == tv(s),
            i < j <= s.len(),
            depth <= j,
            close_from(sv, i as int + 1, 0) == close_from(sv, j as int, depth as nat),
        decreases s.len() - j,
    {
        match &s[j] {
            Tok::Open { .. } => {
                depth = depth + 1;
            },
            Tok::Close { .. } => {
                if depth == 0 {
                    return j;
                }
                depth = depth - 1;
            },
            _ => {},
        }
        j = j + 1;
    }
    j
}

/// The index just past the token tree that starts at `i`.
pub fn find_tree_end(s: &Vec<Tok>, i: usize) -> (e: usize)
    requires
        i < s.len(),
    ensures
        e as int == tree_end(tv(s), i as int),
        i < e <= s.len(),
{
    match &s[i] {
        Tok::Open { .. } => {
            let c = find_group_close(s, i);
            if c < s.len() {
                c + 1
            } else {
                c
            }
        },
        _ => i + 1,
    }
}

/// A copy of the tokens from `lo` up to `hi`.
pub fn copy_range(s: &Vec<Tok>, lo: usize, hi: usize) -> (r: Vec<Tok>)
    requires
        lo <= hi <= s.len(),
    ensures
        tv(&r) == tv(s).subrange(lo as int, hi as int),
{
    let mut r: Vec<Tok> = Vec::new();
    let mut k: usize = lo;
    while k < hi
        invariant
            lo <= k <= hi <= s.len(),
            tv(&r) == tv(s).subrange(lo as int, k as int),
        decreases hi - k,
    {
        let t = s[k].copy();
        let ghost prev = r@;
        r.push(t);
        proof {
            assert(r@ == prev.push(t));
            lemma_tvs_push(prev, t);
            assert(tv(&r) =~= tv(s).subrange(lo as int, k + 1));
        }
        k = k + 1;
    }
    r
}

/// A copy of the contents of the group opened at `i`.
pub fn copy_contents(s: &Vec<Tok>, i: usize) -> (r: Vec<Tok>)
    requires
        i < s.len(),
    ensures
        tv(&r) == group_contents(tv(s), i as int),
{
    let c = find_group_close(s, i);
    copy_range(s, i + 1, c)
}

/// Appends one token.
pub fn push_tok(to: &mut Vec<Tok>, t: Tok)
    ensures
        tv(final(to)) == tv(old(to)).push(t@),
{
    let ghost prev = to@;
    let ghost tval = t;
    to.push(t);
    proof {
        lemma_tvs_push(prev, tval);
    }
}

/// Appends copies of all tokens of `from` to `to`.
pub fn extend_toks(to: &mut Vec<Tok>, from: &Vec<Tok>)
    ensures
        tv(final(to)) == tv(old(to)) + tv(from),
{
    let ghost start = tv(to);
    let mut k: usize = 0;
    while k < from.len()
        invariant
            k <= from.len(),
            tv(to) == start + tv(from).subrange(0, k as int),
        decreases from.len() - k,
    {
        let t = from[k].copy();
        let ghost prev = to@;
        to.push(t);
        proof {
            assert(to@ == prev.push(t));
            lemma_tvs_push(prev, t);
            assert(tv(to) =~= start + tv(from).subrange(0, k + 1));
        }
        k = k + 1;
    }
    proof {
        assert(tv(from).subrange(0, from.len() as int) =~= tv(from));
    }
}

/// Appends the characters of `text` to `out`.
fn push_chars(out: &mut Vec<char>, text: &str)
    ensures
        final(out)@ == old(out)@ + text@,
{
    let n = text.unicode_len();
    let ghost start = out@;
    let mut k: usize = 0;
    while k < n
        invariant
            n == text@.len(),
            k <= n,
            out@ == start + text@.subrange(0, k as int),
        decreases n - k,
    {
        out.push(text.get_char(k));
        proof {
            assert(out@ =~= start + text@.subrange(0, k + 1));
        }
        k = k + 1;
    }
    proof {
        assert(text@.subrange(0, n as int) =~= text@);
    }
}

/// The opening character of a delimiter.
pub fn open_char_exec(d: Delim) -> (c: char)
    ensures
        c == open_char(d),
{
    match d {
        Delim::Paren => '(',
        Delim::Bracket => '[',
        Delim::Brace => '{',
    }
}

/// The closing character of a delimiter.
pub fn close_char_exec(d: Delim) -> (c: char)
    ensures
        c == close_char(d),
{
    match d {
        Delim::Paren => ')',
        Delim::Bracket => ']',
        Delim::Brace => '}',
    }
}

/// The source text of the tokens from `lo` up to `hi`.
pub fn render_range(s: &Vec<Tok>, lo: usize, hi: usize) -> (r: Vec<char>)
    requires
        lo <= hi <= s.len(),
    ensures
        r@ == render(tv(s).subrange(lo as int, hi as int)),
{
    let ghost sub = tv(s).subrange(lo as int, hi as int);
    let mut out: Vec<char> = Vec::new();
    let mut k: usize = lo;
    while k < hi
        invariant
            lo <= k <= hi <= s.len(),
            sub == tv(s).subrange(lo as int, hi as int),
            out@ == render_upto(sub, k - lo),
        decreases hi - k,
    {
        if k > lo {
            match &s[k - 1] {
                Tok::Punct { joint, .. } => {
                    if !*joint {
                        out.push(' ');
                    }
                },
                _ => {
                    out.push(' ');
                },
            }
        }
        match &s[k] {
            Tok::Ident { text, .. } => push_chars(&mut out, text.as_str()),
            Tok::Punct { ch, .. } => out.push(*ch),
            Tok::Literal { text, .. } => push_chars(&mut out, text.as_str()),
            Tok::Open { delim, .. } => out.push(open_char_exec(*delim)),
            Tok::Close { delim, .. } => out.push(close_char_exec(*delim)),
        }
        proof {
            assert(sub[k - lo] == tv(s)[k as int]);
            assert(k > lo ==> sub[k - lo - 1] == tv(s)[k - 1]);
            assert(out@ =~= render_upto(sub, k + 1 - lo));
        }
        k = k + 1;
    }
    out
}

/// Whether one of the top-level token trees of a type is the identifier
/// `PhantomData`.
pub fn is_phantom(ty: &Vec<Tok>) -> (r: bool)
    ensures
        r == spec_is_phantom(tv(ty)),
{
    let mut i: usize = 0;
    while i < ty.len()
        invariant
            i <= ty.len(),
            spec_is_phantom(tv(ty)) == phantom_from(tv(ty), i as int),
        decreases ty.len() - i,
    {
        if ty[i].is_ident("PhantomData") {
            return true;
        }
        i = find_tree_end(ty, i);
    }
    false
}

} // verus!
