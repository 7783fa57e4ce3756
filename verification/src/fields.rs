//! The configuration of one field: `#[ctor(PROPERTY [= CONSTRUCTORS])]` or
//! a bare `#[PROPERTY]`.
use vstd::prelude::*;
use crate::attrs::{
    attrs_view, ctor_args, is_ctor, is_ctor_attr, spec_ctor_args,
};
use crate::error::{expected_err, CtorError, CtorErrorV, Expected, PropertyGroup};
use crate::outside::{lit_int_text_ok, lit_int_value, parse_lit_int, parses_as_type, type_text_ok};
use crate::syntax::{
    any_open_at, at_any_open, at_open, at_punct, finish, ident_text, leftover, open_at,
    peek_ident, punct_at, record_leftover, spec_finish, spec_peek_ident, Leftover,
};
use crate::tokens::{
    copy_contents, copy_range, find_group_close, find_tree_end, group_contents,
    origin_at, origin_at_exec, origin_of, render, render_range,
    tree_end, tv, Delim, Origin, Tok, TokV,
};

verus! {

/// How a field gets its value.
#[derive(Debug, PartialEq, Eq)]
pub enum FieldProperty {
    /// From a reference argument, cloned.
    Cloned,
    /// From `Default::default()`.
    Default,
    /// From an `impl Into<T>` argument.
    Into,
    /// Collected from an `impl IntoIterator<Item = iter_type>` argument.
    Iter { iter_type: Vec<Tok> },
    /// From an expression, optionally over an argument of `input_type`
    /// (`expr(TYPE -> EXPR)`), or over an argument of the field's own type
    /// (`expr!(EXPR)`).
    Expression { expression: Vec<Tok>, input_type: Option<Vec<Tok>>, self_referencing: bool },
}

/// The value of a [`FieldProperty`].
pub enum FieldPropertyV {
    Cloned,
    Default,
    Into,
    Iter { iter_type: Seq<TokV> },
    Expression {
        expression: Seq<TokV>,
        input_type: Option<Seq<TokV>>,
        self_referencing: bool,
    },
}

impl View for FieldProperty {
    type V = FieldPropertyV;

    open spec fn view(&self) -> FieldPropertyV {
        match self {
            FieldProperty::Cloned => FieldPropertyV::Cloned,
            FieldProperty::Default => FieldPropertyV::Default,
            FieldProperty::Into => FieldPropertyV::Into,
            FieldProperty::Iter { iter_type } => FieldPropertyV::Iter { iter_type: tv(iter_type) },
            FieldProperty::Expression { expression, input_type, self_referencing } => {
                FieldPropertyV::Expression {
                    expression: tv(expression),
                    input_type: match input_type {
                        Some(t) => Some(tv(t)),
                        None => None,
                    },
                    self_referencing: *self_referencing,
                }
            },
        }
    }
}

/// The property produces the field's value without an argument of the
/// field's own.
pub open spec fn spec_is_generated(p: FieldPropertyV) -> bool {
    match p {
        FieldPropertyV::Cloned => false,
        FieldPropertyV::Default => true,
        FieldPropertyV::Into => false,
        FieldPropertyV::Iter { .. } => false,
        FieldPropertyV::Expression { self_referencing, .. } => !self_referencing,
    }
}

impl FieldProperty {
    /// A copy of the property.
    pub fn copy(&self) -> (r: FieldProperty)
        ensures
            r@ == self@,
    {
        match self {
            FieldProperty::Cloned => FieldProperty::Cloned,
            FieldProperty::Default => FieldProperty::Default,
            FieldProperty::Into => FieldProperty::Into,
            FieldProperty::Iter { iter_type } => {
                let t = copy_range(iter_type, 0, iter_type.len());
                proof {
                    assert(tv(iter_type).subrange(0, iter_type.len() as int) =~= tv(iter_type));
                }
                FieldProperty::Iter { iter_type: t }
            },
            FieldProperty::Expression { expression, input_type, self_referencing } => {
                let e = copy_range(expression, 0, expression.len());
                let t = match input_type {
                    Some(t) => Some(copy_range(t, 0, t.len())),
                    None => None,
                };
                proof {
                    assert(tv(expression).subrange(0, expression.len() as int) =~= tv(expression));
                    match input_type {
                        Some(x) => {
                            assert(tv(x).subrange(0, x.len() as int) =~= tv(x));
                        },
                        None => {},
                    }
                }
                FieldProperty::Expression {
                    expression: e,
                    input_type: t,
                    self_referencing: *self_referencing,
                }
            },
        }
    }

    /// Whether the property produces the field's value without an argument
    /// of the field's own.
    pub fn is_generated(&self) -> (r: bool)
        ensures
            r == spec_is_generated(self@),
    {
        match self {
            FieldProperty::Cloned => false,
            FieldProperty::Default => true,
            FieldProperty::Into => false,
            FieldProperty::Iter { .. } => false,
            FieldProperty::Expression { self_referencing, .. } => !*self_referencing,
        }
    }
}

/// The property of a field and the constructors (by index, sorted and
/// without repeats) it applies to; no index means every constructor.
pub struct FieldConfig {
    pub property: FieldProperty,
    pub applications: Vec<usize>,
}

/// The value of a [`FieldConfig`].
pub struct FieldConfigV {
    pub property: FieldPropertyV,
    pub applications: Seq<usize>,
}

impl View for FieldConfig {
    type V = FieldConfigV;

    open spec fn view(&self) -> FieldConfigV {
        FieldConfigV { property: self.property@, applications: self.applications@ }
    }
}

/// The position after the token tree at `p` when a group stands there; `p`
/// itself otherwise.
pub open spec fn delimited_end(s: Seq<TokV>, p: int) -> int {
    if at_any_open(s, p) {
        tree_end(s, p)
    } else {
        p
    }
}

/// A group with delimiter `d` at `p`: its contents and the position after
/// it; a group of another delimiter, or no group, is an error.
pub open spec fn spec_consume_delimited(s: Seq<TokV>, p: int, d: Delim, end: Origin) -> Result<
    (Seq<TokV>, int),
    CtorErrorV,
> {
    if !at_any_open(s, p) {
        Err(expected_err(Expected::Group, origin_at(s, p, end)))
    } else if !at_open(s, p, d) {
        Err(CtorErrorV::EnclosingDelimiter { expected: d, at: origin_of(s[p]) })
    } else {
        Ok((group_contents(s, p), tree_end(s, p)))
    }
}

/// The number of tokens of the first token tree of `c`, where a lifetime
/// (a joint `'` and an identifier) counts as one tree.
pub open spec fn first_tree_len(c: Seq<TokV>) -> int {
    if c.len() >= 2 && (c[0] matches TokV::Punct(ch, true, _) && ch == '\'') && c[1] is Ident {
        2
    } else if c.len() >= 1 {
        tree_end(c, 0)
    } else {
        0
    }
}

/// The second token tree of `c` is the arrow `->`.
pub open spec fn spec_peek2_arrow(c: Seq<TokV>) -> bool {
    let k = first_tree_len(c);
    c.len() >= 1 && 0 <= k && k + 1 < c.len() && (c[k] matches TokV::Punct(ch, true, _) && ch
        == '-') && at_punct(c, k + 1, '>')
}

/// The contents of `expr(...)`: `TYPE -> EXPR` when an arrow follows the
/// first token tree (which must then read as a type), else all of it as
/// the expression.
pub open spec fn spec_expr_contents(c: Seq<TokV>, self_referencing: bool, group: Origin) -> Result<
    FieldPropertyV,
    CtorErrorV,
> {
    if spec_peek2_arrow(c) {
        let k = first_tree_len(c);
        if type_text_ok(render(c.subrange(0, k))) {
            Ok(
                FieldPropertyV::Expression {
                    expression: c.subrange(k + 2, c.len() as int),
                    input_type: Some(c.subrange(0, k)),
                    self_referencing,
                },
            )
        } else {
            Err(expected_err(Expected::Type, origin_at(c, 0, group)))
        }
    } else {
        Ok(FieldPropertyV::Expression { expression: c, input_type: None, self_referencing })
    }
}

/// The length of the longest start `c[..k]`, with `0 < k <= n`, that
/// `syn` reads as one type; 0 when no start does.
pub open spec fn type_prefix_len(c: Seq<TokV>, n: int) -> int
    decreases n,
{
    if n <= 0 {
        0
    } else if type_text_ok(render(c.subrange(0, n))) {
        n
    } else {
        type_prefix_len(c, n - 1)
    }
}

/// A field property at `pos`: `cloned`, `default`, `into`, `iter(TYPE)` or
/// `expr[!](...)`; the property, the position after it, and the left-over
/// token it records: what follows the type inside `iter(...)`.
pub open spec fn spec_parse_property(s: Seq<TokV>, pos: int, end: Origin) -> Result<
    (FieldPropertyV, int, Option<Leftover>),
    CtorErrorV,
> {
    if !spec_peek_ident(s, pos) {
        Err(expected_err(Expected::Ident, origin_at(s, pos, end)))
    } else {
        let name = ident_text(s[pos]);
        let p = pos + 1;
        if name == "cloned"@ {
            Ok((FieldPropertyV::Cloned, p, None))
        } else if name == "default"@ {
            Ok((FieldPropertyV::Default, p, None))
        } else if name == "into"@ {
            Ok((FieldPropertyV::Into, p, None))
        } else if name == "iter"@ {
            match spec_consume_delimited(s, p, Delim::Paren, end) {
                Err(e) => Err(e),
                Ok((c, np)) => {
                    let k = type_prefix_len(c, c.len() as int);
                    if k > 0 {
                        Ok(
                            (
                                FieldPropertyV::Iter { iter_type: c.subrange(0, k) },
                                np,
                                leftover(None, c, k, Delim::Paren),
                            ),
                        )
                    } else {
                        Err(expected_err(Expected::Type, origin_at(c, 0, origin_of(s[p]))))
                    }
                },
            }
        } else if name == "expr"@ {
            let bang = at_punct(s, p, '!');
            let p2 = if bang {
                p + 1
            } else {
                p
            };
            match spec_consume_delimited(s, p2, Delim::Paren, end) {
                Err(e) => Err(e),
                Ok((c, np)) => match spec_expr_contents(c, bang, origin_of(s[p2])) {
                    Err(e) => Err(e),
                    Ok(prop) => Ok((prop, np, None)),
                },
            }
        } else {
            Err(
                CtorErrorV::UnknownProperty {
                    property: name,
                    group: PropertyGroup::Field,
                    at: origin_of(s[pos]),
                },
            )
        }
    }
}

/// The text of an integer literal at `p` and the position after it: a
/// literal token, or a minus sign and the literal token after it.
pub open spec fn lit_text_at(s: Seq<TokV>, p: int) -> Option<(Seq<char>, int)> {
    if 0 <= p < s.len() && s[p] is Literal {
        Some((s[p]->Literal_0, p + 1))
    } else if at_punct(s, p, '-') && p + 1 < s.len() && s[p + 1] is Literal {
        Some(("-"@ + s[p + 1]->Literal_0, p + 2))
    } else {
        None
    }
}

/// An integer literal at `p`: its value and the position after it. Text
/// that is no integer literal is one error; an integer literal whose value
/// is no `usize` is another, at the literal.
pub open spec fn spec_lit_at(s: Seq<TokV>, p: int, end: Origin) -> Result<(usize, int), CtorErrorV> {
    match lit_text_at(s, p) {
        Some((t, np)) => if lit_int_text_ok(t) {
            match lit_int_value(t) {
                Some(n) => Ok((n, np)),
                None => Err(CtorErrorV::LiteralValue { literal: t, at: origin_of(s[p]) }),
            }
        } else {
            Err(expected_err(Expected::IntLiteral, origin_at(s, p, end)))
        },
        None => Err(expected_err(Expected::IntLiteral, origin_at(s, p, end))),
    }
}

/// The sequence is strictly increasing: sorted, and no value twice.
pub open spec fn strictly_increasing(s: Seq<usize>) -> bool {
    forall|i: int, j: int| 0 <= i < j < s.len() ==> s[i] < s[j]
}

/// `s` with `n` put in its place: before the first greater value, unless
/// `s` holds `n` already.
pub open spec fn sorted_insert(s: Seq<usize>, n: usize) -> Seq<usize>
    decreases s.len(),
{
    if s.len() == 0 {
        seq![n]
    } else if n < s[0] {
        seq![n] + s
    } else if n == s[0] {
        s
    } else {
        seq![s[0]] + sorted_insert(s.drop_first(), n)
    }
}

/// A comma-separated list of integer literals from `k` on, after the
/// constructor indices `acc`: the indices, kept sorted and without
/// repeats, and the position where the list stopped.
pub open spec fn spec_lit_list(c: Seq<TokV>, k: int, acc: Seq<usize>, end: Origin) -> Result<
    (Seq<usize>, int),
    CtorErrorV,
>
    decreases c.len() - k,
{
    match spec_lit_at(c, k, end) {
        Err(e) => Err(e),
        Ok((n, np)) => if at_punct(c, np, ',') && k < np {
            spec_lit_list(c, np + 1, sorted_insert(acc, n), end)
        } else {
            Ok((sorted_insert(acc, n), np))
        },
    }
}

/// A field configuration: a property, then optionally `=` and either one
/// constructor index or a bracketed list of them; the configuration, where
/// parsing stopped and the recorded left-over token.
pub open spec fn spec_parse_field_config(s: Seq<TokV>, end: Origin) -> Result<
    (FieldConfigV, int, Option<Leftover>),
    CtorErrorV,
> {
    match spec_parse_property(s, 0, end) {
        Err(e) => Err(e),
        Ok((prop, p, pd)) => if !at_punct(s, p, '=') {
            Ok((FieldConfigV { property: prop, applications: seq![] }, p, pd))
        } else {
            let p1 = p + 1;
            if at_any_open(s, p1) {
                if !at_open(s, p1, Delim::Bracket) {
                    Err(CtorErrorV::EnclosingBrackets { at: origin_of(s[p1]) })
                } else {
                    let c = group_contents(s, p1);
                    match spec_lit_list(c, 0, seq![], origin_of(s[p1])) {
                        Err(e) => Err(e),
                        Ok((apps, k)) => Ok(
                            (
                                FieldConfigV { property: prop, applications: apps },
                                tree_end(s, p1),
                                leftover(pd, c, k, Delim::Bracket),
                            ),
                        ),
                    }
                }
            } else {
                match spec_lit_at(s, p1, end) {
                    Err(e) => Err(e),
                    Ok((n, np)) => Ok(
                        (FieldConfigV { property: prop, applications: seq![n] }, np, pd),
                    ),
                }
            }
        },
    }
}

/// Putting a value into a sorted sequence keeps it strictly increasing,
/// and adds that value and no other.
pub proof fn lemma_sorted_insert(s: Seq<usize>, n: usize)
    requires
        strictly_increasing(s),
    ensures
        strictly_increasing(sorted_insert(s, n)),
        forall|x: usize| #[trigger] sorted_insert(s, n).contains(x) <==> (s.contains(x) || x == n),
    decreases s.len(),
{
    let r = sorted_insert(s, n);
    if s.len() == 0 {
        assert(r =~= seq![n]);
        assert forall|x: usize| #[trigger] r.contains(x) <==> (s.contains(x) || x == n) by {
            if r.contains(x) {
                let i = choose|i: int| 0 <= i < r.len() && r[i] == x;
                assert(i == 0);
            }
            if x == n {
                assert(r[0] == x);
            }
        }
    } else if n < s[0] {
        assert forall|i: int, j: int| 0 <= i < j < r.len() implies r[i] < r[j] by {
            if i > 0 {
                assert(r[i] == s[i - 1] && r[j] == s[j - 1]);
            } else {
                assert(r[j] == s[j - 1]);
                assert(s[0] <= s[j - 1]);
            }
        }
        assert forall|x: usize| #[trigger] r.contains(x) <==> (s.contains(x) || x == n) by {
            if r.contains(x) {
                let i = choose|i: int| 0 <= i < r.len() && r[i] == x;
                if i > 0 {
                    assert(s[i - 1] == x);
                }
            }
            if s.contains(x) {
                let i = choose|i: int| 0 <= i < s.len() && s[i] == x;
                assert(r[i + 1] == x);
            }
            if x == n {
                assert(r[0] == x);
            }
        }
    } else if n == s[0] {
        assert forall|x: usize| #[trigger] r.contains(x) <==> (s.contains(x) || x == n) by {
            if x == n {
                assert(s[0] == x);
            }
        }
    } else {
        let t = s.drop_first();
        assert forall|i: int, j: int| 0 <= i < j < t.len() implies t[i] < t[j] by {
            assert(t[i] == s[i + 1] && t[j] == s[j + 1]);
        }
        lemma_sorted_insert(t, n);
        let rt = sorted_insert(t, n);
        assert(r == seq![s[0]] + rt);
        assert forall|i: int, j: int| 0 <= i < j < r.len() implies r[i] < r[j] by {
            if i > 0 {
                assert(r[i] == rt[i - 1] && r[j] == rt[j - 1]);
            } else {
                assert(r[j] == rt[j - 1]);
                assert(rt.contains(rt[j - 1]));
                if t.contains(rt[j - 1]) {
                    let k = choose|k: int| 0 <= k < t.len() && t[k] == rt[j - 1];
                    assert(s[k + 1] == t[k]);
                }
            }
        }
        assert forall|x: usize| #[trigger] r.contains(x) <==> (s.contains(x) || x == n) by {
            if r.contains(x) {
                let i = choose|i: int| 0 <= i < r.len() && r[i] == x;
                if i > 0 {
                    assert(rt[i - 1] == x);
                    assert(rt.contains(x));
                    if t.contains(x) {
                        let k = choose|k: int| 0 <= k < t.len() && t[k] == x;
                        assert(s[k + 1] == x);
                    }
                } else {
                    assert(s[0] == x);
                }
            }
            if s.contains(x) {
                let i = choose|i: int| 0 <= i < s.len() && s[i] == x;
                if i > 0 {
                    assert(t[i - 1] == x);
                    assert(t.contains(x));
                    assert(rt.contains(x));
                    let k = choose|k: int| 0 <= k < rt.len() && rt[k] == x;
                    assert(r[k + 1] == x);
                } else {
                    assert(r[0] == x);
                }
            }
            if x == n {
                assert(rt.contains(x));
                let k = choose|k: int| 0 <= k < rt.len() && rt[k] == x;
                assert(r[k + 1] == x);
            }
        }
    }
}

proof fn lemma_lit_list_increasing(c: Seq<TokV>, k: int, acc: Seq<usize>, end: Origin)
    requires
        strictly_increasing(acc),
    ensures
        spec_lit_list(c, k, acc, end) matches Ok((apps, _)) ==> strictly_increasing(apps),
    decreases c.len() - k,
{
    match spec_lit_at(c, k, end) {
        Err(_) => {},
        Ok((n, np)) => {
            lemma_sorted_insert(acc, n);
            if at_punct(c, np, ',') && k < np {
                lemma_lit_list_increasing(c, np + 1, sorted_insert(acc, n), end);
            }
        },
    }
}

/// The constructor indices of a field configuration are a set: they come
/// sorted, and none of them twice, however the list repeats or orders
/// them.
pub proof fn law_constructor_indices_sorted_without_repeats(s: Seq<TokV>, end: Origin)
    ensures
        spec_parse_field_config(s, end) matches Ok((c, _, _)) ==> strictly_increasing(
            c.applications,
        ),
{
    if spec_parse_field_config(s, end) is Ok {
        match spec_parse_property(s, 0, end) {
            Err(_) => {},
            Ok((prop, p, pd)) => {
                let p1 = p + 1;
                if at_punct(s, p, '=') && at_open(s, p1, Delim::Bracket) {
                    lemma_lit_list_increasing(
                        group_contents(s, p1),
                        0,
                        seq![],
                        origin_of(s[p1]),
                    );
                }
            },
        }
    }
}

/// A bare `#[PROPERTY]` attribute: the tokens in its brackets must be one
/// whole property.
pub open spec fn spec_bare_property(a: Seq<TokV>) -> Option<FieldPropertyV> {
    if at_any_open(a, 1) {
        let st = group_contents(a, 1);
        match spec_parse_property(st, 0, Origin::CallSite) {
            Ok((p, k, pd)) => if k == st.len() && pd is None {
                Some(p)
            } else {
                None
            },
            Err(_) => None,
        }
    } else {
        None
    }
}

/// The configuration that the attributes from index `i` on give a field:
/// the first `ctor` attribute, parsed in full, or the first bare property
/// attribute before it; attributes that are neither are passed over.
pub open spec fn spec_field_attrs_from(attrs: Seq<Seq<TokV>>, i: int) -> Result<
    Option<FieldConfigV>,
    CtorErrorV,
>
    decreases attrs.len() - i,
{
    if i < 0 || i >= attrs.len() {
        Ok(None)
    } else if is_ctor_attr(attrs[i]) {
        match spec_ctor_args(attrs[i]) {
            Err(e) => Err(e),
            Ok((args, end)) => match spec_parse_field_config(args, end) {
                Err(e) => Err(e),
                Ok((cfg, p, pd)) => match spec_finish(args, p, pd) {
                    Err(e) => Err(e),
                    Ok(_) => Ok(Some(cfg)),
                },
            },
        }
    } else if spec_bare_property(attrs[i]) is Some {
        Ok(
            Some(
                FieldConfigV { property: spec_bare_property(attrs[i]).unwrap(), applications: seq![] },
            ),
        )
    } else {
        spec_field_attrs_from(attrs, i + 1)
    }
}

/// The configuration that a field's attributes give it.
pub open spec fn spec_field_attrs(attrs: Seq<Seq<TokV>>) -> Result<
    Option<FieldConfigV>,
    CtorErrorV,
> {
    spec_field_attrs_from(attrs, 0)
}

/// Consumes the token tree at `p`, which must be a group with delimiter
/// `d`: the position after it, whatever the outcome, and the index of the
/// group's closing marker, or the error.
pub fn consume_delimited(s: &Vec<Tok>, p: usize, d: Delim, end: Origin) -> (r: (
    usize,
    Result<usize, CtorError>,
))
    requires
        p <= s.len(),
    ensures
        r.0 as int == delimited_end(tv(s), p as int),
        r.0 <= s.len(),
        match r.1 {
            Ok(close) => spec_consume_delimited(tv(s), p as int, d, end) == Ok::<
                (Seq<TokV>, int),
                CtorErrorV,
            >((tv(s).subrange(p + 1, close as int), r.0 as int)) && p < close <= s.len() && p
                < r.0,
            Err(e) => spec_consume_delimited(tv(s), p as int, d, end) == Err::<
                (Seq<TokV>, int),
                CtorErrorV,
            >(e@),
        },
{
    if !any_open_at(s, p) {
        return (p, Err(CtorError::Expected { what: Expected::Group, at: origin_at_exec(s, p, end) }));
    }
    let np = find_tree_end(s, p);
    if !open_at(s, p, d) {
        return (np, Err(CtorError::EnclosingDelimiter { expected: d, at: s[p].origin() }));
    }
    let close = find_group_close(s, p);
    (np, Ok(close))
}

/// The number of tokens of the first token tree of `c[lo..hi]`.
fn first_tree_len_exec(s: &Vec<Tok>, lo: usize, hi: usize) -> (r: usize)
    requires
        lo <= hi <= s.len(),
    ensures
        r as int == first_tree_len(tv(s).subrange(lo as int, hi as int)),
        r <= hi - lo,
{
    let ghost c = tv(s).subrange(lo as int, hi as int);
    if hi - lo >= 2 && punct_at(s, lo, '\'') && match &s[lo] {
        Tok::Punct { joint, .. } => *joint,
        _ => false,
    } && match &s[lo + 1] {
        Tok::Ident { .. } => true,
        _ => false,
    } {
        return 2;
    }
    if hi - lo >= 1 {
        let sub = copy_range(s, lo, hi);
        proof {
            assert(tv(&sub) == c);
            assert(tv(&sub).len() == sub@.len());
        }
        let e = find_tree_end(&sub, 0);
        e
    } else {
        0
    }
}

/// The contents `s[lo..hi]` of `expr(...)`.
fn expr_contents(s: &Vec<Tok>, lo: usize, hi: usize, self_referencing: bool, group: Origin) -> (r:
    Result<FieldProperty, CtorError>)
    requires
        lo <= hi <= s.len(),
    ensures
        match r {
            Ok(p) => spec_expr_contents(tv(s).subrange(lo as int, hi as int), self_referencing, group)
                == Ok::<FieldPropertyV, CtorErrorV>(p@),
            Err(e) => spec_expr_contents(
                tv(s).subrange(lo as int, hi as int),
                self_referencing,
                group,
            ) == Err::<FieldPropertyV, CtorErrorV>(e@),
        },
{
    let ghost c = tv(s).subrange(lo as int, hi as int);
    let k = first_tree_len_exec(s, lo, hi);
    let arrow = hi > lo && k < (hi - lo) - 1 && punct_at(s, lo + k, '-') && match &s[lo + k] {
        Tok::Punct { joint, .. } => *joint,
        _ => false,
    } && punct_at(s, lo + k + 1, '>');
    proof {
        if hi > lo && k + 1 < hi - lo {
            assert(c[k as int] == tv(s)[lo + k]);
            assert(c[k + 1] == tv(s)[lo + k + 1]);
        }
        assert(arrow == spec_peek2_arrow(c));
    }
    if arrow {
        let text = render_range(s, lo, lo + k);
        proof {
            assert(c.subrange(0, k as int) =~= tv(s).subrange(lo as int, lo + k));
        }
        if parses_as_type(&text) {
            let expression = copy_range(s, lo + k + 2, hi);
            let input_type = copy_range(s, lo, lo + k);
            proof {
                assert(c.subrange(k + 2, c.len() as int) =~= tv(s).subrange(lo + k + 2, hi as int));
            }
            Ok(FieldProperty::Expression { expression, input_type: Some(input_type), self_referencing })
        } else {
            Err(CtorError::Expected { what: Expected::Type, at: origin_at_exec(s, lo, group) })
        }
    } else {
        let expression = copy_range(s, lo, hi);
        Ok(FieldProperty::Expression { expression, input_type: None, self_referencing })
    }
}

/// The length of the longest start of `s[lo..hi]` that `syn` reads as
/// one type.
fn type_prefix(s: &Vec<Tok>, lo: usize, hi: usize) -> (r: usize)
    requires
        lo <= hi <= s.len(),
    ensures
        r as int == type_prefix_len(tv(s).subrange(lo as int, hi as int), hi - lo),
        r <= hi - lo,
{
    let ghost c = tv(s).subrange(lo as int, hi as int);
    let mut k: usize = hi - lo;
    while k > 0
        invariant
            lo <= hi <= s.len(),
            k <= hi - lo,
            c == tv(s).subrange(lo as int, hi as int),
            type_prefix_len(c, hi - lo) == type_prefix_len(c, k as int),
        decreases k,
    {
        let text = render_range(s, lo, lo + k);
        proof {
            assert(c.subrange(0, k as int) =~= tv(s).subrange(lo as int, lo + k));
        }
        if parses_as_type(&text) {
            return k;
        }
        k = k - 1;
    }
    0
}

/// Parses a field property at `pos`: the property, the position after it
/// and the left-over token it records.
pub fn parse_property(s: &Vec<Tok>, pos: usize, end: Origin) -> (r: Result<
    (FieldProperty, usize, Option<Leftover>),
    CtorError,
>)
    requires
        pos <= s.len(),
    ensures
        match r {
            Ok((p, k, pd)) => spec_parse_property(tv(s), pos as int, end) == Ok::<
                (FieldPropertyV, int, Option<Leftover>),
                CtorErrorV,
            >((p@, k as int, pd)) && k <= s.len(),
            Err(e) => spec_parse_property(tv(s), pos as int, end) == Err::<
                (FieldPropertyV, int, Option<Leftover>),
                CtorErrorV,
            >(e@),
        },
{
    let ghost sv = tv(s);
    if !peek_ident(s, pos) {
        return Err(CtorError::Expected { what: Expected::Ident, at: origin_at_exec(s, pos, end) });
    }
    let p = pos + 1;
    if s[pos].is_ident("cloned") {
        Ok((FieldProperty::Cloned, p, None))
    } else if s[pos].is_ident("default") {
        Ok((FieldProperty::Default, p, None))
    } else if s[pos].is_ident("into") {
        Ok((FieldProperty::Into, p, None))
    } else if s[pos].is_ident("iter") {
        let (np, group) = consume_delimited(s, p, Delim::Paren, end);
        match group {
            Err(e) => Err(e),
            Ok(close) => {
                let k = type_prefix(s, p + 1, close);
                if k > 0 {
                    let iter_type = copy_range(s, p + 1, p + 1 + k);
                    let pending = record_leftover(None, s, p + 1, close, k, Delim::Paren);
                    proof {
                        assert(sv.subrange(p + 1, close as int).subrange(0, k as int)
                            =~= sv.subrange(p + 1, p + 1 + k));
                    }
                    Ok((FieldProperty::Iter { iter_type }, np, pending))
                } else {
                    proof {
                        let c = sv.subrange(p + 1, close as int);
                        assert(c.len() > 0 ==> c[0] == sv[p + 1]);
                    }
                    Err(
                        CtorError::Expected {
                            what: Expected::Type,
                            at: if p + 1 < close {
                                s[p + 1].origin()
                            } else {
                                s[p].origin()
                            },
                        },
                    )
                }
            },
        }
    } else if s[pos].is_ident("expr") {
        let bang = punct_at(s, p, '!');
        let p2 = if bang {
            p + 1
        } else {
            p
        };
        let (np, group) = consume_delimited(s, p2, Delim::Paren, end);
        match group {
            Err(e) => Err(e),
            Ok(close) => match expr_contents(s, p2 + 1, close, bang, s[p2].origin()) {
                Err(e) => Err(e),
                Ok(prop) => Ok((prop, np, None)),
            },
        }
    } else {
        let property = match &s[pos] {
            Tok::Ident { text, .. } => text.clone(),
            _ => String::new(),
        };
        Err(
            CtorError::UnknownProperty {
                property,
                group: PropertyGroup::Field,
                at: s[pos].origin(),
            },
        )
    }
}

/// An integer literal at `p`: its value and the position after it.
fn lit_at(s: &Vec<Tok>, p: usize, end: Origin) -> (r: Result<(usize, usize), CtorError>)
    ensures
        match r {
            Ok((n, np)) => spec_lit_at(tv(s), p as int, end) == Ok::<(usize, int), CtorErrorV>(
                (n, np as int),
            ) && np <= s.len(),
            Err(e) => spec_lit_at(tv(s), p as int, end) == Err::<(usize, int), CtorErrorV>(e@),
        },
{
    let ghost sv = tv(s);
    let lit: Option<(String, usize)> = if p < s.len() {
        match &s[p] {
            Tok::Literal { text, .. } => Some((text.clone(), p + 1)),
            Tok::Punct { ch, .. } => if *ch == '-' && p + 1 < s.len() {
                match &s[p + 1] {
                    Tok::Literal { text, .. } => {
                        let mut t = String::from_str("-");
                        t.append(text.as_str());
                        Some((t, p + 2))
                    },
                    _ => None,
                }
            } else {
                None
            },
            _ => None,
        }
    } else {
        None
    };
    proof {
        match &lit {
            Some((t, np)) => {
                assert(lit_text_at(sv, p as int) == Some((t@, *np as int)));
            },
            None => {
                assert(lit_text_at(sv, p as int) is None);
            },
        }
    }
    match lit {
        Some((t, np)) => match parse_lit_int(t.as_str()) {
            Some(Some(n)) => Ok((n, np)),
            Some(None) => Err(CtorError::LiteralValue { literal: t, at: s[p].origin() }),
            None => Err(
                CtorError::Expected { what: Expected::IntLiteral, at: origin_at_exec(s, p, end) },
            ),
        },
        None => Err(
            CtorError::Expected { what: Expected::IntLiteral, at: origin_at_exec(s, p, end) },
        ),
    }
}

/// Puts `n` into the sorted indices `v`, unless they hold it already.
fn insert_sorted(v: &mut Vec<usize>, n: usize)
    ensures
        final(v)@ == sorted_insert(old(v)@, n),
{
    let mut i: usize = 0;
    while i < v.len() && v[i] < n
        invariant
            v@ == old(v)@,
            i <= v.len(),
            forall|j: int| 0 <= j < i ==> v@[j] < n,
        decreases v.len() - i,
    {
        i = i + 1;
    }
    proof {
        lemma_sorted_insert_at(v@, n, i as int);
    }
    if i < v.len() && v[i] == n {
    } else {
        v.insert(i, n);
    }
}

proof fn lemma_sorted_insert_at(s: Seq<usize>, n: usize, i: int)
    requires
        0 <= i <= s.len(),
        forall|j: int| 0 <= j < i ==> s[j] < n,
        i < s.len() ==> s[i] >= n,
    ensures
        sorted_insert(s, n) == (if i < s.len() && s[i] == n {
            s
        } else {
            s.insert(i, n)
        }),
    decreases i,
{
    if i == 0 {
        if s.len() == 0 {
            assert(seq![n] =~= s.insert(0, n));
        } else if n < s[0] {
            assert(seq![n] + s =~= s.insert(0, n));
        }
    } else {
        let t = s.drop_first();
        lemma_sorted_insert_at(t, n, i - 1);
        if i < s.len() && s[i] == n {
            assert(t[i - 1] == s[i]);
            assert(seq![s[0]] + t =~= s);
        } else {
            assert(seq![s[0]] + t.insert(i - 1, n) =~= s.insert(i, n));
        }
    }
}

/// Parses a field configuration from the arguments `s`: the configuration,
/// where parsing stopped and the recorded left-over token.
#[verifier::loop_isolation(false)]
pub fn parse_field_config(s: &Vec<Tok>, end: Origin) -> (r: Result<
    (FieldConfig, usize, Option<Leftover>),
    CtorError,
>)
    ensures
        match r {
            Ok((c, p, pd)) => spec_parse_field_config(tv(s), end) == Ok::<
                (FieldConfigV, int, Option<Leftover>),
                CtorErrorV,
            >((c@, p as int, pd)),
            Err(e) => spec_parse_field_config(tv(s), end) == Err::<
                (FieldConfigV, int, Option<Leftover>),
                CtorErrorV,
            >(e@),
        },
        r matches Ok((c, _, _)) ==> strictly_increasing(c.applications@),
{
    proof {
        law_constructor_indices_sorted_without_repeats(tv(s), end);
    }
    let ghost sv = tv(s);
    let (property, p, pd) = match parse_property(s, 0, end) {
        Ok(x) => x,
        Err(e) => {
            return Err(e);
        },
    };
    if !punct_at(s, p, '=') {
        let applications: Vec<usize> = Vec::new();
        proof {
            assert(applications@ =~= seq![]);
        }
        return Ok((FieldConfig { property, applications }, p, pd));
    }
    let p1 = p + 1;
    if any_open_at(s, p1) {
        if !open_at(s, p1, Delim::Bracket) {
            return Err(CtorError::EnclosingBrackets { at: s[p1].origin() });
        }
        let close = find_group_close(s, p1);
        let np = find_tree_end(s, p1);
        let c = copy_range(s, p1 + 1, close);
        let gorigin = s[p1].origin();
        let mut applications: Vec<usize> = Vec::new();
        let mut k: usize = 0;
        proof {
            assert(tv(&c) == group_contents(sv, p1 as int));
            assert(applications@ =~= seq![]);
        }
        loop
            invariant
                k <= c.len(),
                spec_lit_list(tv(&c), 0, seq![], gorigin) == spec_lit_list(
                    tv(&c),
                    k as int,
                    applications@,
                    gorigin,
                ),
            decreases c.len() - k,
        {
            match lit_at(&c, k, gorigin) {
                Err(e) => {
                    return Err(e);
                },
                Ok((n, nk)) => {
                    insert_sorted(&mut applications, n);
                    if punct_at(&c, nk, ',') {
                        k = nk + 1;
                    } else {
                        k = nk;
                        break;
                    }
                },
            }
        }
        let pending = record_leftover(pd, &c, 0, c.len(), k, Delim::Bracket);
        proof {
            assert(tv(&c).subrange(0, c.len() as int) =~= tv(&c));
        }
        Ok((FieldConfig { property, applications }, np, pending))
    } else {
        match lit_at(s, p1, end) {
            Err(e) => Err(e),
            Ok((n, np)) => {
                let mut applications: Vec<usize> = Vec::new();
                applications.push(n);
                proof {
                    assert(applications@ =~= seq![n]);
                }
                Ok((FieldConfig { property, applications }, np, pd))
            },
        }
    }
}

/// A bare `#[PROPERTY]` attribute's property, if its brackets hold exactly
/// one.
fn bare_property(a: &Vec<Tok>) -> (r: Option<FieldProperty>)
    ensures
        match r {
            Some(p) => spec_bare_property(tv(a)) == Some(p@),
            None => spec_bare_property(tv(a)) == None::<FieldPropertyV>,
        },
{
    if any_open_at(a, 1) {
        let st = copy_contents(a, 1);
        match parse_property(&st, 0, Origin::CallSite) {
            Ok((p, k, pd)) => if k == st.len() && pd.is_none() {
                Some(p)
            } else {
                None
            },
            Err(_) => None,
        }
    } else {
        None
    }
}

/// The configuration that a field's attributes give it.
pub fn parse_field_attributes(attrs: &Vec<Vec<Tok>>) -> (r: Result<Option<FieldConfig>, CtorError>)
    ensures
        match r {
            Ok(Some(c)) => spec_field_attrs(attrs_view(attrs@)) == Ok::<
                Option<FieldConfigV>,
                CtorErrorV,
            >(Some(c@)),
            Ok(None) => spec_field_attrs(attrs_view(attrs@)) == Ok::<
                Option<FieldConfigV>,
                CtorErrorV,
            >(None),
            Err(e) => spec_field_attrs(attrs_view(attrs@)) == Err::<
                Option<FieldConfigV>,
                CtorErrorV,
            >(e@),
        },
        r matches Ok(Some(c)) ==> strictly_increasing(c.applications@),
{
    let ghost av = attrs_view(attrs@);
    let mut i: usize = 0;
    while i < attrs.len()
        invariant
            av == attrs_view(attrs@),
            i <= attrs.len(),
            spec_field_attrs(av) == spec_field_attrs_from(av, i as int),
        decreases attrs.len() - i,
    {
        let a = &attrs[i];
        if is_ctor(a) {
            let (args, end) = match ctor_args(a) {
                Ok(x) => x,
                Err(e) => {
                    return Err(e);
                },
            };
            let (cfg, p, pd) = match parse_field_config(&args, end) {
                Ok(x) => x,
                Err(e) => {
                    return Err(e);
                },
            };
            return match finish(&args, p, pd) {
                Ok(()) => Ok(Some(cfg)),
                Err(e) => Err(e),
            };
        }
        match bare_property(a) {
            Some(property) => {
                let applications: Vec<usize> = Vec::new();
                proof {
                    assert(applications@ =~= seq![]);
                }
                return Ok(Some(FieldConfig { property, applications }));
            },
            None => {},
        }
        i = i + 1;
    }
    Ok(None)
}

} // verus!
