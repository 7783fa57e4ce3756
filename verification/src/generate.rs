//! The code that the derive writes: constructor methods and the `impl`
//! blocks around them, as token sequences.
use vstd::prelude::*;
use crate::fields::{FieldProperty, FieldPropertyV};
use crate::meta::{gens_view, names_view, params_view, GeneratedField, GenV, ParamV, ParameterField};
use crate::syntax::{Name, NameV};
use crate::tokens::{extend_toks, ident_tok, punct_tok, push_tok, tv, Delim, Origin, Tok, TokV};

verus! {

/// An identifier at the call site.
pub open spec fn cs_ident(x: Seq<char>) -> TokV {
    TokV::Ident(x, Origin::CallSite)
}

/// A punctuation character at the call site.
pub open spec fn cs_punct(c: char, joint: bool) -> TokV {
    TokV::Punct(c, joint, Origin::CallSite)
}

/// An opening marker at the call site.
pub open spec fn cs_open(d: Delim) -> TokV {
    TokV::Open(d, Origin::CallSite)
}

/// A closing marker at the call site.
pub open spec fn cs_close(d: Delim) -> TokV {
    TokV::Close(d, Origin::CallSite)
}

/// A name as an identifier token.
pub open spec fn name_tok(n: NameV) -> TokV {
    TokV::Ident(n.text, n.span)
}

/// The items one after another, separated by commas.
pub open spec fn joined(items: Seq<Seq<TokV>>) -> Seq<TokV>
    decreases items.len(),
{
    if items.len() == 0 {
        seq![]
    } else if items.len() == 1 {
        items[0]
    } else {
        joined(items.drop_last()) + seq![cs_punct(',', false)] + items.last()
    }
}

/// The items one after another.
pub open spec fn concat_all(items: Seq<Seq<TokV>>) -> Seq<TokV>
    decreases items.len(),
{
    if items.len() == 0 {
        seq![]
    } else {
        concat_all(items.drop_last()) + items.last()
    }
}

/// A parameter: `NAME: TYPE`.
pub open spec fn param_toks(p: ParamV) -> Seq<TokV> {
    seq![name_tok(p.ident), cs_punct(':', false)] + p.ty
}

/// The expression that computes a field's value.
pub open spec fn init_toks(id: NameV, c: FieldPropertyV) -> Seq<TokV> {
    match c {
        FieldPropertyV::Cloned => seq![
            name_tok(id),
            cs_punct('.', false),
            cs_ident("clone"@),
            cs_open(Delim::Paren),
            cs_close(Delim::Paren),
        ],
        FieldPropertyV::Default => seq![
            cs_ident("Default"@),
            cs_punct(':', true),
            cs_punct(':', false),
            cs_ident("default"@),
            cs_open(Delim::Paren),
            cs_close(Delim::Paren),
        ],
        FieldPropertyV::Expression { expression, .. } => expression,
        FieldPropertyV::Into => seq![
            name_tok(id),
            cs_punct('.', false),
            cs_ident("into"@),
            cs_open(Delim::Paren),
            cs_close(Delim::Paren),
        ],
        FieldPropertyV::Iter { .. } => seq![
            name_tok(id),
            cs_punct('.', false),
            cs_ident("into_iter"@),
            cs_open(Delim::Paren),
            cs_close(Delim::Paren),
            cs_punct('.', false),
            cs_ident("collect"@),
            cs_open(Delim::Paren),
            cs_close(Delim::Paren),
        ],
    }
}

/// A computed field: `let NAME = EXPRESSION;`.
pub open spec fn gen_toks(g: GenV) -> Seq<TokV> {
    seq![cs_ident("let"@), name_tok(g.ident), cs_punct('=', false)] + init_toks(
        g.ident,
        g.configuration,
    ) + seq![cs_punct(';', false)]
}

/// The parameter list's tokens.
pub open spec fn params_toks(params: Seq<ParamV>) -> Seq<TokV> {
    joined(params.map_values(|p: ParamV| param_toks(p)))
}

/// The computed fields' tokens.
pub open spec fn gens_toks(gens: Seq<GenV>) -> Seq<TokV> {
    concat_all(gens.map_values(|g: GenV| gen_toks(g)))
}

/// The names, separated by commas.
pub open spec fn idents_toks(ids: Seq<NameV>) -> Seq<TokV> {
    joined(ids.map_values(|n: NameV| seq![name_tok(n)]))
}

/// A constructor method:
/// `VIS [const] fn NAME(PARAMS) -> Self { LETS BODY }`.
pub open spec fn method_toks(
    vis: Seq<TokV>,
    is_const: bool,
    name: NameV,
    params: Seq<ParamV>,
    gens: Seq<GenV>,
    body: Seq<TokV>,
) -> Seq<TokV> {
    vis + (if is_const {
        seq![cs_ident("const"@)]
    } else {
        seq![]
    }) + seq![cs_ident("fn"@), name_tok(name), cs_open(Delim::Paren)] + params_toks(params) + seq![
        cs_close(Delim::Paren),
        cs_punct('-', true),
        cs_punct('>', false),
        cs_ident("Self"@),
        cs_open(Delim::Brace),
    ] + gens_toks(gens) + body + seq![cs_close(Delim::Brace)]
}

/// The value built by a struct constructor: `Self { NAMES }`.
pub open spec fn struct_body(ids: Seq<NameV>) -> Seq<TokV> {
    seq![cs_ident("Self"@), cs_open(Delim::Brace)] + idents_toks(ids) + seq![cs_close(Delim::Brace)]
}

/// The shape of a struct's or variant's fields.
#[derive(Clone, Copy, Debug, PartialEq, Eq, Structural)]
pub enum FieldsStyle {
    Named,
    Unnamed,
    Unit,
}

/// The value built by a variant constructor: `Self::V { NAMES }`,
/// `Self::V ( NAMES )` or `Self::V`.
pub open spec fn variant_body(variant: NameV, style: FieldsStyle, ids: Seq<NameV>) -> Seq<TokV> {
    let head = seq![cs_ident("Self"@), cs_punct(':', true), cs_punct(':', false), name_tok(variant)];
    match style {
        FieldsStyle::Named => head + seq![cs_open(Delim::Brace)] + idents_toks(ids) + seq![
            cs_close(Delim::Brace),
        ],
        FieldsStyle::Unnamed => head + seq![cs_open(Delim::Paren)] + idents_toks(ids) + seq![
            cs_close(Delim::Paren),
        ],
        FieldsStyle::Unit => head,
    }
}

/// The generics of the type, split for an `impl`: parameters with bounds,
/// parameters as arguments, and the `where` clause.
pub struct GenericsModel {
    pub impl_generics: Vec<Tok>,
    pub ty_generics: Vec<Tok>,
    pub where_clause: Vec<Tok>,
}

/// The value of a [`GenericsModel`].
pub struct GenericsV {
    pub impl_generics: Seq<TokV>,
    pub ty_generics: Seq<TokV>,
    pub where_clause: Seq<TokV>,
}

impl View for GenericsModel {
    type V = GenericsV;

    open spec fn view(&self) -> GenericsV {
        GenericsV {
            impl_generics: tv(&self.impl_generics),
            ty_generics: tv(&self.ty_generics),
            where_clause: tv(&self.where_clause),
        }
    }
}

/// An `impl` block for the type, of `Default` when `default_trait` holds:
/// `impl GENERICS [Default for] NAME ARGS WHERE { ITEMS }`.
pub open spec fn impl_toks(g: GenericsV, ident: NameV, default_trait: bool, items: Seq<TokV>) -> Seq<
    TokV,
> {
    seq![cs_ident("impl"@)] + g.impl_generics + (if default_trait {
        seq![cs_ident("Default"@), cs_ident("for"@)]
    } else {
        seq![]
    }) + seq![name_tok(ident)] + g.ty_generics + g.where_clause + seq![cs_open(Delim::Brace)]
        + items + seq![cs_close(Delim::Brace)]
}

/// The values of a sequence of token vectors.
pub open spec fn toks_list_view(s: Seq<Vec<Tok>>) -> Seq<Seq<TokV>> {
    s.map_values(|v: Vec<Tok>| tv(&v))
}

/// An identifier at the call site.
pub fn cs_ident_exec(x: &str) -> (r: Tok)
    ensures
        r@ == cs_ident(x@),
{
    ident_tok(x, Origin::CallSite)
}

/// An opening marker at the call site.
pub fn cs_open_exec(d: Delim) -> (r: Tok)
    ensures
        r@ == cs_open(d),
{
    Tok::Open { delim: d, span: Origin::CallSite }
}

/// A closing marker at the call site.
pub fn cs_close_exec(d: Delim) -> (r: Tok)
    ensures
        r@ == cs_close(d),
{
    Tok::Close { delim: d, span: Origin::CallSite }
}

/// One more item of a comma-separated list.
pub proof fn lemma_joined_step(items: Seq<Seq<TokV>>, k: int)
    requires
        0 <= k < items.len(),
    ensures
        joined(items.take(k + 1)) == joined(items.take(k)) + (if k == 0 {
            seq![]
        } else {
            seq![cs_punct(',', false)]
        }) + items[k],
{
    let t = items.take(k + 1);
    assert(t.drop_last() =~= items.take(k));
    if k == 0 {
        assert(joined(items.take(0)) =~= seq![]);
        assert(joined(t) =~= seq![] + seq![] + items[0]);
    } else {
        assert(t.last() == items[k]);
    }
}

/// One more item of a concatenation.
pub proof fn lemma_concat_step(items: Seq<Seq<TokV>>, k: int)
    requires
        0 <= k < items.len(),
    ensures
        concat_all(items.take(k + 1)) == concat_all(items.take(k)) + items[k],
{
    let t = items.take(k + 1);
    assert(t.drop_last() =~= items.take(k));
    assert(t.last() == items[k]);
}

/// Appends the parameter list.
pub fn emit_params(out: &mut Vec<Tok>, params: &Vec<ParameterField>)
    ensures
        tv(final(out)) == tv(old(out)) + params_toks(params_view(params@)),
{
    let ghost start = tv(out);
    let ghost items = params_view(params@).map_values(|p: ParamV| param_toks(p));
    let mut k: usize = 0;
    proof {
        assert(items.take(0) =~= seq![]);
        assert(tv(out) =~= start + joined(items.take(0)));
    }
    while k < params.len()
        invariant
            k <= params.len(),
            items == params_view(params@).map_values(|p: ParamV| param_toks(p)),
            tv(out) == start + joined(items.take(k as int)),
        decreases params.len() - k,
    {
        proof {
            lemma_joined_step(items, k as int);
        }
        let ghost before = tv(out);
        if k > 0 {
            push_tok(out, punct_tok(',', false));
        }
        let p = &params[k];
        push_tok(out, p.ident.to_tok());
        push_tok(out, punct_tok(':', false));
        extend_toks(out, &p.ty);
        proof {
            assert(items[k as int] == param_toks(p@));
            assert(tv(out) =~= start + joined(items.take(k + 1)));
        }
        k = k + 1;
    }
    proof {
        assert(items.take(params.len() as int) =~= items);
    }
}

/// Appends the expression that computes a field's value.
fn emit_init(out: &mut Vec<Tok>, id: &Name, c: &FieldProperty)
    ensures
        tv(final(out)) == tv(old(out)) + init_toks(id@, c@),
{
    let ghost start = tv(out);
    match c {
        FieldProperty::Cloned => {
            push_tok(out, id.to_tok());
            push_tok(out, punct_tok('.', false));
            push_tok(out, cs_ident_exec("clone"));
            push_tok(out, cs_open_exec(Delim::Paren));
            push_tok(out, cs_close_exec(Delim::Paren));
        },
        FieldProperty::Default => {
            push_tok(out, cs_ident_exec("Default"));
            push_tok(out, punct_tok(':', true));
            push_tok(out, punct_tok(':', false));
            push_tok(out, cs_ident_exec("default"));
            push_tok(out, cs_open_exec(Delim::Paren));
            push_tok(out, cs_close_exec(Delim::Paren));
        },
        FieldProperty::Expression { expression, .. } => {
            extend_toks(out, expression);
        },
        FieldProperty::Into => {
            push_tok(out, id.to_tok());
            push_tok(out, punct_tok('.', false));
            push_tok(out, cs_ident_exec("into"));
            push_tok(out, cs_open_exec(Delim::Paren));
            push_tok(out, cs_close_exec(Delim::Paren));
        },
        FieldProperty::Iter { .. } => {
            push_tok(out, id.to_tok());
            push_tok(out, punct_tok('.', false));
            push_tok(out, cs_ident_exec("into_iter"));
            push_tok(out, cs_open_exec(Delim::Paren));
            push_tok(out, cs_close_exec(Delim::Paren));
            push_tok(out, punct_tok('.', false));
            push_tok(out, cs_ident_exec("collect"));
            push_tok(out, cs_open_exec(Delim::Paren));
            push_tok(out, cs_close_exec(Delim::Paren));
        },
    }
    proof {
        assert(tv(out) =~= start + init_toks(id@, c@));
    }
}

/// Appends the computed fields.
pub fn emit_gens(out: &mut Vec<Tok>, gens: &Vec<GeneratedField>)
    ensures
        tv(final(out)) == tv(old(out)) + gens_toks(gens_view(gens@)),
{
    let ghost start = tv(out);
    let ghost items = gens_view(gens@).map_values(|g: GenV| gen_toks(g));
    let mut k: usize = 0;
    proof {
        assert(items.take(0) =~= seq![]);
        assert(tv(out) =~= start + concat_all(items.take(0)));
    }
    while k < gens.len()
        invariant
            k <= gens.len(),
            items == gens_view(gens@).map_values(|g: GenV| gen_toks(g)),
            tv(out) == start + concat_all(items.take(k as int)),
        decreases gens.len() - k,
    {
        proof {
            lemma_concat_step(items, k as int);
        }
        let ghost before = tv(out);
        let g = &gens[k];
        push_tok(out, cs_ident_exec("let"));
        push_tok(out, g.ident.to_tok());
        push_tok(out, punct_tok('=', false));
        emit_init(out, &g.ident, &g.configuration);
        push_tok(out, punct_tok(';', false));
        proof {
            assert(items[k as int] == gen_toks(g@));
            assert(tv(out) =~= start + concat_all(items.take(k + 1)));
        }
        k = k + 1;
    }
    proof {
        assert(items.take(gens.len() as int) =~= items);
    }
}

/// Appends the names, separated by commas.
pub fn emit_idents(out: &mut Vec<Tok>, ids: &Vec<Name>)
    ensures
        tv(final(out)) == tv(old(out)) + idents_toks(names_view(ids@)),
{
    let ghost start = tv(out);
    let ghost items = names_view(ids@).map_values(|n: NameV| seq![name_tok(n)]);
    let mut k: usize = 0;
    proof {
        assert(items.take(0) =~= seq![]);
        assert(tv(out) =~= start + joined(items.take(0)));
    }
    while k < ids.len()
        invariant
            k <= ids.len(),
            items == names_view(ids@).map_values(|n: NameV| seq![name_tok(n)]),
            tv(out) == start + joined(items.take(k as int)),
        decreases ids.len() - k,
    {
        proof {
            lemma_joined_step(items, k as int);
        }
        if k > 0 {
            push_tok(out, punct_tok(',', false));
        }
        push_tok(out, ids[k].to_tok());
        proof {
            assert(items[k as int] =~= seq![name_tok(ids@[k as int]@)]);
            assert(tv(out) =~= start + joined(items.take(k + 1)));
        }
        k = k + 1;
    }
    proof {
        assert(items.take(ids.len() as int) =~= items);
    }
}

/// A constructor method.
pub fn method_tokens(
    vis: &Vec<Tok>,
    is_const: bool,
    name: &Name,
    params: &Vec<ParameterField>,
    gens: &Vec<GeneratedField>,
    body: &Vec<Tok>,
) -> (r: Vec<Tok>)
    ensures
        tv(&r) == method_toks(
            tv(vis),
            is_const,
            name@,
            params_view(params@),
            gens_view(gens@),
            tv(body),
        ),
{
    let mut out: Vec<Tok> = Vec::new();
    proof {
        assert(tv(&out) =~= seq![]);
    }
    extend_toks(&mut out, vis);
    let ghost a = tv(&out);
    if is_const {
        push_tok(&mut out, cs_ident_exec("const"));
    }
    let ghost b = tv(&out);
    push_tok(&mut out, cs_ident_exec("fn"));
    push_tok(&mut out, name.to_tok());
    push_tok(&mut out, cs_open_exec(Delim::Paren));
    let ghost c = tv(&out);
    emit_params(&mut out, params);
    let ghost d = tv(&out);
    push_tok(&mut out, cs_close_exec(Delim::Paren));
    push_tok(&mut out, punct_tok('-', true));
    push_tok(&mut out, punct_tok('>', false));
    push_tok(&mut out, cs_ident_exec("Self"));
    push_tok(&mut out, cs_open_exec(Delim::Brace));
    let ghost e = tv(&out);
    emit_gens(&mut out, gens);
    let ghost f = tv(&out);
    extend_toks(&mut out, body);
    push_tok(&mut out, cs_close_exec(Delim::Brace));
    proof {
        assert(tv(&out) =~= method_toks(
            tv(vis),
            is_const,
            name@,
            params_view(params@),
            gens_view(gens@),
            tv(body),
        ));
    }
    out
}

/// The value built by a struct constructor.
pub fn struct_body_tokens(ids: &Vec<Name>) -> (r: Vec<Tok>)
    ensures
        tv(&r) == struct_body(names_view(ids@)),
{
    let mut out: Vec<Tok> = Vec::new();
    push_tok(&mut out, cs_ident_exec("Self"));
    push_tok(&mut out, cs_open_exec(Delim::Brace));
    let ghost a = tv(&out);
    emit_idents(&mut out, ids);
    push_tok(&mut out, cs_close_exec(Delim::Brace));
    proof {
        assert(a =~= seq![cs_ident("Self"@), cs_open(Delim::Brace)]);
        assert(tv(&out) =~= struct_body(names_view(ids@)));
    }
    out
}

/// The value built by a variant constructor.
pub fn variant_body_tokens(variant: &Name, style: FieldsStyle, ids: &Vec<Name>) -> (r: Vec<Tok>)
    ensures
        tv(&r) == variant_body(variant@, style, names_view(ids@)),
{
    let mut out: Vec<Tok> = Vec::new();
    push_tok(&mut out, cs_ident_exec("Self"));
    push_tok(&mut out, punct_tok(':', true));
    push_tok(&mut out, punct_tok(':', false));
    push_tok(&mut out, variant.to_tok());
    let ghost head = tv(&out);
    proof {
        assert(head =~= seq![
            cs_ident("Self"@),
            cs_punct(':', true),
            cs_punct(':', false),
            name_tok(variant@),
        ]);
    }
    match style {
        FieldsStyle::Named => {
            push_tok(&mut out, cs_open_exec(Delim::Brace));
            emit_idents(&mut out, ids);
            push_tok(&mut out, cs_close_exec(Delim::Brace));
        },
        FieldsStyle::Unnamed => {
            push_tok(&mut out, cs_open_exec(Delim::Paren));
            emit_idents(&mut out, ids);
            push_tok(&mut out, cs_close_exec(Delim::Paren));
        },
        FieldsStyle::Unit => {},
    }
    proof {
        assert(tv(&out) =~= variant_body(variant@, style, names_view(ids@)));
    }
    out
}

/// Appends all token vectors of `items`.
pub fn emit_all(out: &mut Vec<Tok>, items: &Vec<Vec<Tok>>)
    ensures
        tv(final(out)) == tv(old(out)) + concat_all(toks_list_view(items@)),
{
    let ghost start = tv(out);
    let ghost iv = toks_list_view(items@);
    let mut k: usize = 0;
    proof {
        assert(iv.take(0) =~= seq![]);
        assert(tv(out) =~= start + concat_all(iv.take(0)));
    }
    while k < items.len()
        invariant
            k <= items.len(),
            iv == toks_list_view(items@),
            tv(out) == start + concat_all(iv.take(k as int)),
        decreases items.len() - k,
    {
        proof {
            lemma_concat_step(iv, k as int);
        }
        extend_toks(out, &items[k]);
        proof {
            assert(tv(out) =~= start + concat_all(iv.take(k + 1)));
        }
        k = k + 1;
    }
    proof {
        assert(iv.take(items.len() as int) =~= iv);
    }
}

/// An `impl` block for the type around the given items.
pub fn impl_tokens(g: &GenericsModel, ident: &Name, default_trait: bool, items: &Vec<Tok>) -> (r:
    Vec<Tok>)
    ensures
        tv(&r) == impl_toks(g@, ident@, default_trait, tv(items)),
{
    let mut out: Vec<Tok> = Vec::new();
    push_tok(&mut out, cs_ident_exec("impl"));
    let ghost a = tv(&out);
    extend_toks(&mut out, &g.impl_generics);
    let ghost b = tv(&out);
    if default_trait {
        push_tok(&mut out, cs_ident_exec("Default"));
        push_tok(&mut out, cs_ident_exec("for"));
    }
    let ghost c = tv(&out);
    push_tok(&mut out, ident.to_tok());
    extend_toks(&mut out, &g.ty_generics);
    extend_toks(&mut out, &g.where_clause);
    push_tok(&mut out, cs_open_exec(Delim::Brace));
    extend_toks(&mut out, items);
    push_tok(&mut out, cs_close_exec(Delim::Brace));
    proof {
        assert(a =~= seq![cs_ident("impl"@)]);
        assert(tv(&out) =~= impl_toks(g@, ident@, default_trait, tv(items)));
    }
    out
}

/// The inherent `impl` with all methods, followed by an `impl Default`
/// around the `Default` method when there is one.
pub open spec fn spec_assemble(
    g: GenericsV,
    ident: NameV,
    methods: Seq<Seq<TokV>>,
    dflt: Option<Seq<TokV>>,
) -> Seq<TokV> {
    impl_toks(g, ident, false, concat_all(methods)) + match dflt {
        Some(dm) => impl_toks(g, ident, true, dm),
        None => seq![],
    }
}

/// The value of an optional token vector.
pub open spec fn opt_tv(o: Option<Vec<Tok>>) -> Option<Seq<TokV>> {
    match o {
        Some(x) => Some(tv(&x)),
        None => None,
    }
}

/// Writes the inherent `impl` and, when there is a `Default` method, the
/// `impl Default`.
pub fn assemble(
    g: &GenericsModel,
    ident: &Name,
    methods: &Vec<Vec<Tok>>,
    dflt: Option<Vec<Tok>>,
) -> (r: Vec<Tok>)
    ensures
        tv(&r) == spec_assemble(g@, ident@, toks_list_view(methods@), opt_tv(dflt)),
{
    let mut items: Vec<Tok> = Vec::new();
    proof {
        assert(tv(&items) =~= seq![]);
    }
    emit_all(&mut items, methods);
    proof {
        assert(tv(&items) =~= concat_all(toks_list_view(methods@)));
    }
    let mut out = impl_tokens(g, ident, false, &items);
    match dflt {
        Some(dm) => {
            let second = impl_tokens(g, ident, true, &dm);
            extend_toks(&mut out, &second);
        },
        None => {
            proof {
                assert(tv(&out) =~= tv(&out) + seq![]);
            }
        },
    }
    out
}

} // verus!
