//! What one constructor does with each field: take it as a parameter,
//! generate its value, or both.
use vstd::prelude::*;
use crate::attrs::attrs_view;
use crate::error::{Abort, AbortV, Failure, FailureV};
use crate::fields::{
    parse_field_attributes, spec_field_attrs, spec_is_generated, FieldConfig, FieldConfigV,
    FieldProperty, FieldPropertyV,
};
use crate::outside::{parses_as_type, type_text_ok};
use crate::structs::CtorAttrs;
use crate::syntax::{Name, NameV};
use crate::tokens::{
    copy_range, extend_toks, ident_tok, is_phantom, punct_tok, push_tok, render, render_range,
    spec_is_phantom, tv, Origin, Tok, TokV,
};

verus! {

/// A field of a struct, variant or union: its name (none for a tuple
/// field), its type's tokens, its attributes and where it points.
pub struct FieldModel {
    pub ident: Option<Name>,
    pub ty: Vec<Tok>,
    pub attrs: Vec<Vec<Tok>>,
    pub span: Origin,
}

/// The value of a [`FieldModel`].
pub struct FieldModelV {
    pub ident: Option<NameV>,
    pub ty: Seq<TokV>,
    pub attrs: Seq<Seq<TokV>>,
    pub span: Origin,
}

impl View for FieldModel {
    type V = FieldModelV;

    open spec fn view(&self) -> FieldModelV {
        FieldModelV {
            ident: match self.ident {
                Some(n) => Some(n@),
                None => None,
            },
            ty: tv(&self.ty),
            attrs: attrs_view(self.attrs@),
            span: self.span,
        }
    }
}

/// The values of a sequence of fields.
pub open spec fn fields_view(s: Seq<FieldModel>) -> Seq<FieldModelV> {
    s.map_values(|f: FieldModel| f@)
}

/// A constructor parameter: the field it is for, its type and where it
/// points.
pub struct ParameterField {
    pub ident: Name,
    pub ty: Vec<Tok>,
    pub span: Origin,
}

/// The value of a [`ParameterField`].
pub struct ParamV {
    pub ident: NameV,
    pub ty: Seq<TokV>,
    pub span: Origin,
}

impl View for ParameterField {
    type V = ParamV;

    open spec fn view(&self) -> ParamV {
        ParamV { ident: self.ident@, ty: tv(&self.ty), span: self.span }
    }
}

/// A value computed in the constructor body: the field it is for and how.
pub struct GeneratedField {
    pub ident: Name,
    pub configuration: FieldProperty,
    pub span: Origin,
}

/// The value of a [`GeneratedField`].
pub struct GenV {
    pub ident: NameV,
    pub configuration: FieldPropertyV,
    pub span: Origin,
}

impl View for GeneratedField {
    type V = GenV;

    open spec fn view(&self) -> GenV {
        GenV { ident: self.ident@, configuration: self.configuration@, span: self.span }
    }
}

/// The plan of one constructor: the names of all fields in order, the
/// parameters and the computed values.
pub struct ConstructorMeta {
    pub field_idents: Vec<Name>,
    pub parameter_fields: Vec<ParameterField>,
    pub generated_fields: Vec<GeneratedField>,
}

/// The value of a [`ConstructorMeta`].
pub struct MetaV {
    pub field_idents: Seq<NameV>,
    pub parameter_fields: Seq<ParamV>,
    pub generated_fields: Seq<GenV>,
}

/// The values of a sequence of names.
pub open spec fn names_view(s: Seq<Name>) -> Seq<NameV> {
    s.map_values(|n: Name| n@)
}

/// The values of a sequence of parameters.
pub open spec fn params_view(s: Seq<ParameterField>) -> Seq<ParamV> {
    s.map_values(|p: ParameterField| p@)
}

/// The values of a sequence of computed fields.
pub open spec fn gens_view(s: Seq<GeneratedField>) -> Seq<GenV> {
    s.map_values(|g: GeneratedField| g@)
}

impl View for ConstructorMeta {
    type V = MetaV;

    open spec fn view(&self) -> MetaV {
        MetaV {
            field_idents: names_view(self.field_idents@),
            parameter_fields: params_view(self.parameter_fields@),
            generated_fields: gens_view(self.generated_fields@),
        }
    }
}

/// The character of a decimal digit.
pub open spec fn digit_char(d: nat) -> char {
    ((48 + d) as u8) as char
}

/// The decimal notation of `n`.
pub open spec fn decimal_text(n: nat) -> Seq<char>
    decreases n,
{
    if n < 10 {
        seq![digit_char(n)]
    } else {
        decimal_text(n / 10) + seq![digit_char(n % 10)]
    }
}

/// The name of field `k`: its own, or `argK` at the mixed site for a tuple
/// field.
pub open spec fn field_name(f: FieldModelV, k: int) -> NameV {
    match f.ident {
        Some(n) => n,
        None => NameV { text: "arg"@ + decimal_text(k as nat), span: Origin::MixedSite },
    }
}

/// The type `&T`.
pub open spec fn ref_type(ty: Seq<TokV>) -> Seq<TokV> {
    seq![TokV::Punct('&', false, Origin::CallSite)] + ty
}

/// The type `impl Into<T>`.
pub open spec fn into_type(ty: Seq<TokV>) -> Seq<TokV> {
    seq![
        TokV::Ident("impl"@, Origin::CallSite),
        TokV::Ident("Into"@, Origin::CallSite),
        TokV::Punct('<', false, Origin::CallSite),
    ] + ty + seq![TokV::Punct('>', false, Origin::CallSite)]
}

/// The type `impl IntoIterator<Item = T>`.
pub open spec fn iter_param_type(item: Seq<TokV>) -> Seq<TokV> {
    seq![
        TokV::Ident("impl"@, Origin::CallSite),
        TokV::Ident("IntoIterator"@, Origin::CallSite),
        TokV::Punct('<', false, Origin::CallSite),
        TokV::Ident("Item"@, Origin::CallSite),
        TokV::Punct('=', false, Origin::CallSite),
    ] + item + seq![TokV::Punct('>', false, Origin::CallSite)]
}

/// A parameter type that must read back as a type, or the stop that its
/// failure causes.
pub open spec fn checked_type(t: Seq<TokV>, stop: AbortV) -> Result<Seq<TokV>, AbortV> {
    if type_text_ok(render(t)) {
        Ok(t)
    } else {
        Err(stop)
    }
}

/// The parameter type that a property applied to this constructor asks
/// for, if any.
pub open spec fn spec_required_type(p: FieldPropertyV, ty: Seq<TokV>) -> Result<
    Option<Seq<TokV>>,
    AbortV,
> {
    match p {
        FieldPropertyV::Cloned => match checked_type(ref_type(ty), AbortV::RefType) {
            Ok(t) => Ok(Some(t)),
            Err(a) => Err(a),
        },
        FieldPropertyV::Into => match checked_type(into_type(ty), AbortV::IntoType) {
            Ok(t) => Ok(Some(t)),
            Err(a) => Err(a),
        },
        FieldPropertyV::Iter { iter_type } => match checked_type(
            iter_param_type(iter_type),
            AbortV::IterType,
        ) {
            Ok(t) => Ok(Some(t)),
            Err(a) => Err(a),
        },
        FieldPropertyV::Expression { input_type, self_referencing, .. } => {
            if input_type is Some {
                Ok(input_type)
            } else if self_referencing {
                Ok(Some(ty))
            } else {
                Ok(None)
            }
        },
        FieldPropertyV::Default => Ok(None),
    }
}

/// What constructor `ctor_index` with markers `attrs` does with a field of
/// type `ty` and configuration `config`: the value it computes (if any) and
/// the parameter type it takes (if any).
pub open spec fn spec_field_decision(
    attrs: CtorAttrs,
    config: Option<FieldConfigV>,
    ty: Seq<TokV>,
    ctor_index: int,
) -> Result<(Option<FieldPropertyV>, Option<Seq<TokV>>), AbortV> {
    match config {
        None => if attrs.default_all {
            Ok((Some(FieldPropertyV::Default), None))
        } else if attrs.into_all {
            match checked_type(into_type(ty), AbortV::IntoType) {
                Ok(t) => Ok((Some(FieldPropertyV::Into), Some(t))),
                Err(a) => Err(a),
            }
        } else if spec_is_phantom(ty) {
            Ok((Some(FieldPropertyV::Default), None))
        } else {
            Ok((None, Some(ty)))
        },
        Some(cfg) => if !spec_is_generated(cfg.property) && attrs.default_all {
            Ok((Some(FieldPropertyV::Default), None))
        } else if cfg.applications.len() == 0 || cfg.applications.contains(ctor_index as usize) {
            match spec_required_type(cfg.property, ty) {
                Ok(req) => Ok((Some(cfg.property), req)),
                Err(a) => Err(a),
            }
        } else if spec_is_phantom(ty) {
            Ok((Some(FieldPropertyV::Default), None))
        } else {
            Ok((None, Some(ty)))
        },
    }
}

/// The plan after one more field.
pub open spec fn meta_step(
    acc: MetaV,
    id: NameV,
    span: Origin,
    gen: Option<FieldPropertyV>,
    req: Option<Seq<TokV>>,
) -> MetaV {
    MetaV {
        field_idents: acc.field_idents.push(id),
        parameter_fields: match req {
            Some(t) => acc.parameter_fields.push(ParamV { ident: id, ty: t, span }),
            None => acc.parameter_fields,
        },
        generated_fields: match gen {
            Some(g) => acc.generated_fields.push(GenV { ident: id, configuration: g, span }),
            None => acc.generated_fields,
        },
    }
}

/// The plan over the fields from index `k` on, after the plan `acc`.
pub open spec fn spec_meta_from(
    attrs: CtorAttrs,
    fields: Seq<FieldModelV>,
    ctor_index: int,
    k: int,
    acc: MetaV,
) -> Result<MetaV, FailureV>
    decreases fields.len() - k,
{
    if k < 0 || k >= fields.len() {
        Ok(acc)
    } else {
        let f = fields[k];
        match spec_field_attrs(f.attrs) {
            Err(e) => Err(FailureV::Error(e)),
            Ok(cfg) => match spec_field_decision(attrs, cfg, f.ty, ctor_index) {
                Err(a) => Err(FailureV::Abort(a)),
                Ok((gen, req)) => spec_meta_from(
                    attrs,
                    fields,
                    ctor_index,
                    k + 1,
                    meta_step(acc, field_name(f, k), f.span, gen, req),
                ),
            },
        }
    }
}

/// The empty plan.
pub open spec fn empty_meta() -> MetaV {
    MetaV { field_idents: seq![], parameter_fields: seq![], generated_fields: seq![] }
}

/// The plan of constructor `ctor_index` with markers `attrs` over `fields`.
pub open spec fn spec_generate_meta(attrs: CtorAttrs, fields: Seq<FieldModelV>, ctor_index: int) -> Result<
    MetaV,
    FailureV,
> {
    spec_meta_from(attrs, fields, ctor_index, 0, empty_meta())
}

/// The single-character text of a decimal digit.
fn digit_str(d: usize) -> (r: &'static str)
    requires
        d < 10,
    ensures
        r@ == seq![digit_char(d as nat)],
{
    let r = match d {
        0 => "0",
        1 => "1",
        2 => "2",
        3 => "3",
        4 => "4",
        5 => "5",
        6 => "6",
        7 => "7",
        8 => "8",
        _ => "9",
    };
    proof {
        reveal_strlit("0");
        reveal_strlit("1");
        reveal_strlit("2");
        reveal_strlit("3");
        reveal_strlit("4");
        reveal_strlit("5");
        reveal_strlit("6");
        reveal_strlit("7");
        reveal_strlit("8");
        reveal_strlit("9");
        assert(r@ =~= seq![digit_char(d as nat)]);
    }
    r
}

/// Appends the decimal notation of `n`.
fn push_decimal(s: &mut String, n: usize)
    ensures
        final(s)@ == old(s)@ + decimal_text(n as nat),
    decreases n,
{
    if n >= 10 {
        push_decimal(s, n / 10);
    }
    let ghost mid = s@;
    s.append(digit_str(n % 10));
    proof {
        if n >= 10 {
            assert(s@ =~= old(s)@ + decimal_text(n as nat));
        } else {
            assert(s@ =~= old(s)@ + decimal_text(n as nat));
        }
    }
}

/// The name of field `k`.
fn field_name_exec(f: &FieldModel, k: usize) -> (r: Name)
    ensures
        r@ == field_name(f@, k as int),
{
    match &f.ident {
        Some(n) => n.copy(),
        None => {
            let mut text = String::from_str("arg");
            push_decimal(&mut text, k);
            Name { text, span: Origin::MixedSite }
        },
    }
}

/// The type `&T`.
fn ref_type_exec(ty: &Vec<Tok>) -> (r: Vec<Tok>)
    ensures
        tv(&r) == ref_type(tv(ty)),
{
    let mut r: Vec<Tok> = Vec::new();
    r.push(punct_tok('&', false));
    proof {
        assert(tv(&r) =~= seq![TokV::Punct('&', false, Origin::CallSite)]);
    }
    extend_toks(&mut r, ty);
    r
}

/// The type `impl Into<T>`.
fn into_type_exec(ty: &Vec<Tok>) -> (r: Vec<Tok>)
    ensures
        tv(&r) == into_type(tv(ty)),
{
    let mut r: Vec<Tok> = Vec::new();
    push_tok(&mut r, ident_tok("impl", Origin::CallSite));
    push_tok(&mut r, ident_tok("Into", Origin::CallSite));
    push_tok(&mut r, punct_tok('<', false));
    extend_toks(&mut r, ty);
    push_tok(&mut r, punct_tok('>', false));
    proof {
        assert(tv(&r) =~= into_type(tv(ty)));
    }
    r
}

/// The type `impl IntoIterator<Item = T>`.
fn iter_type_exec(item: &Vec<Tok>) -> (r: Vec<Tok>)
    ensures
        tv(&r) == iter_param_type(tv(item)),
{
    let mut r: Vec<Tok> = Vec::new();
    push_tok(&mut r, ident_tok("impl", Origin::CallSite));
    push_tok(&mut r, ident_tok("IntoIterator", Origin::CallSite));
    push_tok(&mut r, punct_tok('<', false));
    push_tok(&mut r, ident_tok("Item", Origin::CallSite));
    push_tok(&mut r, punct_tok('=', false));
    extend_toks(&mut r, item);
    push_tok(&mut r, punct_tok('>', false));
    proof {
        assert(tv(&r) =~= iter_param_type(tv(item)));
    }
    r
}

/// A parameter type that must read back as a type.
fn checked_type_exec(t: Vec<Tok>, stop: Abort) -> (r: Result<Vec<Tok>, Abort>)
    ensures
        match r {
            Ok(x) => checked_type(tv(&t), stop@) == Ok::<Seq<TokV>, AbortV>(tv(&x)),
            Err(a) => checked_type(tv(&t), stop@) == Err::<Seq<TokV>, AbortV>(a@),
        },
{
    let text = render_range(&t, 0, t.len());
    proof {
        assert(tv(&t).subrange(0, t.len() as int) =~= tv(&t));
    }
    if parses_as_type(&text) {
        Ok(t)
    } else {
        Err(stop)
    }
}

/// Whether the constructor index is among the listed ones.
fn applies_to(apps: &Vec<usize>, ctor_index: usize) -> (r: bool)
    ensures
        r == apps@.contains(ctor_index),
{
    let mut i: usize = 0;
    while i < apps.len()
        invariant
            i <= apps.len(),
            forall|j: int| 0 <= j < i ==> apps@[j] != ctor_index,
        decreases apps.len() - i,
    {
        if apps[i] == ctor_index {
            return true;
        }
        i = i + 1;
    }
    false
}

/// The parameter type that a property applied to this constructor asks
/// for.
fn required_type(p: &FieldProperty, ty: &Vec<Tok>) -> (r: Result<Option<Vec<Tok>>, Abort>)
    ensures
        match r {
            Ok(Some(t)) => spec_required_type(p@, tv(ty)) == Ok::<Option<Seq<TokV>>, AbortV>(
                Some(tv(&t)),
            ),
            Ok(None) => spec_required_type(p@, tv(ty)) == Ok::<Option<Seq<TokV>>, AbortV>(None),
            Err(a) => spec_required_type(p@, tv(ty)) == Err::<Option<Seq<TokV>>, AbortV>(a@),
        },
{
    match p {
        FieldProperty::Cloned => match checked_type_exec(ref_type_exec(ty), Abort::RefType) {
            Ok(t) => Ok(Some(t)),
            Err(a) => Err(a),
        },
        FieldProperty::Into => match checked_type_exec(into_type_exec(ty), Abort::IntoType) {
            Ok(t) => Ok(Some(t)),
            Err(a) => Err(a),
        },
        FieldProperty::Iter { iter_type } => match checked_type_exec(
            iter_type_exec(iter_type),
            Abort::IterType,
        ) {
            Ok(t) => Ok(Some(t)),
            Err(a) => Err(a),
        },
        FieldProperty::Expression { input_type, self_referencing, .. } => {
            match input_type {
                Some(t) => {
                    let c = copy_range(t, 0, t.len());
                    proof {
                        assert(tv(t).subrange(0, t.len() as int) =~= tv(t));
                    }
                    Ok(Some(c))
                },
                None => if *self_referencing {
                    let c = copy_range(ty, 0, ty.len());
                    proof {
                        assert(tv(ty).subrange(0, ty.len() as int) =~= tv(ty));
                    }
                    Ok(Some(c))
                } else {
                    Ok(None)
                },
            }
        },
        FieldProperty::Default => Ok(None),
    }
}

/// The value of an optional field configuration.
pub open spec fn opt_config_view(c: Option<FieldConfig>) -> Option<FieldConfigV> {
    match c {
        Some(x) => Some(x@),
        None => None,
    }
}

/// The value of an optional property.
pub open spec fn opt_prop_view(o: Option<FieldProperty>) -> Option<FieldPropertyV> {
    match o {
        Some(x) => Some(x@),
        None => None,
    }
}

/// The value of an optional token vector.
pub open spec fn opt_toks_view(o: Option<Vec<Tok>>) -> Option<Seq<TokV>> {
    match o {
        Some(x) => Some(tv(&x)),
        None => None,
    }
}

/// What a constructor does with one field.
fn field_decision(
    attrs: CtorAttrs,
    config: &Option<FieldConfig>,
    ty: &Vec<Tok>,
    ctor_index: usize,
) -> (r: Result<(Option<FieldProperty>, Option<Vec<Tok>>), Abort>)
    ensures
        match r {
            Ok((g, q)) => spec_field_decision(attrs, opt_config_view(*config), tv(ty), ctor_index as int)
                == Ok::<(Option<FieldPropertyV>, Option<Seq<TokV>>), AbortV>(
                (opt_prop_view(g), opt_toks_view(q)),
            ),
            Err(a) => spec_field_decision(
                attrs,
                opt_config_view(*config),
                tv(ty),
                ctor_index as int,
            ) == Err::<(Option<FieldPropertyV>, Option<Seq<TokV>>), AbortV>(a@),
        },
{
    match config {
        None => if attrs.default_all {
            Ok((Some(FieldProperty::Default), None))
        } else if attrs.into_all {
            match checked_type_exec(into_type_exec(ty), Abort::IntoType) {
                Ok(t) => Ok((Some(FieldProperty::Into), Some(t))),
                Err(a) => Err(a),
            }
        } else if is_phantom(ty) {
            Ok((Some(FieldProperty::Default), None))
        } else {
            let c = copy_range(ty, 0, ty.len());
            proof {
                assert(tv(ty).subrange(0, ty.len() as int) =~= tv(ty));
            }
            Ok((None, Some(c)))
        },
        Some(cfg) => if !cfg.property.is_generated() && attrs.default_all {
            Ok((Some(FieldProperty::Default), None))
        } else if cfg.applications.len() == 0 || applies_to(&cfg.applications, ctor_index) {
            match required_type(&cfg.property, ty) {
                Ok(req) => Ok((Some(cfg.property.copy()), req)),
                Err(a) => Err(a),
            }
        } else if is_phantom(ty) {
            Ok((Some(FieldProperty::Default), None))
        } else {
            let c = copy_range(ty, 0, ty.len());
            proof {
                assert(tv(ty).subrange(0, ty.len() as int) =~= tv(ty));
            }
            Ok((None, Some(c)))
        },
    }
}

/// The plan of constructor `ctor_index` with markers `attrs` over `fields`:
/// every field's name, and for each field its parameter and its computed
/// value as the field's configuration and the markers decide.
pub fn generate_ctor_meta(attrs: CtorAttrs, fields: &Vec<FieldModel>, ctor_index: usize) -> (r:
    Result<ConstructorMeta, Failure>)
    ensures
        match r {
            Ok(m) => spec_generate_meta(attrs, fields_view(fields@), ctor_index as int) == Ok::<
                MetaV,
                FailureV,
            >(m@),
            Err(f) => spec_generate_meta(attrs, fields_view(fields@), ctor_index as int) == Err::<
                MetaV,
                FailureV,
            >(f@),
        },
{
    let ghost fv = fields_view(fields@);
    let mut meta = ConstructorMeta {
        field_idents: Vec::new(),
        parameter_fields: Vec::new(),
        generated_fields: Vec::new(),
    };
    proof {
        assert(meta@.field_idents =~= seq![]);
        assert(meta@.parameter_fields =~= seq![]);
        assert(meta@.generated_fields =~= seq![]);
    }
    let mut k: usize = 0;
    while k < fields.len()
        invariant
            fv == fields_view(fields@),
            k <= fields.len(),
            spec_generate_meta(attrs, fv, ctor_index as int) == spec_meta_from(
                attrs,
                fv,
                ctor_index as int,
                k as int,
                meta@,
            ),
        decreases fields.len() - k,
    {
        let f = &fields[k];
        let configuration = match parse_field_attributes(&f.attrs) {
            Ok(c) => c,
            Err(e) => {
                return Err(Failure::Error(e));
            },
        };
        proof {
            assert(fv[k as int] == f@);
        }
        let (gen, req) = match field_decision(attrs, &configuration, &f.ty, ctor_index) {
            Ok(x) => x,
            Err(a) => {
                return Err(Failure::Abort(a));
            },
        };
        let id = field_name_exec(f, k);
        let ghost before = meta@;
        let ghost idv = id@;
        let ghost genv = opt_prop_view(gen);
        let ghost reqv = opt_toks_view(req);
        let ghost prev_ids = meta.field_idents@;
        let ghost prev_params = meta.parameter_fields@;
        let ghost prev_gens = meta.generated_fields@;
        match gen {
            Some(g) => {
                let gf = GeneratedField { ident: id.copy(), configuration: g, span: f.span };
                let ghost gfv = gf@;
                meta.generated_fields.push(gf);
                proof {
                    assert(gens_view(meta.generated_fields@) =~= gens_view(prev_gens).push(gfv));
                }
            },
            None => {},
        }
        match req {
            Some(t) => {
                let pf = ParameterField { ident: id.copy(), ty: t, span: f.span };
                let ghost pfv = pf@;
                meta.parameter_fields.push(pf);
                proof {
                    assert(params_view(meta.parameter_fields@) =~= params_view(prev_params).push(
                        pfv,
                    ));
                }
            },
            None => {},
        }
        meta.field_idents.push(id);
        proof {
            assert(names_view(meta.field_idents@) =~= names_view(prev_ids).push(idv));
            assert(meta@ == meta_step(before, idv, f.span, genv, reqv));
        }
        k = k + 1;
    }
    Ok(meta)
}

} // verus!
