//! Properties that hold of every derive, proved from the specifications.
use vstd::prelude::*;
use crate::attrs::{first_ctor, first_ctor_from, is_ctor_attr, spec_ctor_args};
use crate::enums::{
    apply_item, spec_ctor_enum_impl, spec_default_prefix_config, spec_enum_methods,
    spec_enum_output, spec_prefix_config_args, spec_prefix_config_of, spec_variant_cfg,
    spec_variant_methods, PrefixConfigV, PrefixItemV, VariantV,
};
use crate::error::{expected_err, AbortV, CtorErrorV, Expected, FailureV, PropertyGroup};
use crate::fields::{
    spec_is_generated, delimited_end, spec_bare_property, spec_consume_delimited, spec_field_attrs, spec_parse_field_config,
    spec_parse_property, FieldConfigV, FieldPropertyV,
};
use crate::generate::{
    concat_all, cs_close, cs_ident, cs_open, impl_toks, method_toks, name_tok, spec_assemble,
    struct_body, GenericsV,
};
use crate::meta::{
    empty_meta, field_name, into_type, meta_step, spec_field_decision, spec_generate_meta,
    spec_meta_from, FieldModelV, GenV, MetaV, ParamV,
};
use crate::structs::{
    default_name, no_attrs, spec_def_item, spec_default_definition, spec_default_struct_config,
    spec_struct_config_args, spec_struct_config_of, spec_struct_impl, spec_struct_methods,
    spec_struct_output, CtorAttrs, DefinitionV, ItemV, StructConfigV,
};
use crate::syntax::{accepted_ident, at_any_open, at_open, name_of, spec_vis, Leftover, NameV};
use crate::tokens::{
    close_from, group_close, group_contents, is_ident_named, is_punct_char,
    lemma_group_close_bounds, lemma_tree_end_bounds, origin_at, origin_of, phantom_from,
    spec_is_phantom, tree_end, Delim, Origin, TokV,
};
use crate::unions::{
    spec_ctor_union_impl, spec_union_field_cfg, spec_union_methods, spec_union_output,
    union_field_methods, union_method, UnionFieldV,
};

verus! {

/// Field `k` of the plan is a parameter or a computed value.
pub open spec fn initialised(m: MetaV, k: int) -> bool {
    (exists|j: int|
        0 <= j < m.parameter_fields.len() && #[trigger] m.parameter_fields[j].ident
            == m.field_idents[k]) || (exists|j: int|
        0 <= j < m.generated_fields.len() && #[trigger] m.generated_fields[j].ident
            == m.field_idents[k])
}

/// The first `n` names of the plan are those of the first `n` fields, and
/// each of them is a parameter or a computed value.
pub open spec fn names_bound(m: MetaV, fields: Seq<FieldModelV>, n: int) -> bool {
    &&& m.field_idents.len() == n
    &&& forall|k: int| 0 <= k < n ==> #[trigger] m.field_idents[k] == field_name(fields[k], k)
    &&& forall|k: int| 0 <= k < n ==> #[trigger] initialised(m, k)
}

proof fn lemma_decision_binds(
    attrs: CtorAttrs,
    cfg: Option<FieldConfigV>,
    ty: Seq<TokV>,
    idx: int,
)
    ensures
        spec_field_decision(attrs, cfg, ty, idx) matches Ok((g, r)) ==> g is Some || r is Some,
{
}

proof fn lemma_step_binds(
    acc: MetaV,
    fields: Seq<FieldModelV>,
    n: int,
    span: Origin,
    g: Option<FieldPropertyV>,
    r: Option<Seq<TokV>>,
)
    requires
        0 <= n < fields.len(),
        names_bound(acc, fields, n),
        g is Some || r is Some,
    ensures
        names_bound(meta_step(acc, field_name(fields[n], n), span, g, r), fields, n + 1),
{
    let id = field_name(fields[n], n);
    let m = meta_step(acc, id, span, g, r);
    assert forall|k: int| 0 <= k < n + 1 implies #[trigger] initialised(m, k) by {
        if k == n {
            match r {
                Some(t) => {
                    let j = acc.parameter_fields.len() as int;
                    assert(m.parameter_fields[j].ident == m.field_idents[k]);
                },
                None => {
                    let j = acc.generated_fields.len() as int;
                    assert(m.generated_fields[j].ident == m.field_idents[k]);
                },
            }
        } else {
            assert(initialised(acc, k));
            assert(m.field_idents[k] == acc.field_idents[k]);
            if exists|j: int|
                0 <= j < acc.parameter_fields.len() && #[trigger] acc.parameter_fields[j].ident
                    == acc.field_idents[k] {
                let j = choose|j: int|
                    0 <= j < acc.parameter_fields.len() && #[trigger] acc.parameter_fields[j].ident
                        == acc.field_idents[k];
                assert(m.parameter_fields[j] == acc.parameter_fields[j]);
            } else {
                let j = choose|j: int|
                    0 <= j < acc.generated_fields.len() && #[trigger] acc.generated_fields[j].ident
                        == acc.field_idents[k];
                assert(m.generated_fields[j] == acc.generated_fields[j]);
            }
        }
    }
    assert forall|k: int| 0 <= k < n + 1 implies #[trigger] m.field_idents[k] == field_name(
        fields[k],
        k,
    ) by {
        if k < n {
            assert(m.field_idents[k] == acc.field_idents[k]);
        }
    }
}

proof fn lemma_meta_binds(
    attrs: CtorAttrs,
    fields: Seq<FieldModelV>,
    idx: int,
    k: int,
    acc: MetaV,
)
    requires
        0 <= k <= fields.len(),
        names_bound(acc, fields, k),
    ensures
        spec_meta_from(attrs, fields, idx, k, acc) matches Ok(m) ==> names_bound(
            m,
            fields,
            fields.len() as int,
        ),
    decreases fields.len() - k,
{
    if k < fields.len() {
        let f = fields[k];
        match spec_field_attrs(f.attrs) {
            Err(_) => {},
            Ok(cfg) => {
                lemma_decision_binds(attrs, cfg, f.ty, idx);
                match spec_field_decision(attrs, cfg, f.ty, idx) {
                    Err(_) => {},
                    Ok((g, r)) => {
                        lemma_step_binds(acc, fields, k, f.span, g, r);
                        lemma_meta_binds(
                            attrs,
                            fields,
                            idx,
                            k + 1,
                            meta_step(acc, field_name(f, k), f.span, g, r),
                        );
                    },
                }
            },
        }
    }
}

/// Every field is initialised: in the plan of any constructor, the names
/// are those of the fields in their order, and each field is taken as a
/// parameter or computed in the body (or both).
pub proof fn law_every_field_initialised(attrs: CtorAttrs, fields: Seq<FieldModelV>, idx: int)
    ensures
        spec_generate_meta(attrs, fields, idx) matches Ok(m) ==> {
            &&& m.field_idents.len() == fields.len()
            &&& forall|k: int|
                0 <= k < fields.len() ==> #[trigger] m.field_idents[k] == field_name(fields[k], k)
            &&& forall|k: int| 0 <= k < fields.len() ==> #[trigger] initialised(m, k)
        },
{
    lemma_meta_binds(attrs, fields, idx, 0, empty_meta());
}

/// A field without configuration whose type does not mention
/// `PhantomData`.
pub open spec fn plain_field(f: FieldModelV) -> bool {
    spec_field_attrs(f.attrs) == Ok::<Option<FieldConfigV>, CtorErrorV>(None)
        && !spec_is_phantom(f.ty)
}

/// Each field as a parameter of its own type.
pub open spec fn plain_params(fields: Seq<FieldModelV>) -> Seq<ParamV> {
    Seq::new(
        fields.len(),
        |k: int| ParamV { ident: field_name(fields[k], k), ty: fields[k].ty, span: fields[k].span },
    )
}

/// The names of all fields.
pub open spec fn plain_names(fields: Seq<FieldModelV>) -> Seq<NameV> {
    Seq::new(fields.len(), |k: int| field_name(fields[k], k))
}

proof fn lemma_plain_meta(fields: Seq<FieldModelV>, idx: int, k: int)
    requires
        0 <= k <= fields.len(),
        forall|j: int| 0 <= j < fields.len() ==> #[trigger] plain_field(fields[j]),
    ensures
        spec_meta_from(
            no_attrs(),
            fields,
            idx,
            k,
            MetaV {
                field_idents: plain_names(fields).take(k),
                parameter_fields: plain_params(fields).take(k),
                generated_fields: seq![],
            },
        ) == Ok::<MetaV, FailureV>(
            MetaV {
                field_idents: plain_names(fields),
                parameter_fields: plain_params(fields),
                generated_fields: seq![],
            },
        ),
    decreases fields.len() - k,
{
    if k < fields.len() {
        let f = fields[k];
        assert(plain_field(fields[k]));
        let acc = MetaV {
            field_idents: plain_names(fields).take(k),
            parameter_fields: plain_params(fields).take(k),
            generated_fields: seq![],
        };
        let next = meta_step(acc, field_name(f, k), f.span, None, Some(f.ty));
        assert(next.field_idents =~= plain_names(fields).take(k + 1));
        assert(next.parameter_fields =~= plain_params(fields).take(k + 1));
        assert(next.generated_fields =~= seq![]);
        lemma_plain_meta(fields, idx, k + 1);
    } else {
        assert(plain_names(fields).take(k) =~= plain_names(fields));
        assert(plain_params(fields).take(k) =~= plain_params(fields));
    }
}

/// A struct without `ctor` attribute whose fields carry no configuration
/// and do not mention `PhantomData` gets exactly one constructor,
/// `pub fn new`, taking every field as a parameter of its own type in the
/// fields' order, and no `Default` implementation.
pub proof fn law_plain_struct_gets_new(
    ident: NameV,
    attrs: Seq<Seq<TokV>>,
    generics: GenericsV,
    fields: Seq<FieldModelV>,
)
    requires
        first_ctor(attrs) is None,
        forall|j: int| 0 <= j < fields.len() ==> #[trigger] plain_field(fields[j]),
    ensures
        spec_struct_output(ident, attrs, generics, fields) == Ok::<Seq<TokV>, FailureV>(
            spec_assemble(
                generics,
                ident,
                seq![
                    method_toks(
                        seq![TokV::Ident("pub"@, Origin::CallSite)],
                        false,
                        NameV { text: "new"@, span: Origin::MixedSite },
                        plain_params(fields),
                        seq![],
                        struct_body(plain_names(fields)),
                    ),
                ],
                None,
            ),
        ),
{
    lemma_plain_meta(fields, 0, 0);
    assert(plain_names(fields).take(0) =~= seq![]);
    assert(plain_params(fields).take(0) =~= seq![]);
    assert(empty_meta() == MetaV {
        field_idents: plain_names(fields).take(0),
        parameter_fields: plain_params(fields).take(0),
        generated_fields: seq![],
    });
    let d = spec_default_definition();
    let defs = seq![d];
    let mt = method_toks(
        d.visibility,
        d.attrs.is_const,
        d.name,
        plain_params(fields),
        seq![],
        struct_body(plain_names(fields)),
    );
    assert(spec_struct_methods(defs, fields, 1, seq![mt], None) == Ok::<
        (Seq<Seq<TokV>>, Option<Seq<TokV>>),
        FailureV,
    >((seq![mt], None)));
    assert(seq![].push(mt) =~= seq![mt]);
}

/// The tokens are a `Default::default` method without parameters.
pub open spec fn parameterless_default(dm: Seq<TokV>) -> bool {
    exists|vis: Seq<TokV>, c: bool, gens: Seq<GenV>, body: Seq<TokV>|
        dm == #[trigger] method_toks(vis, c, default_name(), seq![], gens, body)
}

proof fn lemma_struct_default(
    defs: Seq<DefinitionV>,
    fields: Seq<FieldModelV>,
    k: int,
    ms: Seq<Seq<TokV>>,
    dflt: Option<Seq<TokV>>,
)
    requires
        0 <= k,
        dflt matches Some(dm) ==> parameterless_default(dm),
    ensures
        spec_struct_methods(defs, fields, k, ms, dflt) matches Ok((_, Some(dm)))
            ==> parameterless_default(dm),
    decreases defs.len() - k,
{
    if k < defs.len() {
        let d = defs[k];
        match spec_generate_meta(d.attrs, fields, k) {
            Err(_) => {},
            Ok(m) => {
                let name = if d.attrs.is_default {
                    default_name()
                } else {
                    d.name
                };
                let mt = method_toks(
                    d.visibility,
                    d.attrs.is_const,
                    name,
                    m.parameter_fields,
                    m.generated_fields,
                    struct_body(m.field_idents),
                );
                if d.attrs.is_default {
                    if m.parameter_fields.len() == 0 {
                        assert(m.parameter_fields =~= seq![]);
                        assert(mt == method_toks(
                            d.visibility,
                            d.attrs.is_const,
                            default_name(),
                            seq![],
                            m.generated_fields,
                            struct_body(m.field_idents),
                        ));
                        assert(parameterless_default(mt));
                        lemma_struct_default(defs, fields, k + 1, ms, Some(mt));
                    }
                } else {
                    lemma_struct_default(defs, fields, k + 1, ms.push(mt), dflt);
                }
            },
        }
    }
}

/// A struct's `Default::default` takes no parameters: whenever the
/// constructor list of a struct yields a `Default` method, that method is
/// named `default` and has an empty parameter list.
pub proof fn law_struct_default_takes_no_parameters(
    defs: Seq<DefinitionV>,
    fields: Seq<FieldModelV>,
)
    ensures
        spec_struct_methods(defs, fields, 0, seq![], None) matches Ok((_, Some(dm)))
            ==> parameterless_default(dm),
{
    lemma_struct_default(defs, fields, 0, seq![], None);
}

/// A variant configured `none` gets no constructor: it leaves the methods
/// and the `Default` method of the enum as they are.
pub proof fn law_none_variant_adds_nothing(
    ecfg: PrefixConfigV,
    variants: Seq<VariantV>,
    k: int,
    methods: Seq<Seq<TokV>>,
    dflt: Option<Seq<TokV>>,
)
    requires
        0 <= k < variants.len(),
        spec_variant_cfg(ecfg, variants[k]) matches Ok(c) && c.is_none,
    ensures
        spec_enum_methods(ecfg, variants, k, methods, dflt) == spec_enum_methods(
            ecfg,
            variants,
            k + 1,
            methods,
            dflt,
        ),
{
}

/// A union field configured `none` gets no constructor: it leaves the
/// methods of the union as they are.
pub proof fn law_none_union_field_adds_nothing(
    ucfg: PrefixConfigV,
    fields: Seq<UnionFieldV>,
    k: int,
    methods: Seq<Seq<TokV>>,
)
    requires
        0 <= k < fields.len(),
        spec_union_field_cfg(ucfg, fields[k]) matches Ok(c) && c.is_none,
    ensures
        spec_union_methods(ucfg, fields, k, methods) == spec_union_methods(
            ucfg,
            fields,
            k + 1,
            methods,
        ),
{
}

/// `const VIS NAME` and `VIS const NAME` define the same constructor: for
/// a visibility `vis` (read in full at either place, leaving the same
/// left-over token `pd`) and a name other than `const`, both orders give
/// the same definition and go on after the name.
pub proof fn law_const_and_visibility_commute(
    c: TokV,
    vis: Seq<TokV>,
    name: TokV,
    rest: Seq<TokV>,
    pending: Option<Leftover>,
    pd: Option<Leftover>,
    first: bool,
    end: Origin,
)
    requires
        is_ident_named(c, "const"@),
        vis.len() >= 1,
        !accepted_ident(vis[0]),
        !is_ident_named(vis[0], "const"@),
        accepted_ident(name),
        !is_ident_named(name, "const"@),
        spec_vis(seq![c] + vis + seq![name] + rest, 1, pending, end) == Ok::<
            (int, Option<Leftover>),
            CtorErrorV,
        >((vis.len() as int, pd)),
        spec_vis(vis + seq![c] + seq![name] + rest, 0, pending, end) == Ok::<
            (int, Option<Leftover>),
            CtorErrorV,
        >((vis.len() as int, pd)),
    ensures
        spec_def_item(seq![c] + vis + seq![name] + rest, 0, pending, first, end) == spec_def_item(
            vis + seq![c] + seq![name] + rest,
            0,
            pending,
            first,
            end,
        ),
        spec_def_item(seq![c] + vis + seq![name] + rest, 0, pending, first, end) matches ItemV::Def(
            d,
            p,
            l,
        ) && p == vis.len() + 2 && d.visibility == vis && d.attrs.is_const && l == pd,
{
    let s1 = seq![c] + vis + seq![name] + rest;
    let s2 = vis + seq![c] + seq![name] + rest;
    let n = vis.len() as int;
    assert(s1[0] == c);
    assert(s1[1] == vis[0]);
    assert(s1[n + 1] == name);
    assert(s2[0] == vis[0]);
    assert(s2[n] == c);
    assert(s2[n + 1] == name);
    assert(s1.subrange(1, n + 1) =~= vis);
    assert(s2.subrange(0, n) =~= vis);
}

proof fn lemma_property_end_free(s: Seq<TokV>, pos: int, e1: Origin, e2: Origin)
    ensures
        spec_parse_property(s, pos, e1) is Ok ==> spec_parse_property(s, pos, e1)
            == spec_parse_property(s, pos, e2),
{
}

/// A bare `#[PROPERTY]` attribute configures a field as `#[ctor(PROPERTY)]`
/// does: when the brackets of a non-`ctor` attribute hold exactly one
/// property, and a `ctor` attribute's argument list is the same tokens,
/// both give the field that property for every constructor.
pub proof fn law_bare_attribute_is_ctor_attribute(
    bare: Seq<TokV>,
    ctor: Seq<TokV>,
    prop: Seq<TokV>,
    end: Origin,
)
    requires
        !is_ctor_attr(bare),
        at_any_open(bare, 1),
        group_contents(bare, 1) == prop,
        is_ctor_attr(ctor),
        spec_ctor_args(ctor) == Ok::<(Seq<TokV>, Origin), CtorErrorV>((prop, end)),
        spec_parse_property(prop, 0, Origin::CallSite) matches Ok((_, k, pd)) && k == prop.len()
            && pd is None,
    ensures
        spec_field_attrs(seq![bare]) == spec_field_attrs(seq![ctor]),
        spec_field_attrs(seq![bare]) matches Ok(Some(c)) && c.applications.len() == 0,
{
    lemma_property_end_free(prop, 0, Origin::CallSite, end);
    let p = spec_parse_property(prop, 0, Origin::CallSite)->Ok_0.0;
    assert(spec_bare_property(bare) == Some(p));
    assert(seq![bare][0] == bare);
    assert(seq![ctor][0] == ctor);
    assert(spec_parse_field_config(prop, end) == Ok::<
        (FieldConfigV, int, Option<Leftover>),
        CtorErrorV,
    >((FieldConfigV { property: p, applications: seq![] }, prop.len() as int, None)));
}

/// The parameters, given as field positions `ix`, follow the order of the
/// fields.
pub open spec fn params_in_field_order(m: MetaV, ix: Seq<int>) -> bool {
    &&& ix.len() == m.parameter_fields.len()
    &&& forall|j: int|
        0 <= j < ix.len() ==> 0 <= #[trigger] ix[j] < m.field_idents.len()
            && m.parameter_fields[j].ident == m.field_idents[ix[j]]
    &&& forall|i: int, j: int| 0 <= i < j < ix.len() ==> ix[i] < ix[j]
}

/// The computed fields, given as field positions `ix`, follow the order of
/// the fields.
pub open spec fn gens_in_field_order(m: MetaV, ix: Seq<int>) -> bool {
    &&& ix.len() == m.generated_fields.len()
    &&& forall|j: int|
        0 <= j < ix.len() ==> 0 <= #[trigger] ix[j] < m.field_idents.len()
            && m.generated_fields[j].ident == m.field_idents[ix[j]]
    &&& forall|i: int, j: int| 0 <= i < j < ix.len() ==> ix[i] < ix[j]
}

proof fn lemma_order_step(
    acc: MetaV,
    pix: Seq<int>,
    gix: Seq<int>,
    id: NameV,
    span: Origin,
    g: Option<FieldPropertyV>,
    r: Option<Seq<TokV>>,
)
    requires
        params_in_field_order(acc, pix),
        gens_in_field_order(acc, gix),
    ensures
        params_in_field_order(
            meta_step(acc, id, span, g, r),
            if r is Some {
                pix.push(acc.field_idents.len() as int)
            } else {
                pix
            },
        ),
        gens_in_field_order(
            meta_step(acc, id, span, g, r),
            if g is Some {
                gix.push(acc.field_idents.len() as int)
            } else {
                gix
            },
        ),
{
    let m = meta_step(acc, id, span, g, r);
    let n = acc.field_idents.len() as int;
    let pix2 = if r is Some {
        pix.push(n)
    } else {
        pix
    };
    let gix2 = if g is Some {
        gix.push(n)
    } else {
        gix
    };
    assert forall|j: int| 0 <= j < pix2.len() implies 0 <= #[trigger] pix2[j]
        < m.field_idents.len() && m.parameter_fields[j].ident == m.field_idents[pix2[j]] by {
        if j < pix.len() {
            assert(pix2[j] == pix[j]);
            assert(m.parameter_fields[j] == acc.parameter_fields[j]);
            assert(m.field_idents[pix[j]] == acc.field_idents[pix[j]]);
        }
    }
    assert forall|j: int| 0 <= j < gix2.len() implies 0 <= #[trigger] gix2[j]
        < m.field_idents.len() && m.generated_fields[j].ident == m.field_idents[gix2[j]] by {
        if j < gix.len() {
            assert(gix2[j] == gix[j]);
            assert(m.generated_fields[j] == acc.generated_fields[j]);
            assert(m.field_idents[gix[j]] == acc.field_idents[gix[j]]);
        }
    }
    assert forall|i: int, j: int| 0 <= i < j < pix2.len() implies pix2[i] < pix2[j] by {
        if j < pix.len() {
        } else {
            assert(0 <= pix[i] < n);
        }
    }
    assert forall|i: int, j: int| 0 <= i < j < gix2.len() implies gix2[i] < gix2[j] by {
        if j < gix.len() {
        } else {
            assert(0 <= gix[i] < n);
        }
    }
}

proof fn lemma_meta_order(
    attrs: CtorAttrs,
    fields: Seq<FieldModelV>,
    idx: int,
    k: int,
    acc: MetaV,
    pix: Seq<int>,
    gix: Seq<int>,
) -> (w: (Seq<int>, Seq<int>))
    requires
        0 <= k <= fields.len(),
        params_in_field_order(acc, pix),
        gens_in_field_order(acc, gix),
    ensures
        spec_meta_from(attrs, fields, idx, k, acc) matches Ok(m) ==> params_in_field_order(m, w.0)
            && gens_in_field_order(m, w.1),
    decreases fields.len() - k,
{
    if k < fields.len() {
        let f = fields[k];
        match spec_field_attrs(f.attrs) {
            Err(_) => (pix, gix),
            Ok(cfg) => match spec_field_decision(attrs, cfg, f.ty, idx) {
                Err(_) => (pix, gix),
                Ok((g, r)) => {
                    let id = field_name(f, k);
                    lemma_order_step(acc, pix, gix, id, f.span, g, r);
                    let n = acc.field_idents.len() as int;
                    lemma_meta_order(
                        attrs,
                        fields,
                        idx,
                        k + 1,
                        meta_step(acc, id, f.span, g, r),
                        if r is Some {
                            pix.push(n)
                        } else {
                            pix
                        },
                        if g is Some {
                            gix.push(n)
                        } else {
                            gix
                        },
                    )
                },
            },
        }
    } else {
        (pix, gix)
    }
}

/// The parameters of a constructor, and the values it computes, come in
/// the order of the fields they are for.
pub proof fn law_parameters_follow_field_order(
    attrs: CtorAttrs,
    fields: Seq<FieldModelV>,
    idx: int,
)
    ensures
        spec_generate_meta(attrs, fields, idx) matches Ok(m) ==> (exists|p: Seq<int>|
            params_in_field_order(m, p)) && (exists|q: Seq<int>| gens_in_field_order(m, q)),
{
    let w = lemma_meta_order(attrs, fields, idx, 0, empty_meta(), seq![], seq![]);
    if spec_generate_meta(attrs, fields, idx) is Ok {
        let m = spec_generate_meta(attrs, fields, idx)->Ok_0;
        assert(params_in_field_order(m, w.0));
        assert(gens_in_field_order(m, w.1));
    }
}

/// A delimited group is consumed whole. Where no group stands, a group
/// is reported missing and nothing is consumed. At a group, parsing goes on
/// after its closing marker whatever the outcome: the error points at the
/// group when its delimiter is not the expected one, and otherwise exactly
/// its contents are handed on.
pub proof fn law_consume_delimited(s: Seq<TokV>, p: int, d: Delim, end: Origin)
    requires
        0 <= p,
    ensures
        !at_any_open(s, p) ==> delimited_end(s, p) == p && spec_consume_delimited(s, p, d, end)
            == Err::<(Seq<TokV>, int), CtorErrorV>(
            expected_err(Expected::Group, origin_at(s, p, end)),
        ),
        at_any_open(s, p) ==> delimited_end(s, p) == tree_end(s, p) && p < tree_end(s, p)
            <= s.len(),
        at_any_open(s, p) && !at_open(s, p, d) ==> spec_consume_delimited(s, p, d, end) == Err::<
            (Seq<TokV>, int),
            CtorErrorV,
        >(CtorErrorV::EnclosingDelimiter { expected: d, at: origin_of(s[p]) }),
        at_open(s, p, d) ==> spec_consume_delimited(s, p, d, end) == Ok::<
            (Seq<TokV>, int),
            CtorErrorV,
        >((group_contents(s, p), delimited_end(s, p))) && group_contents(s, p).len()
            < delimited_end(s, p) - p,
{
    if at_any_open(s, p) {
        lemma_tree_end_bounds(s, p);
        lemma_group_close_bounds(s, p);
    }
}

proof fn lemma_first_ctor_from(attrs: Seq<Seq<TokV>>, i: int)
    requires
        0 <= i,
    ensures
        first_ctor_from(attrs, i) matches Some(k) ==> i <= k < attrs.len() && is_ctor_attr(
            attrs[k],
        ) && forall|j: int| i <= j < k ==> !is_ctor_attr(#[trigger] attrs[j]),
        first_ctor_from(attrs, i) is None ==> forall|j: int|
            i <= j < attrs.len() ==> !is_ctor_attr(#[trigger] attrs[j]),
    decreases attrs.len() - i,
{
    if i < attrs.len() && !is_ctor_attr(attrs[i]) {
        lemma_first_ctor_from(attrs, i + 1);
    }
}

/// The configuration of an item comes from its first `ctor` attribute
/// alone: the one at `k`, when no `ctor` attribute stands before it, gives
/// the parse of its own arguments whatever the other attributes are; with
/// no `ctor` attribute at all, a struct, variant or union field has no
/// list of its own, and an enum or union the default configuration.
pub proof fn law_first_ctor_attribute_configures(
    attrs: Seq<Seq<TokV>>,
    k: int,
    group: PropertyGroup,
)
    ensures
        (forall|j: int| 0 <= j < attrs.len() ==> !is_ctor_attr(#[trigger] attrs[j])) ==> {
            &&& spec_struct_config_of(attrs) is None
            &&& spec_prefix_config_of(attrs, group) == Ok::<PrefixConfigV, CtorErrorV>(
                spec_default_prefix_config(),
            )
        },
        0 <= k < attrs.len() && is_ctor_attr(attrs[k]) && (forall|j: int|
            0 <= j < k ==> !is_ctor_attr(#[trigger] attrs[j])) ==> {
            &&& spec_struct_config_of(attrs) == Some(
                match spec_ctor_args(attrs[k]) {
                    Err(e) => Err(e),
                    Ok((args, end)) => spec_struct_config_args(args, end),
                },
            )
            &&& spec_prefix_config_of(attrs, group) == match spec_ctor_args(attrs[k]) {
                Err(e) => Err(e),
                Ok((args, end)) => spec_prefix_config_args(args, end, group),
            }
        },
{
    lemma_first_ctor_from(attrs, 0);
    match first_ctor(attrs) {
        Some(i) => {
            if 0 <= k < attrs.len() && is_ctor_attr(attrs[k]) && (forall|j: int|
                0 <= j < k ==> !is_ctor_attr(#[trigger] attrs[j])) {
                if i < k {
                    assert(!is_ctor_attr(attrs[i]));
                } else if k < i {
                    assert(!is_ctor_attr(attrs[k]));
                }
            }
            if forall|j: int| 0 <= j < attrs.len() ==> !is_ctor_attr(#[trigger] attrs[j]) {
                assert(!is_ctor_attr(attrs[i]));
            }
        },
        None => {
            if 0 <= k < attrs.len() && is_ctor_attr(attrs[k]) {
                assert(!is_ctor_attr(attrs[k]));
            }
        },
    }
}

/// A struct's code is written in two steps: its constructor list is read
/// (the default one, `pub fn new`, without a `ctor` attribute), and an
/// error in it is the outcome; else the code for that list.
pub proof fn law_struct_output_in_two_steps(
    ident: NameV,
    attrs: Seq<Seq<TokV>>,
    generics: GenericsV,
    fields: Seq<FieldModelV>,
)
    ensures
        spec_struct_output(ident, attrs, generics, fields) == match spec_struct_config_of(attrs) {
            None => spec_struct_impl(ident, generics, fields, spec_default_struct_config()),
            Some(Err(e)) => Err(FailureV::Error(e)),
            Some(Ok(c)) => spec_struct_impl(ident, generics, fields, c),
        },
{
}

/// An enum's code is written in two steps: its configuration is read, and
/// an error in it is the outcome; else the code for its variants under
/// that configuration.
pub proof fn law_enum_output_in_two_steps(
    ident: NameV,
    attrs: Seq<Seq<TokV>>,
    generics: GenericsV,
    variants: Seq<VariantV>,
)
    ensures
        spec_enum_output(ident, attrs, generics, variants) == match spec_prefix_config_of(
            attrs,
            PropertyGroup::Enum,
        ) {
            Err(e) => Err(FailureV::Error(e)),
            Ok(c) => spec_ctor_enum_impl(ident, generics, variants, c),
        },
{
}

/// A union's code is written in two steps: its configuration is read, and
/// an error in it is the outcome; else the code for its fields under that
/// configuration.
pub proof fn law_union_output_in_two_steps(
    ident: NameV,
    attrs: Seq<Seq<TokV>>,
    generics: GenericsV,
    fields: Seq<UnionFieldV>,
)
    ensures
        spec_union_output(ident, attrs, generics, fields) == match spec_prefix_config_of(
            attrs,
            PropertyGroup::Union,
        ) {
            Err(e) => Err(FailureV::Error(e)),
            Ok(c) => spec_ctor_union_impl(ident, generics, fields, c),
        },
{
}

/// The method that a struct definition gives under its plan `m`: named
/// `default` for a `default` definition, else by its own name.
pub open spec fn struct_def_method(d: DefinitionV, m: MetaV) -> Seq<TokV> {
    method_toks(
        d.visibility,
        d.attrs.is_const,
        if d.attrs.is_default {
            default_name()
        } else {
            d.name
        },
        m.parameter_fields,
        m.generated_fields,
        struct_body(m.field_idents),
    )
}

/// The methods of those of the first `n` definitions that are not
/// `default`, in their order.
pub open spec fn listed_methods(defs: Seq<DefinitionV>, ms: Seq<MetaV>, n: int) -> Seq<Seq<TokV>>
    decreases n,
{
    if n <= 0 {
        seq![]
    } else if defs[n - 1].attrs.is_default {
        listed_methods(defs, ms, n - 1)
    } else {
        listed_methods(defs, ms, n - 1).push(struct_def_method(defs[n - 1], ms[n - 1]))
    }
}

/// The method of the last `default` definition among the first `n`, if
/// any.
pub open spec fn last_default_method(defs: Seq<DefinitionV>, ms: Seq<MetaV>, n: int) -> Option<
    Seq<TokV>,
>
    decreases n,
{
    if n <= 0 {
        None
    } else if defs[n - 1].attrs.is_default {
        Some(struct_def_method(defs[n - 1], ms[n - 1]))
    } else {
        last_default_method(defs, ms, n - 1)
    }
}

/// `ms` are the plans of the definitions, one each, and the plan of every
/// `default` definition takes no parameter.
pub open spec fn plans_fit(defs: Seq<DefinitionV>, fields: Seq<FieldModelV>, ms: Seq<MetaV>) -> bool {
    &&& ms.len() == defs.len()
    &&& forall|j: int|
        0 <= j < defs.len() ==> spec_generate_meta(#[trigger] defs[j].attrs, fields, j) == Ok::<
            MetaV,
            FailureV,
        >(ms[j])
    &&& forall|j: int|
        0 <= j < defs.len() && #[trigger] defs[j].attrs.is_default ==> ms[j].parameter_fields.len()
            == 0
}

proof fn lemma_struct_methods_closed(
    defs: Seq<DefinitionV>,
    fields: Seq<FieldModelV>,
    ms: Seq<MetaV>,
    k: int,
)
    requires
        0 <= k <= defs.len(),
        plans_fit(defs, fields, ms),
    ensures
        spec_struct_methods(
            defs,
            fields,
            k,
            listed_methods(defs, ms, k),
            last_default_method(defs, ms, k),
        ) == Ok::<(Seq<Seq<TokV>>, Option<Seq<TokV>>), FailureV>(
            (
                listed_methods(defs, ms, defs.len() as int),
                last_default_method(defs, ms, defs.len() as int),
            ),
        ),
    decreases defs.len() - k,
{
    if k < defs.len() {
        assert(spec_generate_meta(defs[k].attrs, fields, k) == Ok::<MetaV, FailureV>(ms[k]));
        assert(listed_methods(defs, ms, k + 1) == if defs[k].attrs.is_default {
            listed_methods(defs, ms, k)
        } else {
            listed_methods(defs, ms, k).push(struct_def_method(defs[k], ms[k]))
        });
        lemma_struct_methods_closed(defs, fields, ms, k + 1);
    }
}

/// The code for a struct in closed form: when every definition has a plan
/// and the plans of the `default` definitions take no parameter, the
/// inherent `impl` holds the methods of the other definitions in their
/// order, and the `impl Default` the method of the last `default`
/// definition (none without one).
pub proof fn law_struct_impl_closed_form(
    ident: NameV,
    generics: GenericsV,
    fields: Seq<FieldModelV>,
    cfg: StructConfigV,
    ms: Seq<MetaV>,
)
    requires
        plans_fit(cfg.definitions, fields, ms),
    ensures
        spec_struct_impl(ident, generics, fields, cfg) == Ok::<Seq<TokV>, FailureV>(
            spec_assemble(
                generics,
                ident,
                listed_methods(cfg.definitions, ms, cfg.definitions.len() as int),
                last_default_method(cfg.definitions, ms, cfg.definitions.len() as int),
            ),
        ),
{
    lemma_struct_methods_closed(cfg.definitions, fields, ms, 0);
}

/// What reading the first `ctor` attribute gives, for any reading `parse`
/// of an argument list: that attribute's arguments read with `parse` (or
/// the error for an attribute without arguments), and `default` when the
/// item has no `ctor` attribute.
pub open spec fn spec_parse_attributes_with_default<T>(
    attrs: Seq<Seq<TokV>>,
    parse: spec_fn(Seq<TokV>, Origin) -> Result<T, CtorErrorV>,
    default: T,
) -> Result<T, CtorErrorV> {
    match first_ctor(attrs) {
        None => Ok(default),
        Some(k) => match spec_ctor_args(attrs[k]) {
            Err(e) => Err(e),
            Ok((args, end)) => parse(args, end),
        },
    }
}

/// For any reading of an argument list, the first `ctor` attribute alone
/// decides: with the first one at `k`, the outcome is that attribute's
/// arguments read once, whatever the other attributes are, and the default
/// does not enter; with none, the outcome is the default.
pub proof fn law_parse_attributes_with_default<T>(
    attrs: Seq<Seq<TokV>>,
    parse: spec_fn(Seq<TokV>, Origin) -> Result<T, CtorErrorV>,
    default: T,
    k: int,
)
    ensures
        (forall|j: int| 0 <= j < attrs.len() ==> !is_ctor_attr(#[trigger] attrs[j]))
            ==> spec_parse_attributes_with_default(attrs, parse, default) == Ok::<T, CtorErrorV>(
            default,
        ),
        0 <= k < attrs.len() && is_ctor_attr(attrs[k]) && (forall|j: int|
            0 <= j < k ==> !is_ctor_attr(#[trigger] attrs[j])) ==> forall|other: T|
            spec_parse_attributes_with_default(attrs, parse, default)
                == #[trigger] spec_parse_attributes_with_default(attrs, parse, other)
                && spec_parse_attributes_with_default(attrs, parse, default) == match spec_ctor_args(
                attrs[k],
            ) {
                Err(e) => Err(e),
                Ok((args, end)) => parse(args, end),
            },
{
    lemma_first_ctor_from(attrs, 0);
    match first_ctor(attrs) {
        Some(i) => {
            if 0 <= k < attrs.len() && is_ctor_attr(attrs[k]) && (forall|j: int|
                0 <= j < k ==> !is_ctor_attr(#[trigger] attrs[j])) {
                if i < k {
                    assert(!is_ctor_attr(attrs[i]));
                } else if k < i {
                    assert(!is_ctor_attr(attrs[k]));
                }
            }
            if forall|j: int| 0 <= j < attrs.len() ==> !is_ctor_attr(#[trigger] attrs[j]) {
                assert(!is_ctor_attr(attrs[i]));
            }
        },
        None => {},
    }
}

/// The configurations of structs, enums and unions are each read by that
/// rule: an enum's or union's with its own list grammar and the default
/// configuration, a struct's with the constructor list grammar and the
/// default `pub fn new`.
pub proof fn law_configurations_follow_the_first_ctor_rule(
    attrs: Seq<Seq<TokV>>,
    group: PropertyGroup,
)
    ensures
        spec_prefix_config_of(attrs, group) == spec_parse_attributes_with_default(
            attrs,
            |args: Seq<TokV>, end: Origin| spec_prefix_config_args(args, end, group),
            spec_default_prefix_config(),
        ),
        (match spec_struct_config_of(attrs) {
            None => Ok(spec_default_struct_config()),
            Some(c) => c,
        }) == spec_parse_attributes_with_default(
            attrs,
            |args: Seq<TokV>, end: Origin| spec_struct_config_args(args, end),
            spec_default_struct_config(),
        ),
{
}

/// Both `impl` blocks of a derive are written with the type's full
/// generics: `impl IMPL_GENERICS [Default for] NAME TYPE_ARGS WHERE { ... }`,
/// the inherent one and the `Default` one alike.
pub proof fn law_impl_blocks_carry_the_generics(
    g: GenericsV,
    ident: NameV,
    items: Seq<TokV>,
)
    ensures
        impl_toks(g, ident, false, items) == seq![cs_ident("impl"@)] + g.impl_generics + seq![
            name_tok(ident),
        ] + g.ty_generics + g.where_clause + seq![cs_open(Delim::Brace)] + items + seq![
            cs_close(Delim::Brace),
        ],
        impl_toks(g, ident, true, items) == seq![cs_ident("impl"@)] + g.impl_generics + seq![
            cs_ident("Default"@),
            cs_ident("for"@),
            name_tok(ident),
        ] + g.ty_generics + g.where_clause + seq![cs_open(Delim::Brace)] + items + seq![
            cs_close(Delim::Brace),
        ],
{
    assert(impl_toks(g, ident, false, items) =~= seq![cs_ident("impl"@)] + g.impl_generics
        + seq![name_tok(ident)] + g.ty_generics + g.where_clause + seq![cs_open(Delim::Brace)]
        + items + seq![cs_close(Delim::Brace)]);
    assert(impl_toks(g, ident, true, items) =~= seq![cs_ident("impl"@)] + g.impl_generics + seq![
        cs_ident("Default"@),
        cs_ident("for"@),
        name_tok(ident),
    ] + g.ty_generics + g.where_clause + seq![cs_open(Delim::Brace)] + items + seq![
        cs_close(Delim::Brace),
    ]);
}

/// A field's own configuration decides how a constructor that it applies
/// to treats it, unless the constructor asks for `default(all)`: the field
/// gets that configuration's property, the constructor's `into` marker (and
/// its other markers) change nothing, a `default` field takes no parameter,
/// and an `expr` field takes exactly the parameter the expression asks for.
pub proof fn law_field_configuration_decides(
    attrs: CtorAttrs,
    cfg: FieldConfigV,
    ty: Seq<TokV>,
    i: int,
)
    requires
        !attrs.default_all,
        0 <= i,
        cfg.applications.len() == 0 || cfg.applications.contains(i as usize),
    ensures
        forall|other: CtorAttrs|
            !other.default_all ==> #[trigger] spec_field_decision(other, Some(cfg), ty, i)
                == spec_field_decision(attrs, Some(cfg), ty, i),
        spec_field_decision(attrs, Some(cfg), ty, i) matches Ok((g, _)) ==> g == Some(
            cfg.property,
        ),
        cfg.property == FieldPropertyV::Default ==> spec_field_decision(attrs, Some(cfg), ty, i)
            == Ok::<(Option<FieldPropertyV>, Option<Seq<TokV>>), AbortV>(
            (Some(FieldPropertyV::Default), None),
        ),
        cfg.property matches FieldPropertyV::Expression { input_type, self_referencing, .. }
            ==> spec_field_decision(attrs, Some(cfg), ty, i) == Ok::<
            (Option<FieldPropertyV>, Option<Seq<TokV>>),
            AbortV,
        >(
            (
                Some(cfg.property),
                if input_type is Some {
                    input_type
                } else if self_referencing {
                    Some(ty)
                } else {
                    None
                },
            ),
        ),
{
}

/// The number of definitions from index `i` on that are not `default`.
pub open spec fn plain_def_count(defs: Seq<DefinitionV>, i: int) -> nat
    decreases defs.len() - i,
{
    if i < 0 || i >= defs.len() {
        0
    } else {
        (if defs[i].attrs.is_default {
            0nat
        } else {
            1nat
        }) + plain_def_count(defs, i + 1)
    }
}

/// Every definition of a variant's constructor list gives a method: the
/// methods so far stay in front, one method is added per definition that
/// is not `default`, and a `default` definition, when there is one, gives
/// the `Default` method.
pub proof fn law_every_variant_definition_gives_a_method(
    v: VariantV,
    defs: Seq<DefinitionV>,
    i: int,
    ms: Seq<Seq<TokV>>,
    d: Option<Seq<TokV>>,
)
    requires
        0 <= i,
    ensures
        spec_variant_methods(v, defs, i, ms, d) matches Ok((ms2, d2)) ==> {
            &&& ms2.len() == ms.len() + plain_def_count(defs, i)
            &&& ms2.subrange(0, ms.len() as int) == ms
            &&& (d is Some ==> d2 is Some)
            &&& ((exists|j: int| i <= j < defs.len() && #[trigger] defs[j].attrs.is_default)
                ==> d2 is Some)
        },
    decreases defs.len() - i,
{
    if i < defs.len() {
        let dd = defs[i];
        match spec_generate_meta(dd.attrs, v.fields, i) {
            Err(_) => {},
            Ok(m) => match crate::enums::spec_convert_to_snakecase(dd.name) {
                Err(_) => {},
                Ok(name) => {
                    let mt = method_toks(
                        dd.visibility,
                        dd.attrs.is_const,
                        name,
                        m.parameter_fields,
                        m.generated_fields,
                        crate::generate::variant_body(v.ident, v.style, m.field_idents),
                    );
                    if dd.attrs.is_default {
                        law_every_variant_definition_gives_a_method(v, defs, i + 1, ms, Some(mt));
                    } else {
                        law_every_variant_definition_gives_a_method(
                            v,
                            defs,
                            i + 1,
                            ms.push(mt),
                            d,
                        );
                        if spec_variant_methods(v, defs, i, ms, d) is Ok {
                            let ms2 = spec_variant_methods(v, defs, i, ms, d)->Ok_0.0;
                            assert(ms2.subrange(0, ms.len() as int) =~= ms.push(mt).subrange(
                                0,
                                ms.len() as int,
                            ));
                            assert(ms2.subrange(0, ms.len() as int) =~= ms);
                        }
                        if exists|j: int| i <= j < defs.len() && #[trigger] defs[j].attrs.is_default {
                            let j = choose|j: int|
                                i <= j < defs.len() && #[trigger] defs[j].attrs.is_default;
                            assert(j != i);
                            assert(i + 1 <= j < defs.len() && defs[j].attrs.is_default);
                        }
                    }
                },
            },
        }
    }
}

/// A `vis = VIS` (or `visibility = VIS`) entry sets the default
/// visibility, and a `prefix = NAME` entry the prefix, whatever the
/// configuration held before, and neither touches the other.
pub proof fn law_configuration_entries_set_their_value(
    cfg: PrefixConfigV,
    v: Seq<TokV>,
    n: NameV,
)
    ensures
        apply_item(cfg, PrefixItemV::Visibility(v)).default_visibility == v,
        apply_item(cfg, PrefixItemV::Visibility(v)).prefix == cfg.prefix,
        apply_item(cfg, PrefixItemV::Prefix(n)).prefix == Some(n),
        apply_item(cfg, PrefixItemV::Prefix(n)).default_visibility == cfg.default_visibility,
{
}

/// An enum or union configuration that is one `vis = VIS` entry gives the
/// methods that visibility and no prefix.
pub proof fn law_visibility_entry_alone(
    kw: TokV,
    eq: TokV,
    vis: Seq<TokV>,
    end: Origin,
    group: PropertyGroup,
)
    requires
        accepted_ident(kw),
        is_ident_named(kw, "vis"@) || is_ident_named(kw, "visibility"@),
        is_punct_char(eq, '='),
        spec_vis(seq![kw, eq] + vis, 2, None, end) == Ok::<(int, Option<Leftover>), CtorErrorV>(
            (vis.len() as int, None),
        ),
    ensures
        spec_prefix_config_args(seq![kw, eq] + vis, end, group) == Ok::<PrefixConfigV, CtorErrorV>(
            PrefixConfigV { prefix: None, default_visibility: vis },
        ),
{
    let s = seq![kw, eq] + vis;
    assert(s[0] == kw);
    assert(s[1] == eq);
    assert(s.subrange(2, 2 + vis.len() as int) =~= vis);
}

/// The token trees at the top level of `s` that the scan for `PhantomData`
/// meets from `from` on: `i` is one of them.
pub open spec fn reaches(s: Seq<TokV>, from: int, i: int) -> bool
    decreases s.len() - from,
{
    if from < 0 || from >= s.len() {
        false
    } else if from == i {
        true
    } else {
        proof {
            lemma_tree_end_bounds(s, from);
        }
        reaches(s, tree_end(s, from), i)
    }
}

proof fn lemma_reached_phantom(s: Seq<TokV>, from: int, i: int)
    requires
        0 <= from,
        reaches(s, from, i),
        0 <= i < s.len(),
        is_ident_named(s[i], "PhantomData"@),
    ensures
        phantom_from(s, from),
    decreases s.len() - from,
{
    if from != i {
        lemma_tree_end_bounds(s, from);
        if !is_ident_named(s[from], "PhantomData"@) {
            lemma_reached_phantom(s, tree_end(s, from), i);
        }
    }
}

/// Any top-level token tree of a type that is the identifier
/// `PhantomData` makes the type a phantom type, whatever stands before it.
pub proof fn law_phantom_anywhere_at_top_level(ty: Seq<TokV>, i: int)
    requires
        reaches(ty, 0, i),
        0 <= i < ty.len(),
        is_ident_named(ty[i], "PhantomData"@),
    ensures
        spec_is_phantom(ty),
{
    lemma_reached_phantom(ty, 0, i);
}

proof fn lemma_close_from_shift(pre: Seq<TokV>, ty: Seq<TokV>, j: int, depth: nat)
    requires
        0 <= j,
    ensures
        close_from(pre + ty, pre.len() + j, depth) == pre.len() + close_from(ty, j, depth),
    decreases ty.len() - j,
{
    let s = pre + ty;
    if j < ty.len() {
        assert(s[pre.len() + j] == ty[j]);
        match ty[j] {
            TokV::Open(_, _) => lemma_close_from_shift(pre, ty, j + 1, depth + 1),
            TokV::Close(_, _) => if depth != 0 {
                lemma_close_from_shift(pre, ty, j + 1, (depth - 1) as nat);
            },
            _ => lemma_close_from_shift(pre, ty, j + 1, depth),
        }
    }
}

proof fn lemma_phantom_shift(pre: Seq<TokV>, ty: Seq<TokV>, j: int)
    requires
        0 <= j,
    ensures
        phantom_from(pre + ty, pre.len() + j) == phantom_from(ty, j),
    decreases ty.len() - j,
{
    let s = pre + ty;
    if j < ty.len() {
        assert(s[pre.len() + j] == ty[j]);
        lemma_close_from_shift(pre, ty, j + 1, 0);
        assert(tree_end(s, pre.len() + j) == pre.len() + tree_end(ty, j));
        lemma_tree_end_bounds(ty, j);
        lemma_phantom_shift(pre, ty, tree_end(ty, j));
    }
}

proof fn lemma_phantom_after_prefix(pre: Seq<TokV>, ty: Seq<TokV>, i: int)
    requires
        0 <= i <= pre.len(),
        forall|k: int| 0 <= k < pre.len() ==> !(#[trigger] pre[k] is Open),
        spec_is_phantom(ty),
    ensures
        phantom_from(pre + ty, i),
    decreases pre.len() - i,
{
    if i == pre.len() {
        lemma_phantom_shift(pre, ty, 0);
    } else {
        let s = pre + ty;
        assert(s[i] == pre[i]);
        assert(!(pre[i] is Open));
        assert(tree_end(s, i) == i + 1);
        lemma_phantom_after_prefix(pre, ty, i + 1);
    }
}

/// Putting tokens without groups in front of a phantom type, such as the
/// path `std::marker::`, keeps it a phantom type.
pub proof fn law_phantom_behind_a_path(pre: Seq<TokV>, ty: Seq<TokV>)
    requires
        forall|k: int| 0 <= k < pre.len() ==> !(#[trigger] pre[k] is Open),
        spec_is_phantom(ty),
    ensures
        spec_is_phantom(pre + ty),
{
    lemma_phantom_after_prefix(pre, ty, 0);
}

/// The code of a derive is the inherent `impl` with all methods in order,
/// followed by the `impl Default` with the `Default` method when there is
/// one, and nothing more.
pub proof fn law_assembled_code(
    g: GenericsV,
    ident: NameV,
    methods: Seq<Seq<TokV>>,
    dflt: Option<Seq<TokV>>,
)
    ensures
        dflt is None ==> spec_assemble(g, ident, methods, dflt) == impl_toks(
            g,
            ident,
            false,
            concat_all(methods),
        ),
        dflt matches Some(dm) ==> spec_assemble(g, ident, methods, dflt) == impl_toks(
            g,
            ident,
            false,
            concat_all(methods),
        ) + impl_toks(g, ident, true, dm),
{
    if dflt is None {
        assert(spec_assemble(g, ident, methods, dflt) =~= impl_toks(
            g,
            ident,
            false,
            concat_all(methods),
        ));
    }
}

/// A field without configuration: under `default(all)` it is computed by
/// `Default::default()`; else under `(into)` it is taken as `impl Into<T>`
/// and converted; else a `PhantomData` field is defaulted and any other is
/// a parameter of its own type.
pub proof fn law_field_without_configuration(attrs: CtorAttrs, ty: Seq<TokV>, i: int)
    ensures
        attrs.default_all ==> spec_field_decision(attrs, None, ty, i) == Ok::<
            (Option<FieldPropertyV>, Option<Seq<TokV>>),
            AbortV,
        >((Some(FieldPropertyV::Default), None)),
        !attrs.default_all && attrs.into_all ==> match spec_field_decision(attrs, None, ty, i) {
            Ok((g, r)) => g == Some(FieldPropertyV::Into) && r == Some(into_type(ty)),
            Err(a) => a == AbortV::IntoType,
        },
        !attrs.default_all && !attrs.into_all && spec_is_phantom(ty) ==> spec_field_decision(
            attrs,
            None,
            ty,
            i,
        ) == Ok::<(Option<FieldPropertyV>, Option<Seq<TokV>>), AbortV>(
            (Some(FieldPropertyV::Default), None),
        ),
        !attrs.default_all && !attrs.into_all && !spec_is_phantom(ty) ==> spec_field_decision(
            attrs,
            None,
            ty,
            i,
        ) == Ok::<(Option<FieldPropertyV>, Option<Seq<TokV>>), AbortV>((None, Some(ty))),
{
}

/// A field whose configuration lists other constructors than this one is
/// treated there like a plain field, whatever the constructor's `into`
/// marker: defaulted when its type is a `PhantomData`, else a parameter of
/// its own type. Under `default(all)`, a property that needs an argument
/// gives way to `Default::default()`.
pub proof fn law_field_configuration_elsewhere(
    attrs: CtorAttrs,
    cfg: FieldConfigV,
    ty: Seq<TokV>,
    i: int,
)
    requires
        0 <= i,
    ensures
        attrs.default_all && !spec_is_generated(cfg.property) ==> spec_field_decision(
            attrs,
            Some(cfg),
            ty,
            i,
        ) == Ok::<(Option<FieldPropertyV>, Option<Seq<TokV>>), AbortV>(
            (Some(FieldPropertyV::Default), None),
        ),
        !(attrs.default_all && !spec_is_generated(cfg.property)) && cfg.applications.len() > 0
            && !cfg.applications.contains(i as usize) ==> spec_field_decision(
            attrs,
            Some(cfg),
            ty,
            i,
        ) == Ok::<(Option<FieldPropertyV>, Option<Seq<TokV>>), AbortV>(
            if spec_is_phantom(ty) {
                (Some(FieldPropertyV::Default), None)
            } else {
                (None, Some(ty))
            },
        ),
{
}

/// A union field gets one constructor per definition of its list, in the
/// list's order, each taking the field itself.
pub proof fn law_union_field_methods(f: UnionFieldV, defs: Seq<DefinitionV>)
    ensures
        union_field_methods(f, defs).len() == defs.len(),
        forall|j: int|
            0 <= j < defs.len() ==> #[trigger] union_field_methods(f, defs)[j] == union_method(
                defs[j],
                f,
            ),
{
}

/// An enum or union configuration that is one `prefix = NAME` entry keeps
/// the default visibility and sets the prefix to that name.
pub proof fn law_prefix_entry_alone(
    kw: TokV,
    eq: TokV,
    nm: TokV,
    end: Origin,
    group: PropertyGroup,
)
    requires
        accepted_ident(kw),
        is_ident_named(kw, "prefix"@),
        is_punct_char(eq, '='),
        accepted_ident(nm),
    ensures
        spec_prefix_config_args(seq![kw, eq, nm], end, group) == Ok::<PrefixConfigV, CtorErrorV>(
            PrefixConfigV {
                prefix: Some(name_of(nm)),
                default_visibility: spec_default_prefix_config().default_visibility,
            },
        ),
{
    let s = seq![kw, eq, nm];
    assert(s[0] == kw);
    assert(s[1] == eq);
    assert(s[2] == nm);
    assert(!("prefix"@ =~= "vis"@)) by {
        reveal_strlit("prefix");
        reveal_strlit("vis");
    }
    assert(!("prefix"@ =~= "visibility"@)) by {
        reveal_strlit("prefix");
        reveal_strlit("visibility");
    }
}

proof fn lemma_phantom_has_a_witness(s: Seq<TokV>, from: int)
    requires
        0 <= from,
        phantom_from(s, from),
    ensures
        exists|i: int|
            reaches(s, from, i) && 0 <= i < s.len() && #[trigger] is_ident_named(
                s[i],
                "PhantomData"@,
            ),
    decreases s.len() - from,
{
    if is_ident_named(s[from], "PhantomData"@) {
        assert(reaches(s, from, from));
    } else {
        lemma_tree_end_bounds(s, from);
        lemma_phantom_has_a_witness(s, tree_end(s, from));
        let i = choose|i: int|
            reaches(s, tree_end(s, from), i) && 0 <= i < s.len() && #[trigger] is_ident_named(
                s[i],
                "PhantomData"@,
            );
        assert(i != from);
        assert(reaches(s, from, i));
    }
}

/// A type is a phantom type only because of a top-level token tree that is
/// the identifier `PhantomData`: with none, it is not one.
pub proof fn law_phantom_needs_phantom_data(ty: Seq<TokV>)
    ensures
        spec_is_phantom(ty) ==> exists|i: int|
            reaches(ty, 0, i) && 0 <= i < ty.len() && #[trigger] is_ident_named(
                ty[i],
                "PhantomData"@,
            ),
{
    if spec_is_phantom(ty) {
        lemma_phantom_has_a_witness(ty, 0);
    }
}

} // verus!
