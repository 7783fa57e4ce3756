//! Constructors for the fields of a union: one method per field (or per
//! listed constructor), taking that field's value.
use vstd::prelude::*;
use crate::attrs::attrs_view;
use crate::enums::{
    from_prefix, prefix_config_from_attrs, spec_from_prefix, spec_prefix_config_of, PrefixConfigV,
    PrefixConfiguration,
};
use crate::error::{CtorErrorV, Failure, FailureV, PropertyGroup};
use crate::generate::{
    assemble, cs_close, cs_close_exec, cs_ident, cs_ident_exec, cs_open, cs_open_exec, cs_punct,
    name_tok, spec_assemble, toks_list_view, GenericsModel, GenericsV,
};
use crate::structs::{
    defs_view, spec_struct_config_of, struct_config_from_attrs, Definition, DefinitionV,
    StructConfigV,
};
use crate::syntax::{Name, NameV};
use crate::tokens::{extend_toks, punct_tok, push_tok, tv, Delim, Tok, TokV};

verus! {

/// A field of a union: its name, type tokens and attributes.
pub struct UnionField {
    pub ident: Name,
    pub ty: Vec<Tok>,
    pub attrs: Vec<Vec<Tok>>,
}

/// The value of a [`UnionField`].
pub struct UnionFieldV {
    pub ident: NameV,
    pub ty: Seq<TokV>,
    pub attrs: Seq<Seq<TokV>>,
}

impl View for UnionField {
    type V = UnionFieldV;

    open spec fn view(&self) -> UnionFieldV {
        UnionFieldV { ident: self.ident@, ty: tv(&self.ty), attrs: attrs_view(self.attrs@) }
    }
}

/// The values of a sequence of union fields.
pub open spec fn union_fields_view(s: Seq<UnionField>) -> Seq<UnionFieldV> {
    s.map_values(|f: UnionField| f@)
}

/// A union constructor:
/// `VIS [const] fn NAME(FIELD: TYPE) -> Self { Self { FIELD } }`.
pub open spec fn union_method(d: DefinitionV, f: UnionFieldV) -> Seq<TokV> {
    d.visibility + (if d.attrs.is_const {
        seq![cs_ident("const"@)]
    } else {
        seq![]
    }) + seq![
        cs_ident("fn"@),
        name_tok(d.name),
        cs_open(Delim::Paren),
        name_tok(f.ident),
        cs_punct(':', false),
    ] + f.ty + seq![
        cs_close(Delim::Paren),
        cs_punct('-', true),
        cs_punct('>', false),
        cs_ident("Self"@),
        cs_open(Delim::Brace),
        cs_ident("Self"@),
        cs_open(Delim::Brace),
        name_tok(f.ident),
        cs_close(Delim::Brace),
        cs_close(Delim::Brace),
    ]
}

/// The constructor list of a union field: its own `ctor` attribute, or the
/// default one from the union's configuration.
pub open spec fn spec_union_field_cfg(ucfg: PrefixConfigV, f: UnionFieldV) -> Result<
    StructConfigV,
    FailureV,
> {
    match spec_struct_config_of(f.attrs) {
        None => match spec_from_prefix(ucfg, f.ident) {
            Ok(c) => Ok(c),
            Err(a) => Err(FailureV::Abort(a)),
        },
        Some(Ok(c)) => Ok(c),
        Some(Err(e)) => Err(FailureV::Error(e)),
    }
}

/// The constructors of one union field, one per definition.
pub open spec fn union_field_methods(f: UnionFieldV, defs: Seq<DefinitionV>) -> Seq<Seq<TokV>> {
    defs.map_values(|d: DefinitionV| union_method(d, f))
}

/// The methods of the fields from index `k` on, after `methods`; a field
/// configured `none` gets none.
pub open spec fn spec_union_methods(
    ucfg: PrefixConfigV,
    fields: Seq<UnionFieldV>,
    k: int,
    methods: Seq<Seq<TokV>>,
) -> Result<Seq<Seq<TokV>>, FailureV>
    decreases fields.len() - k,
{
    if k < 0 || k >= fields.len() {
        Ok(methods)
    } else {
        match spec_union_field_cfg(ucfg, fields[k]) {
            Err(f) => Err(f),
            Ok(cfg) => if cfg.is_none {
                spec_union_methods(ucfg, fields, k + 1, methods)
            } else {
                spec_union_methods(
                    ucfg,
                    fields,
                    k + 1,
                    methods + union_field_methods(fields[k], cfg.definitions),
                )
            },
        }
    }
}

/// The code for a union under the configuration `ucfg`: an inherent
/// `impl` with one constructor per definition of each field.
pub open spec fn spec_ctor_union_impl(
    ident: NameV,
    generics: GenericsV,
    fields: Seq<UnionFieldV>,
    ucfg: PrefixConfigV,
) -> Result<Seq<TokV>, FailureV> {
    match spec_union_methods(ucfg, fields, 0, seq![]) {
        Err(f) => Err(f),
        Ok(methods) => Ok(spec_assemble(generics, ident, methods, None)),
    }
}

/// The code that the derive writes for a union with the given attributes:
/// the union's configuration is read first, and an error in it is the
/// outcome; else the code for the union under that configuration.
pub open spec fn spec_union_output(
    ident: NameV,
    attrs: Seq<Seq<TokV>>,
    generics: GenericsV,
    fields: Seq<UnionFieldV>,
) -> Result<Seq<TokV>, FailureV> {
    match spec_prefix_config_of(attrs, PropertyGroup::Union) {
        Err(e) => Err(FailureV::Error(e)),
        Ok(ucfg) => spec_ctor_union_impl(ident, generics, fields, ucfg),
    }
}

/// A union constructor.
fn union_method_tokens(d: &Definition, f: &UnionField) -> (r: Vec<Tok>)
    ensures
        tv(&r) == union_method(d@, f@),
{
    let mut out: Vec<Tok> = Vec::new();
    proof {
        assert(tv(&out) =~= seq![]);
    }
    extend_toks(&mut out, &d.visibility);
    if d.attrs.is_const {
        push_tok(&mut out, cs_ident_exec("const"));
    }
    push_tok(&mut out, cs_ident_exec("fn"));
    push_tok(&mut out, d.name.to_tok());
    push_tok(&mut out, cs_open_exec(Delim::Paren));
    push_tok(&mut out, f.ident.to_tok());
    push_tok(&mut out, punct_tok(':', false));
    extend_toks(&mut out, &f.ty);
    push_tok(&mut out, cs_close_exec(Delim::Paren));
    push_tok(&mut out, punct_tok('-', true));
    push_tok(&mut out, punct_tok('>', false));
    push_tok(&mut out, cs_ident_exec("Self"));
    push_tok(&mut out, cs_open_exec(Delim::Brace));
    push_tok(&mut out, cs_ident_exec("Self"));
    push_tok(&mut out, cs_open_exec(Delim::Brace));
    push_tok(&mut out, f.ident.to_tok());
    push_tok(&mut out, cs_close_exec(Delim::Brace));
    push_tok(&mut out, cs_close_exec(Delim::Brace));
    proof {
        assert(tv(&out) =~= union_method(d@, f@));
    }
    out
}

/// Writes the constructors of a union under a configuration.
pub fn create_ctor_union_impl(
    ident: &Name,
    generics: &GenericsModel,
    fields: &Vec<UnionField>,
    config: &PrefixConfiguration,
) -> (r: Result<Vec<Tok>, Failure>)
    ensures
        match r {
            Ok(t) => spec_ctor_union_impl(ident@, generics@, union_fields_view(fields@), config@)
                == Ok::<Seq<TokV>, FailureV>(tv(&t)),
            Err(f) => spec_ctor_union_impl(ident@, generics@, union_fields_view(fields@), config@)
                == Err::<Seq<TokV>, FailureV>(f@),
        },
{
    let ghost uv = config@;
    let ghost fs = union_fields_view(fields@);
    let mut methods: Vec<Vec<Tok>> = Vec::new();
    proof {
        assert(toks_list_view(methods@) =~= seq![]);
    }
    let mut k: usize = 0;
    while k < fields.len()
        invariant
            fs == union_fields_view(fields@),
            k <= fields.len(),
            uv == config@,
            spec_union_methods(uv, fs, 0, seq![]) == spec_union_methods(
                uv,
                fs,
                k as int,
                toks_list_view(methods@),
            ),
        decreases fields.len() - k,
    {
        let f = &fields[k];
        proof {
            assert(fs[k as int] == f@);
        }
        let cfg = match struct_config_from_attrs(&f.attrs) {
            None => match from_prefix(config, &f.ident) {
                Ok(c) => c,
                Err(a) => {
                    return Err(Failure::Abort(a));
                },
            },
            Some(Ok(c)) => c,
            Some(Err(e)) => {
                return Err(Failure::Error(e));
            },
        };
        if !cfg.is_none {
            let ghost start = toks_list_view(methods@);
            let ghost dv = defs_view(cfg.definitions@);
            let mut i: usize = 0;
            while i < cfg.definitions.len()
                invariant
                    i <= cfg.definitions.len(),
                    dv == defs_view(cfg.definitions@),
                    toks_list_view(methods@) == start + union_field_methods(f@, dv.take(i as int)),
                decreases cfg.definitions.len() - i,
            {
                let mt = union_method_tokens(&cfg.definitions[i], f);
                let ghost prev = methods@;
                let ghost mv = tv(&mt);
                methods.push(mt);
                proof {
                    assert(dv[i as int] == cfg.definitions@[i as int]@);
                    assert(toks_list_view(methods@) =~= toks_list_view(prev).push(mv));
                    assert(union_field_methods(f@, dv.take(i + 1)) =~= union_field_methods(
                        f@,
                        dv.take(i as int),
                    ).push(mv));
                    assert(toks_list_view(methods@) =~= start + union_field_methods(
                        f@,
                        dv.take(i + 1),
                    ));
                }
                i = i + 1;
            }
            proof {
                assert(dv.take(cfg.definitions.len() as int) =~= dv);
            }
        }
        k = k + 1;
    }
    Ok(assemble(generics, ident, &methods, None))
}

/// Writes the constructors of a union with the given attributes and
/// fields.
pub fn create_union_token_stream(
    ident: &Name,
    attrs: &Vec<Vec<Tok>>,
    generics: &GenericsModel,
    fields: &Vec<UnionField>,
) -> (r: Result<Vec<Tok>, Failure>)
    ensures
        match r {
            Ok(t) => spec_union_output(
                ident@,
                attrs_view(attrs@),
                generics@,
                union_fields_view(fields@),
            ) == Ok::<Seq<TokV>, FailureV>(tv(&t)),
            Err(f) => spec_union_output(
                ident@,
                attrs_view(attrs@),
                generics@,
                union_fields_view(fields@),
            ) == Err::<Seq<TokV>, FailureV>(f@),
        },
{
    let ucfg = match prefix_config_from_attrs(attrs, PropertyGroup::Union) {
        Ok(c) => c,
        Err(e) => {
            return Err(Failure::Error(e));
        },
    };
    create_ctor_union_impl(ident, generics, fields, &ucfg)
}

} // verus!
