//! The constructor list of `#[ctor(...)]` on a struct, an enum variant or a
//! union field.
use vstd::prelude::*;
use crate::attrs::{attrs_view, ctor_args, find_ctor_attr, first_ctor, spec_ctor_args};
use crate::error::{expected_err, CtorError, CtorErrorV, Expected, Failure, FailureV};
use crate::generate::{
    assemble, method_tokens, method_toks, opt_tv, spec_assemble, struct_body, struct_body_tokens,
    toks_list_view, GenericsModel, GenericsV,
};
use crate::meta::{
    fields_view, generate_ctor_meta, params_view, spec_generate_meta, FieldModel, FieldModelV,
    ParamV,
};
use crate::syntax::{
    any_open_at, at_any_open, at_ident, at_open, at_punct, finish, ident_at, leftover, name_at,
    name_of, open_at, open_delim, open_delim_at, peek_ident, punct_at, record_leftover,
    spec_finish, spec_peek_ident, spec_vis, vis, Leftover, Name, NameV,
};
use crate::tokens::{
    copy_range, find_group_close, find_tree_end, group_contents, ident_tok,
    is_ident_named, origin_at, origin_at_exec,
    tree_end, tv, Delim, Origin, Tok, TokV,
};

verus! {

/// The markers a constructor definition can carry.
#[derive(Clone, Copy, Debug, PartialEq, Eq, Structural)]
pub struct CtorAttrs {
    /// `const fn`.
    pub is_const: bool,
    /// Every field gets its default value (`default(all)`, `NAME(default)`).
    pub default_all: bool,
    /// The constructor becomes `Default::default`.
    pub is_default: bool,
    /// Every field is taken as `impl Into<T>` (`NAME(into)`).
    pub into_all: bool,
}

/// No marker at all.
pub open spec fn no_attrs() -> CtorAttrs {
    CtorAttrs { is_const: false, default_all: false, is_default: false, into_all: false }
}

/// One constructor to generate: its visibility tokens, its name and its
/// markers.
pub struct Definition {
    pub visibility: Vec<Tok>,
    pub name: Name,
    pub attrs: CtorAttrs,
}

/// The value of a [`Definition`].
pub struct DefinitionV {
    pub visibility: Seq<TokV>,
    pub name: NameV,
    pub attrs: CtorAttrs,
}

impl View for Definition {
    type V = DefinitionV;

    open spec fn view(&self) -> DefinitionV {
        DefinitionV { visibility: tv(&self.visibility), name: self.name@, attrs: self.attrs }
    }
}

/// The constructors asked for on one item, or `none` of them.
pub struct StructConfiguration {
    pub definitions: Vec<Definition>,
    pub is_none: bool,
}

/// The value of a [`StructConfiguration`].
pub struct StructConfigV {
    pub definitions: Seq<DefinitionV>,
    pub is_none: bool,
}

/// The values of a sequence of definitions.
pub open spec fn defs_view(s: Seq<Definition>) -> Seq<DefinitionV> {
    s.map_values(|d: Definition| d@)
}

impl View for StructConfiguration {
    type V = StructConfigV;

    open spec fn view(&self) -> StructConfigV {
        StructConfigV { definitions: defs_view(self.definitions@), is_none: self.is_none }
    }
}

/// The constructor of a struct without configuration: `pub fn new`.
pub open spec fn spec_default_definition() -> DefinitionV {
    DefinitionV {
        visibility: seq![TokV::Ident("pub"@, Origin::CallSite)],
        name: NameV { text: "new"@, span: Origin::MixedSite },
        attrs: no_attrs(),
    }
}

/// The configuration of a struct without arguments: one `pub fn new`.
pub open spec fn spec_default_struct_config() -> StructConfigV {
    StructConfigV { definitions: seq![spec_default_definition()], is_none: false }
}

/// What `default(...)` after a constructor name gives: whether the group
/// held `all`, where parsing goes on and the recorded left-over token. A
/// group is taken whatever its delimiter; anything but a parenthesised
/// identifier leaves its tokens over.
pub open spec fn spec_probe_all(s: Seq<TokV>, p: int, pending: Option<Leftover>) -> (
    bool,
    int,
    Option<Leftover>,
) {
    if at_any_open(s, p) {
        let c = group_contents(s, p);
        let np = tree_end(s, p);
        if at_open(s, p, Delim::Paren) && spec_peek_ident(c, 0) {
            (is_ident_named(c[0], "all"@), np, leftover(pending, c, 1, open_delim(s[p])))
        } else {
            (false, np, leftover(pending, c, 0, open_delim(s[p])))
        }
    } else {
        (false, p, pending)
    }
}

/// What `(default)` or `(into)` after a constructor name gives: whether it
/// asks for default values, whether it asks for `Into` parameters, where
/// parsing goes on and the recorded left-over token.
pub open spec fn spec_probe_extra(s: Seq<TokV>, p: int, pending: Option<Leftover>) -> (
    bool,
    bool,
    int,
    Option<Leftover>,
) {
    if at_any_open(s, p) {
        let c = group_contents(s, p);
        let np = tree_end(s, p);
        if at_open(s, p, Delim::Paren) && spec_peek_ident(c, 0) {
            let d = is_ident_named(c[0], "default"@);
            let i = !d && is_ident_named(c[0], "into"@);
            (d, i, np, leftover(pending, c, 1, open_delim(s[p])))
        } else {
            (false, false, np, leftover(pending, c, 0, open_delim(s[p])))
        }
    } else {
        (false, false, p, pending)
    }
}

/// The outcome of parsing one entry of a constructor list.
pub enum ItemV {
    Def(DefinitionV, int, Option<Leftover>),
    NoneMarker(int, Option<Leftover>),
    Fail(CtorErrorV),
}

/// One entry of a constructor list, at `pos`: `[const] VIS [const] NAME`
/// when no plain identifier comes first, else `[const] NAME` followed by
/// the optional groups of `default(all)` and `NAME(default)` /
/// `NAME(into)`; `none` as the first entry stops the list.
pub open spec fn spec_def_item(
    s: Seq<TokV>,
    pos: int,
    pending: Option<Leftover>,
    first: bool,
    end: Origin,
) -> ItemV {
    let c1 = at_ident(s, pos, "const"@);
    let p0 = if c1 {
        pos + 1
    } else {
        pos
    };
    if !spec_peek_ident(s, p0) {
        match spec_vis(s, p0, pending, end) {
            Err(e) => ItemV::Fail(e),
            Ok((vl, pd)) => {
                let p1 = p0 + vl;
                let c2 = at_ident(s, p1, "const"@);
                let p2 = if c2 {
                    p1 + 1
                } else {
                    p1
                };
                if spec_peek_ident(s, p2) {
                    ItemV::Def(
                        DefinitionV {
                            visibility: s.subrange(p0, p1),
                            name: name_of(s[p2]),
                            attrs: CtorAttrs { is_const: c1 || c2, ..no_attrs() },
                        },
                        p2 + 1,
                        pd,
                    )
                } else {
                    ItemV::Fail(expected_err(Expected::Ident, origin_at(s, p2, end)))
                }
            },
        }
    } else {
        let name = name_of(s[p0]);
        let p1 = p0 + 1;
        if first && name.text == "none"@ {
            ItemV::NoneMarker(p1, pending)
        } else {
            let is_default = name.text == "default"@;
            let probe1 = if is_default {
                spec_probe_all(s, p1, pending)
            } else {
                (false, p1, pending)
            };
            let probe2 = spec_probe_extra(s, probe1.1, probe1.2);
            ItemV::Def(
                DefinitionV {
                    visibility: seq![],
                    name,
                    attrs: CtorAttrs {
                        is_const: c1,
                        default_all: probe1.0 || probe2.0,
                        is_default,
                        into_all: probe2.1,
                    },
                },
                probe2.2,
                probe2.3,
            )
        }
    }
}

/// The constructor list from `pos` on, after the entries `acc`: entries
/// separated by commas.
pub open spec fn spec_defs_from(
    s: Seq<TokV>,
    pos: int,
    pending: Option<Leftover>,
    acc: Seq<DefinitionV>,
    end: Origin,
) -> Result<(StructConfigV, int, Option<Leftover>), CtorErrorV>
    decreases s.len() - pos,
{
    match spec_def_item(s, pos, pending, acc.len() == 0, end) {
        ItemV::Fail(e) => Err(e),
        ItemV::NoneMarker(p, pd) => Ok((StructConfigV { definitions: seq![], is_none: true }, p, pd)),
        ItemV::Def(d, p, pd) => {
            if at_punct(s, p, ',') && pos < p + 1 {
                spec_defs_from(s, p + 1, pd, acc.push(d), end)
            } else {
                Ok((StructConfigV { definitions: acc.push(d), is_none: false }, p, pd))
            }
        },
    }
}

/// The parse of a constructor list: the configuration, where parsing
/// stopped and the recorded left-over token; an empty list asks for the
/// default constructor.
pub open spec fn spec_parse_struct_config(s: Seq<TokV>, end: Origin) -> Result<
    (StructConfigV, int, Option<Leftover>),
    CtorErrorV,
> {
    if s.len() == 0 {
        Ok((spec_default_struct_config(), 0, None))
    } else {
        spec_defs_from(s, 0, None, seq![], end)
    }
}

/// The result of parsing one entry of a constructor list.
pub enum Item {
    Def(Definition, usize, Option<Leftover>),
    NoneMarker(usize, Option<Leftover>),
    Fail(CtorError),
}

impl Definition {
    /// The constructor of a struct without configuration: `pub fn new`.
    pub fn default_definition() -> (r: Definition)
        ensures
            r@ == spec_default_definition(),
    {
        let mut visibility: Vec<Tok> = Vec::new();
        visibility.push(ident_tok("pub", Origin::CallSite));
        proof {
            assert(tv(&visibility) =~= seq![TokV::Ident("pub"@, Origin::CallSite)]);
        }
        Definition {
            visibility,
            name: Name { text: String::from_str("new"), span: Origin::MixedSite },
            attrs: CtorAttrs { is_const: false, default_all: false, is_default: false, into_all: false },
        }
    }
}

impl StructConfiguration {
    /// The configuration of a struct without arguments.
    pub fn default_config() -> (r: StructConfiguration)
        ensures
            r@ == spec_default_struct_config(),
    {
        let mut definitions: Vec<Definition> = Vec::new();
        definitions.push(Definition::default_definition());
        proof {
            assert(defs_view(definitions@) =~= seq![spec_default_definition()]);
        }
        StructConfiguration { definitions, is_none: false }
    }
}

/// The group after `default`.
fn probe_all(s: &Vec<Tok>, p: usize, pending: Option<Leftover>) -> (r: (bool, usize, Option<Leftover>))
    requires
        p <= s.len(),
    ensures
        (r.0, r.1 as int, r.2) == spec_probe_all(tv(s), p as int, pending),
        p <= r.1 <= s.len(),
{
    if any_open_at(s, p) {
        let ghost sv = tv(s);
        let close = find_group_close(s, p);
        let np = find_tree_end(s, p);
        let d = open_delim_at(s, p);
        proof {
            assert(group_contents(sv, p as int) == sv.subrange(p + 1, close as int));
        }
        if open_at(s, p, Delim::Paren) && close > p + 1 && peek_ident(s, p + 1) {
            let all = s[p + 1].is_ident("all");
            (all, np, record_leftover(pending, s, p + 1, close, 1, d))
        } else {
            (false, np, record_leftover(pending, s, p + 1, close, 0, d))
        }
    } else {
        (false, p, pending)
    }
}

/// The group after a constructor name.
fn probe_extra(s: &Vec<Tok>, p: usize, pending: Option<Leftover>) -> (r: (
    bool,
    bool,
    usize,
    Option<Leftover>,
))
    requires
        p <= s.len(),
    ensures
        (r.0, r.1, r.2 as int, r.3) == spec_probe_extra(tv(s), p as int, pending),
        p <= r.2 <= s.len(),
{
    if any_open_at(s, p) {
        let ghost sv = tv(s);
        let close = find_group_close(s, p);
        let np = find_tree_end(s, p);
        let d = open_delim_at(s, p);
        proof {
            assert(group_contents(sv, p as int) == sv.subrange(p + 1, close as int));
        }
        if open_at(s, p, Delim::Paren) && close > p + 1 && peek_ident(s, p + 1) {
            let dflt = s[p + 1].is_ident("default");
            let i = !dflt && s[p + 1].is_ident("into");
            (dflt, i, np, record_leftover(pending, s, p + 1, close, 1, d))
        } else {
            (false, false, np, record_leftover(pending, s, p + 1, close, 0, d))
        }
    } else {
        (false, false, p, pending)
    }
}

/// One entry of a constructor list.
fn def_item(s: &Vec<Tok>, pos: usize, pending: Option<Leftover>, first: bool, end: Origin) -> (r:
    Item)
    requires
        pos <= s.len(),
    ensures
        match r {
            Item::Def(d, p, pd) => spec_def_item(tv(s), pos as int, pending, first, end)
                == ItemV::Def(d@, p as int, pd) && pos < p <= s.len(),
            Item::NoneMarker(p, pd) => spec_def_item(tv(s), pos as int, pending, first, end)
                == ItemV::NoneMarker(p as int, pd),
            Item::Fail(e) => spec_def_item(tv(s), pos as int, pending, first, end) == ItemV::Fail(
                e@,
            ),
        },
{
    let ghost sv = tv(s);
    let c1 = ident_at(s, pos, "const");
    let p0 = if c1 {
        pos + 1
    } else {
        pos
    };
    if !peek_ident(s, p0) {
        let (vl, pd) = match vis(s, p0, pending, end) {
            Ok(x) => x,
            Err(e) => {
                return Item::Fail(e);
            },
        };
        let p1 = p0 + vl;
        let c2 = ident_at(s, p1, "const");
        let p2 = if c2 {
            p1 + 1
        } else {
            p1
        };
        if peek_ident(s, p2) {
            let visibility = copy_range(s, p0, p1);
            let name = name_at(s, p2);
            Item::Def(
                Definition {
                    visibility,
                    name,
                    attrs: CtorAttrs {
                        is_const: c1 || c2,
                        default_all: false,
                        is_default: false,
                        into_all: false,
                    },
                },
                p2 + 1,
                pd,
            )
        } else {
            Item::Fail(CtorError::Expected { what: Expected::Ident, at: origin_at_exec(s, p2, end) })
        }
    } else {
        let name = name_at(s, p0);
        let p1 = p0 + 1;
        let is_none = s[p0].is_ident("none");
        if first && is_none {
            Item::NoneMarker(p1, pending)
        } else {
            let is_default = s[p0].is_ident("default");
            let probe1 = if is_default {
                probe_all(s, p1, pending)
            } else {
                (false, p1, pending)
            };
            let probe2 = probe_extra(s, probe1.1, probe1.2);
            let visibility: Vec<Tok> = Vec::new();
            proof {
                assert(tv(&visibility) =~= seq![]);
            }
            Item::Def(
                Definition {
                    visibility,
                    name,
                    attrs: CtorAttrs {
                        is_const: c1,
                        default_all: probe1.0 || probe2.0,
                        is_default,
                        into_all: probe2.1,
                    },
                },
                probe2.2,
                probe2.3,
            )
        }
    }
}

/// Parses a constructor list: the configuration, where parsing stopped and
/// the recorded left-over token.
pub fn parse_struct_config(s: &Vec<Tok>, end: Origin) -> (r: Result<
    (StructConfiguration, usize, Option<Leftover>),
    CtorError,
>)
    ensures
        match r {
            Ok((c, p, pd)) => spec_parse_struct_config(tv(s), end) == Ok::<
                (StructConfigV, int, Option<Leftover>),
                CtorErrorV,
            >((c@, p as int, pd)) && p <= s.len(),
            Err(e) => spec_parse_struct_config(tv(s), end) == Err::<
                (StructConfigV, int, Option<Leftover>),
                CtorErrorV,
            >(e@),
        },
{
    if s.len() == 0 {
        return Ok((StructConfiguration::default_config(), 0, None));
    }
    let ghost sv = tv(s);
    let mut definitions: Vec<Definition> = Vec::new();
    let mut pos: usize = 0;
    let mut pending: Option<Leftover> = None;
    proof {
        assert(defs_view(definitions@) =~= seq![]);
    }
    loop
        invariant
            sv == tv(s),
            s.len() > 0,
            pos <= s.len(),
            spec_parse_struct_config(sv, end) == spec_defs_from(
                sv,
                pos as int,
                pending,
                defs_view(definitions@),
                end,
            ),
        decreases s.len() - pos,
    {
        let first = definitions.len() == 0;
        match def_item(s, pos, pending, first, end) {
            Item::Fail(e) => {
                return Err(e);
            },
            Item::NoneMarker(p, pd) => {
                let cfg = StructConfiguration { definitions: Vec::new(), is_none: true };
                proof {
                    assert(defs_view(cfg.definitions@) =~= seq![]);
                }
                return Ok((cfg, p, pd));
            },
            Item::Def(d, p, pd) => {
                let ghost prev = definitions@;
                let ghost dv = d@;
                definitions.push(d);
                proof {
                    assert(defs_view(definitions@) =~= defs_view(prev).push(dv));
                }
                if punct_at(s, p, ',') {
                    pos = p + 1;
                    pending = pd;
                } else {
                    return Ok((StructConfiguration { definitions, is_none: false }, p, pd));
                }
            },
        }
    }
}

/// The configuration that a complete argument list gives: the parse,
/// then no token left over.
pub open spec fn spec_struct_config_args(args: Seq<TokV>, end: Origin) -> Result<
    StructConfigV,
    CtorErrorV,
> {
    match spec_parse_struct_config(args, end) {
        Err(e) => Err(e),
        Ok((c, p, pd)) => match spec_finish(args, p, pd) {
            Err(e) => Err(e),
            Ok(_) => Ok(c),
        },
    }
}

/// The configuration that the first `ctor` attribute gives, or `None`
/// when there is no such attribute.
pub open spec fn spec_struct_config_of(attrs: Seq<Seq<TokV>>) -> Option<
    Result<StructConfigV, CtorErrorV>,
> {
    match first_ctor(attrs) {
        None => None,
        Some(i) => Some(
            match spec_ctor_args(attrs[i]) {
                Err(e) => Err(e),
                Ok((args, end)) => spec_struct_config_args(args, end),
            },
        ),
    }
}

/// Reads the constructor list of the first `ctor` attribute; `None` when
/// there is no such attribute.
pub fn struct_config_from_attrs(attrs: &Vec<Vec<Tok>>) -> (r: Option<
    Result<StructConfiguration, CtorError>,
>)
    ensures
        match r {
            None => spec_struct_config_of(attrs_view(attrs@)) == None::<
                Result<StructConfigV, CtorErrorV>,
            >,
            Some(Ok(c)) => spec_struct_config_of(attrs_view(attrs@)) == Some(
                Ok::<StructConfigV, CtorErrorV>(c@),
            ),
            Some(Err(e)) => spec_struct_config_of(attrs_view(attrs@)) == Some(
                Err::<StructConfigV, CtorErrorV>(e@),
            ),
        },
{
    match find_ctor_attr(attrs) {
        None => None,
        Some(i) => {
            proof {
                assert(attrs_view(attrs@)[i as int] == tv(&attrs@[i as int]));
            }
            let (args, end) = match ctor_args(&attrs[i]) {
                Ok(x) => x,
                Err(e) => {
                    return Some(Err(e));
                },
            };
            let (cfg, p, pd) = match parse_struct_config(&args, end) {
                Ok(x) => x,
                Err(e) => {
                    return Some(Err(e));
                },
            };
            match finish(&args, p, pd) {
                Ok(()) => Some(Ok(cfg)),
                Err(e) => Some(Err(e)),
            }
        },
    }
}

/// The name of a generated `Default::default`.
pub open spec fn default_name() -> NameV {
    NameV { text: "default"@, span: Origin::CallSite }
}

/// Where the parameters point.
pub open spec fn param_spans(ps: Seq<ParamV>) -> Seq<Origin> {
    ps.map_values(|p: ParamV| p.span)
}

/// The methods of the definitions from index `k` on, after the methods
/// `methods` and the `Default` method `dflt` so far: each definition gets
/// its constructor plan; a `default` definition becomes the `Default`
/// method (the last one wins) and must take no parameter.
pub open spec fn spec_struct_methods(
    defs: Seq<DefinitionV>,
    fields: Seq<FieldModelV>,
    k: int,
    methods: Seq<Seq<TokV>>,
    dflt: Option<Seq<TokV>>,
) -> Result<(Seq<Seq<TokV>>, Option<Seq<TokV>>), FailureV>
    decreases defs.len() - k,
{
    if k < 0 || k >= defs.len() {
        Ok((methods, dflt))
    } else {
        let d = defs[k];
        match spec_generate_meta(d.attrs, fields, k) {
            Err(f) => Err(f),
            Ok(m) => {
                let name = if d.attrs.is_default {
                    default_name()
                } else {
                    d.name
                };
                let mt = method_toks(
                    d.visibility,
                    d.attrs.is_const,
                    name,
                    m.parameter_fields,
                    m.generated_fields,
                    struct_body(m.field_idents),
                );
                if d.attrs.is_default {
                    if m.parameter_fields.len() > 0 {
                        Err(
                            FailureV::Error(
                                CtorErrorV::DefaultWithParameters {
                                    spans: param_spans(m.parameter_fields),
                                },
                            ),
                        )
                    } else {
                        spec_struct_methods(defs, fields, k + 1, methods, Some(mt))
                    }
                } else {
                    spec_struct_methods(defs, fields, k + 1, methods.push(mt), dflt)
                }
            },
        }
    }
}

/// The code for a struct: an inherent `impl` with the constructors, and an
/// `impl Default` when a `default` constructor was asked for.
pub open spec fn spec_struct_impl(
    ident: NameV,
    generics: GenericsV,
    fields: Seq<FieldModelV>,
    cfg: StructConfigV,
) -> Result<Seq<TokV>, FailureV> {
    match spec_struct_methods(cfg.definitions, fields, 0, seq![], None) {
        Err(f) => Err(f),
        Ok((methods, dflt)) => Ok(spec_assemble(generics, ident, methods, dflt)),
    }
}

/// The code that the derive writes for a struct with the given attributes.
pub open spec fn spec_struct_output(
    ident: NameV,
    attrs: Seq<Seq<TokV>>,
    generics: GenericsV,
    fields: Seq<FieldModelV>,
) -> Result<Seq<TokV>, FailureV> {
    let cfg = match spec_struct_config_of(attrs) {
        None => Ok(spec_default_struct_config()),
        Some(c) => c,
    };
    match cfg {
        Err(e) => Err(FailureV::Error(e)),
        Ok(c) => spec_struct_impl(ident, generics, fields, c),
    }
}

/// Where the parameters point.
fn param_spans_exec(ps: &Vec<crate::meta::ParameterField>) -> (r: Vec<Origin>)
    ensures
        r@ == param_spans(params_view(ps@)),
{
    let mut r: Vec<Origin> = Vec::new();
    let mut k: usize = 0;
    while k < ps.len()
        invariant
            k <= ps.len(),
            r@ == param_spans(params_view(ps@)).take(k as int),
        decreases ps.len() - k,
    {
        r.push(ps[k].span);
        proof {
            assert(r@ =~= param_spans(params_view(ps@)).take(k + 1));
        }
        k = k + 1;
    }
    proof {
        assert(param_spans(params_view(ps@)).take(ps.len() as int) =~= param_spans(
            params_view(ps@),
        ));
    }
    r
}

/// Writes the constructors of a struct.
pub fn create_ctor_struct_impl(
    ident: &Name,
    generics: &GenericsModel,
    fields: &Vec<FieldModel>,
    config: &StructConfiguration,
) -> (r: Result<Vec<Tok>, Failure>)
    ensures
        match r {
            Ok(t) => spec_struct_impl(ident@, generics@, fields_view(fields@), config@) == Ok::<
                Seq<TokV>,
                FailureV,
            >(tv(&t)),
            Err(f) => spec_struct_impl(ident@, generics@, fields_view(fields@), config@) == Err::<
                Seq<TokV>,
                FailureV,
            >(f@),
        },
{
    let ghost dv = config@.definitions;
    let ghost fv = fields_view(fields@);
    let mut methods: Vec<Vec<Tok>> = Vec::new();
    let mut dflt: Option<Vec<Tok>> = None;
    let mut k: usize = 0;
    proof {
        assert(toks_list_view(methods@) =~= seq![]);
    }
    while k < config.definitions.len()
        invariant
            dv == config@.definitions,
            fv == fields_view(fields@),
            k <= config.definitions.len(),
            spec_struct_methods(dv, fv, 0, seq![], None) == spec_struct_methods(
                dv,
                fv,
                k as int,
                toks_list_view(methods@),
                opt_tv(dflt),
            ),
        decreases config.definitions.len() - k,
    {
        let d = &config.definitions[k];
        proof {
            assert(dv[k as int] == d@);
        }
        let meta = match generate_ctor_meta(d.attrs, fields, k) {
            Ok(m) => m,
            Err(f) => {
                return Err(f);
            },
        };
        let name = if d.attrs.is_default {
            Name { text: String::from_str("default"), span: Origin::CallSite }
        } else {
            d.name.copy()
        };
        let body = struct_body_tokens(&meta.field_idents);
        let mt = method_tokens(
            &d.visibility,
            d.attrs.is_const,
            &name,
            &meta.parameter_fields,
            &meta.generated_fields,
            &body,
        );
        if d.attrs.is_default {
            if meta.parameter_fields.len() > 0 {
                let spans = param_spans_exec(&meta.parameter_fields);
                return Err(Failure::Error(CtorError::DefaultWithParameters { spans }));
            }
            dflt = Some(mt);
        } else {
            let ghost prev = methods@;
            let ghost mv = tv(&mt);
            methods.push(mt);
            proof {
                assert(toks_list_view(methods@) =~= toks_list_view(prev).push(mv));
            }
        }
        k = k + 1;
    }
    Ok(assemble(generics, ident, &methods, dflt))
}

/// Writes the constructors of a struct with the given attributes and
/// fields.
pub fn create_struct_token_stream(
    ident: &Name,
    attrs: &Vec<Vec<Tok>>,
    generics: &GenericsModel,
    fields: &Vec<FieldModel>,
) -> (r: Result<Vec<Tok>, Failure>)
    ensures
        match r {
            Ok(t) => spec_struct_output(
                ident@,
                attrs_view(attrs@),
                generics@,
                fields_view(fields@),
            ) == Ok::<Seq<TokV>, FailureV>(tv(&t)),
            Err(f) => spec_struct_output(
                ident@,
                attrs_view(attrs@),
                generics@,
                fields_view(fields@),
            ) == Err::<Seq<TokV>, FailureV>(f@),
        },
{
    let config = match struct_config_from_attrs(attrs) {
        None => StructConfiguration::default_config(),
        Some(Ok(c)) => c,
        Some(Err(e)) => {
            return Err(Failure::Error(e));
        },
    };
    create_ctor_struct_impl(ident, generics, fields, &config)
}

} // verus!
