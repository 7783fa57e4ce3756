//! Constructors for the variants of an enum: one snake-case method per
//! variant (or per listed constructor), and the shared `prefix` / `vis`
//! configuration of enums and unions.
use vstd::prelude::*;
use crate::attrs::{attrs_view, ctor_args, find_ctor_attr, first_ctor, spec_ctor_args};
use crate::error::{
    expected_err, Abort, AbortV, CtorError, CtorErrorV, Expected, Failure, FailureV, PropertyGroup,
};
use crate::generate::{
    assemble, method_tokens, method_toks, opt_tv, spec_assemble, toks_list_view, variant_body,
    variant_body_tokens, FieldsStyle, GenericsModel, GenericsV,
};
use crate::ident::{adjust_keyword_ident, spec_adjust_keyword_ident};
use crate::meta::{fields_view, generate_ctor_meta, spec_generate_meta, FieldModel, FieldModelV};
use crate::outside::{ident_text_ok, parses_as_ident, snake_case_text, to_snake_case};
use crate::structs::{
    defs_view, no_attrs, spec_struct_config_of, struct_config_from_attrs, CtorAttrs, Definition,
    DefinitionV, StructConfigV, StructConfiguration,
};
use crate::syntax::{
    at_punct, finish, ident_text, name_at, name_of, peek_ident, punct_at, spec_finish,
    spec_peek_ident, spec_vis, vis, Leftover, Name, NameV,
};
use crate::tokens::{
    copy_range, ident_tok, origin_at, origin_at_exec, origin_of, tv, Origin, Tok,
    TokV,
};

verus! {

/// The configuration on an enum or a union: a prefix for the default
/// method names and the default visibility of the methods.
pub struct PrefixConfiguration {
    pub prefix: Option<Name>,
    pub default_visibility: Vec<Tok>,
}

/// The value of a [`PrefixConfiguration`].
pub struct PrefixConfigV {
    pub prefix: Option<NameV>,
    pub default_visibility: Seq<TokV>,
}

impl View for PrefixConfiguration {
    type V = PrefixConfigV;

    open spec fn view(&self) -> PrefixConfigV {
        PrefixConfigV {
            prefix: match self.prefix {
                Some(n) => Some(n@),
                None => None,
            },
            default_visibility: tv(&self.default_visibility),
        }
    }
}

/// No prefix, and `pub` methods.
pub open spec fn spec_default_prefix_config() -> PrefixConfigV {
    PrefixConfigV {
        prefix: None,
        default_visibility: seq![TokV::Ident("pub"@, Origin::MixedSite)],
    }
}

/// One entry of an enum or union configuration.
pub enum PrefixItemV {
    Visibility(Seq<TokV>),
    Prefix(NameV),
}

/// One entry at `pos`: `vis = VIS`, `visibility = VIS` or
/// `prefix = NAME`; the position after it and the left-over token recorded
/// so far.
pub open spec fn spec_prefix_item(
    s: Seq<TokV>,
    pos: int,
    pending: Option<Leftover>,
    end: Origin,
    group: PropertyGroup,
) -> Result<(PrefixItemV, int, Option<Leftover>), CtorErrorV> {
    if !spec_peek_ident(s, pos) {
        Err(expected_err(Expected::Ident, origin_at(s, pos, end)))
    } else {
        let name = ident_text(s[pos]);
        let p = pos + 1;
        if !at_punct(s, p, '=') {
            Err(expected_err(Expected::Punct('='), origin_at(s, p, end)))
        } else {
            let p2 = p + 1;
            if name == "vis"@ || name == "visibility"@ {
                match spec_vis(s, p2, pending, end) {
                    Err(e) => Err(e),
                    Ok((vl, pd)) => Ok(
                        (PrefixItemV::Visibility(s.subrange(p2, p2 + vl)), p2 + vl, pd),
                    ),
                }
            } else if name == "prefix"@ {
                if spec_peek_ident(s, p2) {
                    Ok((PrefixItemV::Prefix(name_of(s[p2])), p2 + 1, pending))
                } else {
                    Err(expected_err(Expected::Ident, origin_at(s, p2, end)))
                }
            } else {
                Err(CtorErrorV::UnknownProperty { property: name, group, at: origin_of(s[pos]) })
            }
        }
    }
}

/// The configuration after one more entry.
pub open spec fn apply_item(cfg: PrefixConfigV, it: PrefixItemV) -> PrefixConfigV {
    match it {
        PrefixItemV::Visibility(v) => PrefixConfigV { default_visibility: v, ..cfg },
        PrefixItemV::Prefix(n) => PrefixConfigV { prefix: Some(n), ..cfg },
    }
}

/// The entries from `pos` on, separated by commas, over the configuration
/// `cfg`: the configuration, where parsing stopped and the left-over token
/// recorded.
pub open spec fn spec_prefix_items_from(
    s: Seq<TokV>,
    pos: int,
    cfg: PrefixConfigV,
    pending: Option<Leftover>,
    end: Origin,
    group: PropertyGroup,
) -> Result<(PrefixConfigV, int, Option<Leftover>), CtorErrorV>
    decreases s.len() - pos,
{
    match spec_prefix_item(s, pos, pending, end, group) {
        Err(e) => Err(e),
        Ok((it, p, pd)) => {
            let c2 = apply_item(cfg, it);
            if at_punct(s, p, ',') && pos < p + 1 {
                spec_prefix_items_from(s, p + 1, c2, pd, end, group)
            } else {
                Ok((c2, p, pd))
            }
        },
    }
}

/// A complete enum or union configuration list.
pub open spec fn spec_prefix_config_args(s: Seq<TokV>, end: Origin, group: PropertyGroup) -> Result<
    PrefixConfigV,
    CtorErrorV,
> {
    match spec_prefix_items_from(s, 0, spec_default_prefix_config(), None, end, group) {
        Err(e) => Err(e),
        Ok((c, p, pd)) => match spec_finish(s, p, pd) {
            Err(e) => Err(e),
            Ok(_) => Ok(c),
        },
    }
}

/// The configuration that an enum's or union's attributes give it.
pub open spec fn spec_prefix_config_of(attrs: Seq<Seq<TokV>>, group: PropertyGroup) -> Result<
    PrefixConfigV,
    CtorErrorV,
> {
    match first_ctor(attrs) {
        None => Ok(spec_default_prefix_config()),
        Some(i) => match spec_ctor_args(attrs[i]) {
            Err(e) => Err(e),
            Ok((args, end)) => spec_prefix_config_args(args, end, group),
        },
    }
}

/// The default method name of a variant or union field: its own name, or
/// `PREFIX_NAME`, which must be an identifier.
pub open spec fn spec_prefixed_name(cfg: PrefixConfigV, name: NameV) -> Result<NameV, AbortV> {
    match cfg.prefix {
        None => Ok(name),
        Some(p) => {
            let t = p.text + "_"@ + name.text;
            if ident_text_ok(t) {
                Ok(NameV { text: t, span: Origin::CallSite })
            } else {
                Err(AbortV::PrefixedName { name: t })
            }
        },
    }
}

/// The constructor list of a variant or union field without its own
/// `ctor` attribute: one method with the default visibility and name.
pub open spec fn spec_from_prefix(cfg: PrefixConfigV, name: NameV) -> Result<StructConfigV, AbortV> {
    match spec_prefixed_name(cfg, name) {
        Err(a) => Err(a),
        Ok(n) => Ok(
            StructConfigV {
                definitions: seq![
                    DefinitionV {
                        visibility: cfg.default_visibility,
                        name: n,
                        attrs: no_attrs(),
                    },
                ],
                is_none: false,
            },
        ),
    }
}

/// The number of underscores that `s` starts with.
pub open spec fn lead_underscores(s: Seq<char>) -> nat
    decreases s.len(),
{
    if s.len() > 0 && s[0] == '_' {
        1 + lead_underscores(s.drop_first())
    } else {
        0
    }
}

/// The number of underscores that `s` ends with.
pub open spec fn trail_underscores(s: Seq<char>) -> nat
    decreases s.len(),
{
    if s.len() > 0 && s.last() == '_' {
        1 + trail_underscores(s.drop_last())
    } else {
        0
    }
}

/// `n` underscores.
pub open spec fn underscores(n: nat) -> Seq<char> {
    Seq::new(n, |i: int| '_')
}

/// The snake-case form of a method name, with the name's leading and
/// trailing underscores kept (trailing ones counted after the leading ones
/// are set aside).
pub open spec fn spec_snake_name(text: Seq<char>) -> Seq<char> {
    let lead = lead_underscores(text);
    let trail = trail_underscores(text.skip(lead as int));
    underscores(lead) + snake_case_text(text) + underscores(trail)
}

/// The method name for a variant constructor: its snake-case form, made a
/// raw identifier when it is a keyword, which must then be an identifier.
pub open spec fn spec_convert_to_snakecase(name: NameV) -> Result<NameV, CtorErrorV> {
    let adj = spec_adjust_keyword_ident(spec_snake_name(name.text));
    if ident_text_ok(adj) {
        Ok(NameV { text: adj, span: Origin::CallSite })
    } else {
        Err(CtorErrorV::InvalidName { name: adj })
    }
}

/// A variant of an enum: its name, attributes, field shape and fields.
pub struct VariantModel {
    pub ident: Name,
    pub attrs: Vec<Vec<Tok>>,
    pub style: FieldsStyle,
    pub fields: Vec<FieldModel>,
}

/// The value of a [`VariantModel`].
pub struct VariantV {
    pub ident: NameV,
    pub attrs: Seq<Seq<TokV>>,
    pub style: FieldsStyle,
    pub fields: Seq<FieldModelV>,
}

impl View for VariantModel {
    type V = VariantV;

    open spec fn view(&self) -> VariantV {
        VariantV {
            ident: self.ident@,
            attrs: attrs_view(self.attrs@),
            style: self.style,
            fields: fields_view(self.fields@),
        }
    }
}

/// The values of a sequence of variants.
pub open spec fn variants_view(s: Seq<VariantModel>) -> Seq<VariantV> {
    s.map_values(|v: VariantModel| v@)
}

/// The constructor list of a variant: its own `ctor` attribute, or the
/// default one from the enum's configuration.
pub open spec fn spec_variant_cfg(ecfg: PrefixConfigV, v: VariantV) -> Result<
    StructConfigV,
    FailureV,
> {
    match spec_struct_config_of(v.attrs) {
        None => match spec_from_prefix(ecfg, v.ident) {
            Ok(c) => Ok(c),
            Err(a) => Err(FailureV::Abort(a)),
        },
        Some(Ok(c)) => Ok(c),
        Some(Err(e)) => Err(FailureV::Error(e)),
    }
}

/// The methods of a variant's definitions from index `i` on, after the
/// methods and `Default` method so far.
pub open spec fn spec_variant_methods(
    v: VariantV,
    defs: Seq<DefinitionV>,
    i: int,
    methods: Seq<Seq<TokV>>,
    dflt: Option<Seq<TokV>>,
) -> Result<(Seq<Seq<TokV>>, Option<Seq<TokV>>), FailureV>
    decreases defs.len() - i,
{
    if i < 0 || i >= defs.len() {
        Ok((methods, dflt))
    } else {
        let d = defs[i];
        match spec_generate_meta(d.attrs, v.fields, i) {
            Err(f) => Err(f),
            Ok(m) => match spec_convert_to_snakecase(d.name) {
                Err(e) => Err(FailureV::Error(e)),
                Ok(name) => {
                    let mt = method_toks(
                        d.visibility,
                        d.attrs.is_const,
                        name,
                        m.parameter_fields,
                        m.generated_fields,
                        variant_body(v.ident, v.style, m.field_idents),
                    );
                    if d.attrs.is_default {
                        spec_variant_methods(v, defs, i + 1, methods, Some(mt))
                    } else {
                        spec_variant_methods(v, defs, i + 1, methods.push(mt), dflt)
                    }
                },
            },
        }
    }
}

/// The methods of the variants from index `k` on, after the methods and
/// `Default` method so far; a variant configured `none` gets none.
pub open spec fn spec_enum_methods(
    ecfg: PrefixConfigV,
    variants: Seq<VariantV>,
    k: int,
    methods: Seq<Seq<TokV>>,
    dflt: Option<Seq<TokV>>,
) -> Result<(Seq<Seq<TokV>>, Option<Seq<TokV>>), FailureV>
    decreases variants.len() - k,
{
    if k < 0 || k >= variants.len() {
        Ok((methods, dflt))
    } else {
        let v = variants[k];
        match spec_variant_cfg(ecfg, v) {
            Err(f) => Err(f),
            Ok(cfg) => if cfg.is_none {
                spec_enum_methods(ecfg, variants, k + 1, methods, dflt)
            } else {
                match spec_variant_methods(v, cfg.definitions, 0, methods, dflt) {
                    Err(f) => Err(f),
                    Ok((m2, d2)) => spec_enum_methods(ecfg, variants, k + 1, m2, d2),
                }
            },
        }
    }
}

/// The code for an enum under the configuration `ecfg`: an inherent `impl`
/// with the variant constructors, and an `impl Default` when a `default`
/// constructor was asked for.
pub open spec fn spec_ctor_enum_impl(
    ident: NameV,
    generics: GenericsV,
    variants: Seq<VariantV>,
    ecfg: PrefixConfigV,
) -> Result<Seq<TokV>, FailureV> {
    match spec_enum_methods(ecfg, variants, 0, seq![], None) {
        Err(f) => Err(f),
        Ok((methods, dflt)) => Ok(spec_assemble(generics, ident, methods, dflt)),
    }
}

/// The code that the derive writes for an enum with the given attributes:
/// the enum's configuration is read first, and an error in it is the
/// outcome; else the code for the enum under that configuration.
pub open spec fn spec_enum_output(
    ident: NameV,
    attrs: Seq<Seq<TokV>>,
    generics: GenericsV,
    variants: Seq<VariantV>,
) -> Result<Seq<TokV>, FailureV> {
    match spec_prefix_config_of(attrs, PropertyGroup::Enum) {
        Err(e) => Err(FailureV::Error(e)),
        Ok(ecfg) => spec_ctor_enum_impl(ident, generics, variants, ecfg),
    }
}

impl PrefixConfiguration {
    /// No prefix, and `pub` methods.
    pub fn default_config() -> (r: PrefixConfiguration)
        ensures
            r@ == spec_default_prefix_config(),
    {
        let mut v: Vec<Tok> = Vec::new();
        v.push(ident_tok("pub", Origin::MixedSite));
        proof {
            assert(tv(&v) =~= seq![TokV::Ident("pub"@, Origin::MixedSite)]);
        }
        PrefixConfiguration { prefix: None, default_visibility: v }
    }
}

/// The result of parsing one configuration entry.
enum PrefixItem {
    Visibility(Vec<Tok>),
    Prefix(Name),
}

/// The value of a [`PrefixItem`].
spec fn item_view(it: PrefixItem) -> PrefixItemV {
    match it {
        PrefixItem::Visibility(v) => PrefixItemV::Visibility(tv(&v)),
        PrefixItem::Prefix(n) => PrefixItemV::Prefix(n@),
    }
}

/// One entry at `pos`.
fn prefix_item(
    s: &Vec<Tok>,
    pos: usize,
    pending: Option<Leftover>,
    end: Origin,
    group: PropertyGroup,
) -> (r: Result<(PrefixItem, usize, Option<Leftover>), CtorError>)
    requires
        pos <= s.len(),
    ensures
        match r {
            Ok((it, p, pd)) => spec_prefix_item(tv(s), pos as int, pending, end, group) == Ok::<
                (PrefixItemV, int, Option<Leftover>),
                CtorErrorV,
            >((item_view(it), p as int, pd)) && pos < p <= s.len(),
            Err(e) => spec_prefix_item(tv(s), pos as int, pending, end, group) == Err::<
                (PrefixItemV, int, Option<Leftover>),
                CtorErrorV,
            >(e@),
        },
{
    if !peek_ident(s, pos) {
        return Err(CtorError::Expected { what: Expected::Ident, at: origin_at_exec(s, pos, end) });
    }
    let p = pos + 1;
    if !punct_at(s, p, '=') {
        return Err(
            CtorError::Expected { what: Expected::Punct('='), at: origin_at_exec(s, p, end) },
        );
    }
    let p2 = p + 1;
    if s[pos].is_ident("vis") || s[pos].is_ident("visibility") {
        let (vl, pd) = match vis(s, p2, pending, end) {
            Ok(x) => x,
            Err(e) => {
                return Err(e);
            },
        };
        let v = copy_range(s, p2, p2 + vl);
        Ok((PrefixItem::Visibility(v), p2 + vl, pd))
    } else if s[pos].is_ident("prefix") {
        if peek_ident(s, p2) {
            Ok((PrefixItem::Prefix(name_at(s, p2)), p2 + 1, pending))
        } else {
            Err(CtorError::Expected { what: Expected::Ident, at: origin_at_exec(s, p2, end) })
        }
    } else {
        let property = match &s[pos] {
            Tok::Ident { text, .. } => text.clone(),
            _ => String::new(),
        };
        Err(CtorError::UnknownProperty { property, group, at: s[pos].origin() })
    }
}

/// Parses a complete enum or union configuration list.
pub fn parse_prefix_config(s: &Vec<Tok>, end: Origin, group: PropertyGroup) -> (r: Result<
    PrefixConfiguration,
    CtorError,
>)
    ensures
        match r {
            Ok(c) => spec_prefix_config_args(tv(s), end, group) == Ok::<PrefixConfigV, CtorErrorV>(
                c@,
            ),
            Err(e) => spec_prefix_config_args(tv(s), end, group) == Err::<
                PrefixConfigV,
                CtorErrorV,
            >(e@),
        },
{
    let ghost sv = tv(s);
    let mut cfg = PrefixConfiguration::default_config();
    let mut pos: usize = 0;
    let mut pending: Option<Leftover> = None;
    loop
        invariant
            sv == tv(s),
            pos <= s.len(),
            spec_prefix_items_from(sv, 0, spec_default_prefix_config(), None, end, group)
                == spec_prefix_items_from(sv, pos as int, cfg@, pending, end, group),
        decreases s.len() - pos,
    {
        let (it, p, pd) = match prefix_item(s, pos, pending, end, group) {
            Ok(x) => x,
            Err(e) => {
                return Err(e);
            },
        };
        let ghost itv = item_view(it);
        let ghost before = cfg@;
        match it {
            PrefixItem::Visibility(v) => {
                cfg.default_visibility = v;
            },
            PrefixItem::Prefix(n) => {
                cfg.prefix = Some(n);
            },
        }
        proof {
            assert(cfg@ == apply_item(before, itv));
        }
        if punct_at(s, p, ',') {
            pos = p + 1;
            pending = pd;
        } else {
            return match finish(s, p, pd) {
                Ok(()) => Ok(cfg),
                Err(e) => Err(e),
            };
        }
    }
}

/// Reads the enum or union configuration of the first `ctor` attribute, or
/// the default one when there is none.
pub fn prefix_config_from_attrs(attrs: &Vec<Vec<Tok>>, group: PropertyGroup) -> (r: Result<
    PrefixConfiguration,
    CtorError,
>)
    ensures
        match r {
            Ok(c) => spec_prefix_config_of(attrs_view(attrs@), group) == Ok::<
                PrefixConfigV,
                CtorErrorV,
            >(c@),
            Err(e) => spec_prefix_config_of(attrs_view(attrs@), group) == Err::<
                PrefixConfigV,
                CtorErrorV,
            >(e@),
        },
{
    match find_ctor_attr(attrs) {
        None => Ok(PrefixConfiguration::default_config()),
        Some(i) => {
            proof {
                assert(attrs_view(attrs@)[i as int] == tv(&attrs@[i as int]));
            }
            let (args, end) = match ctor_args(&attrs[i]) {
                Ok(x) => x,
                Err(e) => {
                    return Err(e);
                },
            };
            parse_prefix_config(&args, end, group)
        },
    }
}

/// The default method name of a variant or union field.
fn prefixed_name(cfg: &PrefixConfiguration, name: &Name) -> (r: Result<Name, Abort>)
    ensures
        match r {
            Ok(n) => spec_prefixed_name(cfg@, name@) == Ok::<NameV, AbortV>(n@),
            Err(a) => spec_prefixed_name(cfg@, name@) == Err::<NameV, AbortV>(a@),
        },
{
    match &cfg.prefix {
        None => Ok(name.copy()),
        Some(p) => {
            let t = p.text.clone().concat("_").concat(name.text.as_str());
            proof {
                reveal_strlit("_");
            }
            if parses_as_ident(t.as_str()) {
                Ok(Name { text: t, span: Origin::CallSite })
            } else {
                Err(Abort::PrefixedName { name: t })
            }
        },
    }
}

/// The constructor list of a variant or union field without its own
/// `ctor` attribute.
pub fn from_prefix(cfg: &PrefixConfiguration, name: &Name) -> (r: Result<
    StructConfiguration,
    Abort,
>)
    ensures
        match r {
            Ok(c) => spec_from_prefix(cfg@, name@) == Ok::<StructConfigV, AbortV>(c@),
            Err(a) => spec_from_prefix(cfg@, name@) == Err::<StructConfigV, AbortV>(a@),
        },
{
    let n = match prefixed_name(cfg, name) {
        Ok(n) => n,
        Err(a) => {
            return Err(a);
        },
    };
    let visibility = copy_range(&cfg.default_visibility, 0, cfg.default_visibility.len());
    proof {
        assert(tv(&cfg.default_visibility).subrange(0, cfg.default_visibility.len() as int)
            =~= tv(&cfg.default_visibility));
    }
    let d = Definition {
        visibility,
        name: n,
        attrs: CtorAttrs { is_const: false, default_all: false, is_default: false, into_all: false },
    };
    let ghost dv = d@;
    let mut definitions: Vec<Definition> = Vec::new();
    definitions.push(d);
    proof {
        assert(defs_view(definitions@) =~= seq![dv]);
    }
    Ok(StructConfiguration { definitions, is_none: false })
}

/// One more leading underscore.
pub proof fn lemma_lead_step(s: Seq<char>, i: int)
    requires
        0 <= i < s.len(),
        s[i] == '_',
    ensures
        lead_underscores(s.skip(i)) == 1 + lead_underscores(s.skip(i + 1)),
{
    assert(s.skip(i).drop_first() =~= s.skip(i + 1));
}

/// One more trailing underscore.
pub proof fn lemma_trail_step(s: Seq<char>, lo: int, j: int)
    requires
        0 <= lo < j <= s.len(),
        s[j - 1] == '_',
    ensures
        trail_underscores(s.subrange(lo, j)) == 1 + trail_underscores(s.subrange(lo, j - 1)),
{
    assert(s.subrange(lo, j).drop_last() =~= s.subrange(lo, j - 1));
}

/// The number of underscores that the text starts with.
fn lead_count(text: &str) -> (r: usize)
    ensures
        r == lead_underscores(text@),
        r <= text@.len(),
{
    let n = text.unicode_len();
    let mut i: usize = 0;
    proof {
        assert(text@.skip(0) =~= text@);
    }
    while i < n && text.get_char(i) == '_'
        invariant
            n == text@.len(),
            i <= n,
            lead_underscores(text@) == i + lead_underscores(text@.skip(i as int)),
        decreases n - i,
    {
        proof {
            lemma_lead_step(text@, i as int);
        }
        i = i + 1;
    }
    i
}

/// The number of underscores that `text[lo..]` ends with.
fn trail_count(text: &str, lo: usize) -> (r: usize)
    requires
        lo <= text@.len(),
    ensures
        r == trail_underscores(text@.skip(lo as int)),
{
    let n = text.unicode_len();
    let mut j: usize = n;
    proof {
        assert(text@.skip(lo as int) =~= text@.subrange(lo as int, n as int));
    }
    while j > lo && text.get_char(j - 1) == '_'
        invariant
            n == text@.len(),
            lo <= j <= n,
            trail_underscores(text@.skip(lo as int)) == (n - j) + trail_underscores(
                text@.subrange(lo as int, j as int),
            ),
        decreases j,
    {
        proof {
            lemma_trail_step(text@, lo as int, j as int);
        }
        j = j - 1;
    }
    n - j
}

/// Appends `n` underscores.
fn push_underscores(s: &mut String, n: usize)
    ensures
        final(s)@ == old(s)@ + underscores(n as nat),
{
    let ghost start = s@;
    let mut k: usize = 0;
    proof {
        reveal_strlit("_");
        assert(s@ =~= start + underscores(0));
    }
    while k < n
        invariant
            k <= n,
            s@ == start + underscores(k as nat),
        decreases n - k,
    {
        s.append("_");
        proof {
            reveal_strlit("_");
            assert(s@ =~= start + underscores((k + 1) as nat));
        }
        k = k + 1;
    }
}

/// The method name for a variant constructor.
pub fn convert_to_snakecase(name: &Name) -> (r: Result<Name, CtorError>)
    ensures
        match r {
            Ok(n) => spec_convert_to_snakecase(name@) == Ok::<NameV, CtorErrorV>(n@),
            Err(e) => spec_convert_to_snakecase(name@) == Err::<NameV, CtorErrorV>(e@),
        },
{
    let text = name.text.as_str();
    let lead = lead_count(text);
    let trail = trail_count(text, lead);
    let snake = to_snake_case(text);
    let mut out = String::new();
    push_underscores(&mut out, lead);
    out.append(snake.as_str());
    push_underscores(&mut out, trail);
    proof {
        assert(out@ =~= spec_snake_name(name.text@));
    }
    let adj = adjust_keyword_ident(out);
    if parses_as_ident(adj.as_str()) {
        Ok(Name { text: adj, span: Origin::CallSite })
    } else {
        Err(CtorError::InvalidName { name: adj })
    }
}

/// Appends the methods of a variant's definitions to `methods`, and sets
/// `dflt` for a `default` one.
fn variant_methods(
    v: &VariantModel,
    defs: &Vec<Definition>,
    methods: &mut Vec<Vec<Tok>>,
    dflt: &mut Option<Vec<Tok>>,
) -> (r: Result<(), Failure>)
    ensures
        match r {
            Ok(()) => spec_variant_methods(
                v@,
                defs_view(defs@),
                0,
                toks_list_view(old(methods)@),
                opt_tv(*old(dflt)),
            ) == Ok::<(Seq<Seq<TokV>>, Option<Seq<TokV>>), FailureV>(
                (toks_list_view(final(methods)@), opt_tv(*final(dflt))),
            ),
            Err(f) => spec_variant_methods(
                v@,
                defs_view(defs@),
                0,
                toks_list_view(old(methods)@),
                opt_tv(*old(dflt)),
            ) == Err::<(Seq<Seq<TokV>>, Option<Seq<TokV>>), FailureV>(f@),
        },
{
    let ghost dv = defs_view(defs@);
    let ghost vv = v@;
    let ghost target = spec_variant_methods(
        vv,
        dv,
        0,
        toks_list_view(methods@),
        opt_tv(*dflt),
    );
    let mut i: usize = 0;
    while i < defs.len()
        invariant
            dv == defs_view(defs@),
            vv == v@,
            i <= defs.len(),
            target == spec_variant_methods(
                vv,
                dv,
                0,
                toks_list_view(old(methods)@),
                opt_tv(*old(dflt)),
            ),
            target == spec_variant_methods(
                vv,
                dv,
                i as int,
                toks_list_view(methods@),
                opt_tv(*dflt),
            ),
        decreases defs.len() - i,
    {
        let d = &defs[i];
        proof {
            assert(dv[i as int] == d@);
        }
        let meta = match generate_ctor_meta(d.attrs, &v.fields, i) {
            Ok(m) => m,
            Err(f) => {
                return Err(f);
            },
        };
        let name = match convert_to_snakecase(&d.name) {
            Ok(n) => n,
            Err(e) => {
                return Err(Failure::Error(e));
            },
        };
        let body = variant_body_tokens(&v.ident, v.style, &meta.field_idents);
        let mt = method_tokens(
            &d.visibility,
            d.attrs.is_const,
            &name,
            &meta.parameter_fields,
            &meta.generated_fields,
            &body,
        );
        if d.attrs.is_default {
            *dflt = Some(mt);
        } else {
            let ghost prev = methods@;
            let ghost mv = tv(&mt);
            methods.push(mt);
            proof {
                assert(toks_list_view(methods@) =~= toks_list_view(prev).push(mv));
            }
        }
        i = i + 1;
    }
    Ok(())
}

/// Writes the constructors of an enum under a configuration.
pub fn create_ctor_enum_impl(
    ident: &Name,
    generics: &GenericsModel,
    variants: &Vec<VariantModel>,
    config: &PrefixConfiguration,
) -> (r: Result<Vec<Tok>, Failure>)
    ensures
        match r {
            Ok(t) => spec_ctor_enum_impl(ident@, generics@, variants_view(variants@), config@)
                == Ok::<Seq<TokV>, FailureV>(tv(&t)),
            Err(f) => spec_ctor_enum_impl(ident@, generics@, variants_view(variants@), config@)
                == Err::<Seq<TokV>, FailureV>(f@),
        },
{
    let ghost vs = variants_view(variants@);
    let ghost ecfg = config@;
    let mut methods: Vec<Vec<Tok>> = Vec::new();
    let mut dflt: Option<Vec<Tok>> = None;
    proof {
        assert(toks_list_view(methods@) =~= seq![]);
    }
    let mut k: usize = 0;
    while k < variants.len()
        invariant
            vs == variants_view(variants@),
            ecfg == config@,
            k <= variants.len(),
            spec_enum_methods(ecfg, vs, 0, seq![], None) == spec_enum_methods(
                ecfg,
                vs,
                k as int,
                toks_list_view(methods@),
                opt_tv(dflt),
            ),
        decreases variants.len() - k,
    {
        let v = &variants[k];
        proof {
            assert(vs[k as int] == v@);
        }
        let cfg = match struct_config_from_attrs(&v.attrs) {
            None => match from_prefix(config, &v.ident) {
                Ok(c) => c,
                Err(a) => {
                    return Err(Failure::Abort(a));
                },
            },
            Some(Ok(c)) => c,
            Some(Err(e)) => {
                return Err(Failure::Error(e));
            },
        };
        if !cfg.is_none {
            match variant_methods(v, &cfg.definitions, &mut methods, &mut dflt) {
                Ok(()) => {},
                Err(f) => {
                    return Err(f);
                },
            }
        }
        k = k + 1;
    }
    Ok(assemble(generics, ident, &methods, dflt))
}

/// Writes the constructors of an enum with the given attributes and
/// variants: reads the enum's configuration, then writes the constructors
/// under it.
pub fn create_enum_token_stream(
    ident: &Name,
    attrs: &Vec<Vec<Tok>>,
    generics: &GenericsModel,
    variants: &Vec<VariantModel>,
) -> (r: Result<Vec<Tok>, Failure>)
    ensures
        match r {
            Ok(t) => spec_enum_output(
                ident@,
                attrs_view(attrs@),
                generics@,
                variants_view(variants@),
            ) == Ok::<Seq<TokV>, FailureV>(tv(&t)),
            Err(f) => spec_enum_output(
                ident@,
                attrs_view(attrs@),
                generics@,
                variants_view(variants@),
            ) == Err::<Seq<TokV>, FailureV>(f@),
        },
{
    let ecfg = match prefix_config_from_attrs(attrs, PropertyGroup::Enum) {
        Ok(c) => c,
        Err(e) => {
            return Err(Failure::Error(e));
        },
    };
    create_ctor_enum_impl(ident, generics, variants, &ecfg)
}

} // verus!
