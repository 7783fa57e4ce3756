use std::str::FromStr;

use proc_macro2::{Delimiter, Group, Ident, Literal, Punct, Spacing, Span, TokenStream, TokenTree};
use quote::ToTokens;

use derive_ctor::derive::{derive_ctor_internal, DataModel, DeriveInputModel, Features};
use derive_ctor::enums::{convert_to_snakecase, create_ctor_enum_impl, PrefixConfiguration, VariantModel};
use derive_ctor::error::{Abort, CtorError, Expected, Failure, Feature, PropertyGroup};
use derive_ctor::fields::{consume_delimited, parse_field_attributes};
use derive_ctor::generate::{FieldsStyle, GenericsModel};
use derive_ctor::ident::adjust_keyword_ident;
use derive_ctor::meta::FieldModel;
use derive_ctor::syntax::Name;
use derive_ctor::tokens::{is_phantom, Delim, Origin, Tok};
use derive_ctor::unions::{create_ctor_union_impl, UnionField};

fn push_stream(out: &mut Vec<Tok>, stream: TokenStream, next: &mut usize) {
    for tree in stream {
        let span = Origin::Input(*next);
        *next += 1;
        match tree {
            TokenTree::Ident(i) => out.push(Tok::Ident { text: i.to_string(), span }),
            TokenTree::Punct(p) => out.push(Tok::Punct {
                ch: p.as_char(),
                joint: p.spacing() == Spacing::Joint,
                span,
            }),
            TokenTree::Literal(l) => out.push(Tok::Literal { text: l.to_string(), span }),
            TokenTree::Group(g) => {
                let delim = match g.delimiter() {
                    Delimiter::Parenthesis => Delim::Paren,
                    Delimiter::Bracket => Delim::Bracket,
                    Delimiter::Brace => Delim::Brace,
                    Delimiter::None => {
                        push_stream(out, g.stream(), next);
                        continue;
                    }
                };
                out.push(Tok::Open { delim, span });
                push_stream(out, g.stream(), next);
                out.push(Tok::Close { delim, span });
            }
        }
    }
}

fn toks(src: &str) -> Vec<Tok> {
    let mut out = Vec::new();
    let mut next = 0;
    push_stream(&mut out, TokenStream::from_str(src).unwrap(), &mut next);
    out
}

fn type_toks(src: &str) -> Vec<Tok> {
    let ty = syn::parse_str::<syn::Type>(src).unwrap();
    let mut out = Vec::new();
    let mut next = 0;
    push_stream(&mut out, ty.to_token_stream(), &mut next);
    out
}

fn to_stream(toks: &[Tok]) -> TokenStream {
    let mut stack: Vec<(Delimiter, Vec<TokenTree>)> = vec![(Delimiter::None, Vec::new())];
    for t in toks {
        match t {
            Tok::Ident { text, .. } => {
                let ident = match text.strip_prefix("r#") {
                    Some(raw) => Ident::new_raw(raw, Span::call_site()),
                    None => Ident::new(text, Span::call_site()),
                };
                stack.last_mut().unwrap().1.push(TokenTree::Ident(ident));
            }
            Tok::Punct { ch, joint, .. } => {
                let spacing = if *joint { Spacing::Joint } else { Spacing::Alone };
                stack.last_mut().unwrap().1.push(TokenTree::Punct(Punct::new(*ch, spacing)));
            }
            Tok::Literal { text, .. } => {
                let lit = Literal::from_str(text).unwrap();
                stack.last_mut().unwrap().1.push(TokenTree::Literal(lit));
            }
            Tok::Open { delim, .. } => {
                let d = match delim {
                    Delim::Paren => Delimiter::Parenthesis,
                    Delim::Bracket => Delimiter::Bracket,
                    Delim::Brace => Delimiter::Brace,
                };
                stack.push((d, Vec::new()));
            }
            Tok::Close { .. } => {
                let (d, inner) = stack.pop().unwrap();
                let group = Group::new(d, inner.into_iter().collect());
                stack.last_mut().unwrap().1.push(TokenTree::Group(group));
            }
        }
    }
    stack.pop().unwrap().1.into_iter().collect()
}

fn canon(stream: TokenStream, out: &mut String) {
    for tree in stream {
        match tree {
            TokenTree::Group(g) => {
                let (open, close) = match g.delimiter() {
                    Delimiter::Parenthesis => ("(", ")"),
                    Delimiter::Bracket => ("[", "]"),
                    Delimiter::Brace => ("{", "}"),
                    Delimiter::None => ("", ""),
                };
                out.push_str(open);
                out.push(' ');
                canon(g.stream(), out);
                out.push_str(close);
                out.push(' ');
            }
            other => {
                out.push_str(&other.to_string());
                out.push(' ');
            }
        }
    }
}

fn render(out: &[Tok]) -> String {
    let mut s = String::new();
    canon(to_stream(out), &mut s);
    s
}

fn norm(src: &str) -> String {
    let mut s = String::new();
    canon(TokenStream::from_str(src).unwrap(), &mut s);
    s
}

fn name(text: &str) -> Name {
    Name { text: text.to_string(), span: Origin::CallSite }
}

fn attrs(list: &[&str]) -> Vec<Vec<Tok>> {
    list.iter().map(|a| toks(a)).collect()
}

fn field(ident: Option<&str>, ty: &str, field_attrs: &[&str]) -> FieldModel {
    FieldModel {
        ident: ident.map(name),
        ty: toks(ty),
        attrs: attrs(field_attrs),
        span: Origin::CallSite,
    }
}

fn no_generics() -> GenericsModel {
    GenericsModel { impl_generics: Vec::new(), ty_generics: Vec::new(), where_clause: Vec::new() }
}

fn all_features() -> Features {
    Features { structs: true, enums: true, unions: true }
}

fn derive_struct(item_attrs: &[&str], fields: Vec<FieldModel>) -> Result<String, Failure> {
    let input = DeriveInputModel {
        ident: name("S"),
        attrs: attrs(item_attrs),
        generics: no_generics(),
        data: DataModel::Struct(fields),
    };
    derive_ctor_internal(&input, all_features()).map(|t| render(&t))
}

fn variant(ident: &str, variant_attrs: &[&str], style: FieldsStyle, fields: Vec<FieldModel>) -> VariantModel {
    VariantModel { ident: name(ident), attrs: attrs(variant_attrs), style, fields }
}

fn derive_enum(item_attrs: &[&str], variants: Vec<VariantModel>) -> Result<String, Failure> {
    let input = DeriveInputModel {
        ident: name("E"),
        attrs: attrs(item_attrs),
        generics: no_generics(),
        data: DataModel::Enum(variants),
    };
    derive_ctor_internal(&input, all_features()).map(|t| render(&t))
}

fn union_field(ident: &str, ty: &str, field_attrs: &[&str]) -> UnionField {
    UnionField { ident: name(ident), ty: toks(ty), attrs: attrs(field_attrs) }
}

fn derive_union(item_attrs: &[&str], fields: Vec<UnionField>) -> Result<String, Failure> {
    let input = DeriveInputModel {
        ident: name("U"),
        attrs: attrs(item_attrs),
        generics: no_generics(),
        data: DataModel::Union(fields),
    };
    derive_ctor_internal(&input, all_features()).map(|t| render(&t))
}

#[test]
fn test_is_phantom_data() {
    assert!(is_phantom(&type_toks("PhantomData")));
    assert!(is_phantom(&type_toks("&mut PhantomData<&'static str>")));
    assert!(!is_phantom(&type_toks("i32")));
}

#[test]
fn test_adjust_keyword_ident() {
    assert_eq!("abc".to_string(), adjust_keyword_ident("abc".to_string()));
    assert_eq!("r#break".to_string(), adjust_keyword_ident("break".to_string()));
    assert_eq!("r#fn".to_string(), adjust_keyword_ident("fn".to_string()));
    assert_eq!("r#const".to_string(), adjust_keyword_ident("const".to_string()));
}

#[test]
fn adjusting_twice_changes_nothing() {
    for name in ["abc", "fn", "match", "type", "r#try"] {
        let once = adjust_keyword_ident(name.to_string());
        assert_eq!(adjust_keyword_ident(once.clone()), once);
    }
}

#[test]
fn phantom_only_at_top_level() {
    assert!(!is_phantom(&type_toks("(PhantomData, u8)")));
    assert!(is_phantom(&type_toks("Vec<PhantomData>")));
    assert!(!is_phantom(&type_toks("std::marker::Phantom")));
}

#[test]
fn plain_struct_gets_new() {
    let out = derive_struct(&[], vec![field(Some("x"), "i32", &[]), field(Some("y"), "Vec<u8>", &[])]);
    assert_eq!(
        out,
        Ok(norm("impl S { pub fn new(x: i32, y: Vec<u8>) -> Self { Self { x, y } } }"))
    );
}

#[test]
fn empty_argument_list_is_the_default_constructor() {
    let out = derive_struct(&["#[ctor()]"], vec![field(Some("x"), "i32", &[])]);
    assert_eq!(out, Ok(norm("impl S { pub fn new(x: i32) -> Self { Self { x } } }")));
}

#[test]
fn tuple_struct_fields_are_numbered() {
    let out = derive_struct(&[], vec![field(None, "u8", &[]), field(None, "u16", &[])]);
    assert_eq!(
        out,
        Ok(norm("impl S { pub fn new(arg0: u8, arg1: u16) -> Self { Self { arg0, arg1 } } }"))
    );
}

#[test]
fn generics_are_carried_over() {
    let input = DeriveInputModel {
        ident: name("W"),
        attrs: Vec::new(),
        generics: GenericsModel {
            impl_generics: toks("<T: Clone>"),
            ty_generics: toks("<T>"),
            where_clause: toks("where T: Copy"),
        },
        data: DataModel::Struct(vec![field(Some("t"), "T", &[])]),
    };
    let out = derive_ctor_internal(&input, all_features()).map(|t| render(&t));
    assert_eq!(
        out,
        Ok(norm("impl<T: Clone> W<T> where T: Copy { pub fn new(t: T) -> Self { Self { t } } }"))
    );
}

#[test]
fn several_named_constructors() {
    let out = derive_struct(
        &["#[ctor(pub new, const create, pub(crate) const make)]"],
        vec![field(Some("a"), "u8", &[])],
    );
    assert_eq!(
        out,
        Ok(norm(
            "impl S { pub fn new(a: u8) -> Self { Self { a } } \
             const fn create(a: u8) -> Self { Self { a } } \
             pub(crate) const fn make(a: u8) -> Self { Self { a } } }"
        ))
    );
}

#[test]
fn default_all_gives_a_default_impl() {
    let out = derive_struct(&["#[ctor(default(all))]"], vec![field(Some("a"), "u8", &[])]);
    assert_eq!(
        out,
        Ok(norm(
            "impl S { } impl Default for S { fn default() -> Self { let a = Default::default(); Self { a } } }"
        ))
    );
}

#[test]
fn default_constructor_with_parameters_is_an_error() {
    let out = derive_struct(&["#[ctor(default)]"], vec![field(Some("a"), "u8", &[])]);
    assert_eq!(
        out,
        Err(Failure::Error(CtorError::DefaultWithParameters { spans: vec![Origin::CallSite] }))
    );
}

#[test]
fn default_marker_in_parentheses() {
    let out = derive_struct(&["#[ctor(new(default))]"], vec![field(Some("a"), "u8", &[])]);
    assert_eq!(
        out,
        Ok(norm("impl S { fn new() -> Self { let a = Default::default(); Self { a } } }"))
    );
}

#[test]
fn into_marker_takes_into_parameters() {
    let out = derive_struct(&["#[ctor(new(into))]"], vec![field(Some("a"), "String", &[])]);
    assert_eq!(
        out,
        Ok(norm("impl S { fn new(a: impl Into<String>) -> Self { let a = a.into(); Self { a } } }"))
    );
}

#[test]
fn field_properties() {
    let out = derive_struct(
        &[],
        vec![
            field(Some("a"), "String", &["#[ctor(cloned)]"]),
            field(Some("b"), "String", &["#[ctor(into)]"]),
            field(Some("c"), "Vec<u8>", &["#[ctor(iter(u8))]"]),
            field(Some("d"), "u32", &["#[ctor(expr(5))]"]),
            field(Some("e"), "u32", &["#[ctor(expr(u8 -> e as u32))]"]),
            field(Some("f"), "u32", &["#[ctor(expr!(f + 1))]"]),
            field(Some("g"), "u8", &["#[ctor(default)]"]),
        ],
    );
    assert_eq!(
        out,
        Ok(norm(
            "impl S { pub fn new(a: &String, b: impl Into<String>, c: impl IntoIterator<Item = u8>, \
             e: u8, f: u32) -> Self { \
             let a = a.clone(); let b = b.into(); let c = c.into_iter().collect(); \
             let d = 5; let e = e as u32; let f = f + 1; let g = Default::default(); \
             Self { a, b, c, d, e, f, g } } }"
        ))
    );
}

#[test]
fn bare_attributes_act_like_ctor() {
    let out = derive_struct(&[], vec![field(Some("a"), "String", &["#[cloned]"]), field(Some("b"), "u8", &["#[doc = \"x\"]"])]);
    assert_eq!(
        out,
        Ok(norm("impl S { pub fn new(a: &String, b: u8) -> Self { let a = a.clone(); Self { a, b } } }"))
    );
}

#[test]
fn phantom_fields_get_defaults() {
    let out = derive_struct(&[], vec![field(Some("p"), "PhantomData<T>", &[])]);
    assert_eq!(
        out,
        Ok(norm("impl S { pub fn new() -> Self { let p = Default::default(); Self { p } } }"))
    );
}

#[test]
fn property_applies_to_listed_constructors() {
    let out = derive_struct(
        &["#[ctor(new, other)]"],
        vec![field(Some("b"), "u8", &["#[ctor(default = [1])]"]), field(Some("c"), "u8", &["#[ctor(default = 0)]"])],
    );
    assert_eq!(
        out,
        Ok(norm(
            "impl S { fn new(b: u8) -> Self { let c = Default::default(); Self { b, c } } \
             fn other(c: u8) -> Self { let b = Default::default(); Self { b, c } } }"
        ))
    );
}

#[test]
fn none_on_a_struct_gives_no_method() {
    let out = derive_struct(&["#[ctor(none)]"], vec![field(Some("a"), "u8", &[])]);
    assert_eq!(out, Ok(norm("impl S { }")));
}

#[test]
fn leftover_after_default_group_is_an_error() {
    let out = derive_struct(&["#[ctor(default(all x))]"], vec![field(Some("a"), "u8", &[])]);
    assert!(matches!(out, Err(Failure::Error(CtorError::UnexpectedToken { .. }))));
}

#[test]
fn empty_bracket_group_after_default_is_accepted() {
    let out = derive_struct(&["#[ctor(default[])]"], vec![field(Some("a"), "u8", &["#[ctor(default)]"])]);
    assert_eq!(
        out,
        Ok(norm("impl S { } impl Default for S { fn default() -> Self { let a = Default::default(); Self { a } } }"))
    );
}

#[test]
fn unknown_field_property_is_an_error() {
    let out = derive_struct(&[], vec![field(Some("a"), "u8", &["#[ctor(bogus)]"])]);
    match out {
        Err(Failure::Error(CtorError::UnknownProperty { property, group, .. })) => {
            assert_eq!(property, "bogus");
            assert_eq!(group, PropertyGroup::Field);
        }
        other => panic!("unexpected {:?}", other),
    }
}

#[test]
fn ctor_without_arguments_is_an_error() {
    let out = derive_struct(&["#[ctor]"], vec![field(Some("a"), "u8", &[])]);
    assert!(matches!(out, Err(Failure::Error(CtorError::MissingArguments { .. }))));
}

#[test]
fn trailing_tokens_are_an_error() {
    let out = derive_struct(&["#[ctor(new extra)]"], vec![field(Some("a"), "u8", &[])]);
    assert!(matches!(out, Err(Failure::Error(CtorError::UnexpectedToken { .. }))));
}

#[test]
fn trailing_comma_needs_another_constructor() {
    let out = derive_struct(&["#[ctor(new,)]"], vec![field(Some("a"), "u8", &[])]);
    assert!(matches!(out, Err(Failure::Error(CtorError::Expected { what: Expected::Ident, .. }))));
}

#[test]
fn iter_needs_parentheses() {
    let out = derive_struct(&[], vec![field(Some("a"), "Vec<u8>", &["#[ctor(iter[u8])]"])]);
    assert!(matches!(
        out,
        Err(Failure::Error(CtorError::EnclosingDelimiter { expected: Delim::Paren, .. }))
    ));
}

#[test]
fn constructor_list_needs_brackets() {
    let out = derive_struct(&[], vec![field(Some("a"), "u8", &["#[ctor(default = (1))]"])]);
    assert!(matches!(out, Err(Failure::Error(CtorError::EnclosingBrackets { .. }))));
}

#[test]
fn constructor_index_must_be_an_integer() {
    let out = derive_struct(&[], vec![field(Some("a"), "u8", &["#[ctor(default = x)]"])]);
    assert!(matches!(
        out,
        Err(Failure::Error(CtorError::Expected { what: Expected::IntLiteral, .. }))
    ));
}

#[test]
fn enum_variants_get_snake_case_methods() {
    let out = derive_enum(
        &[],
        vec![
            variant("A", &[], FieldsStyle::Unit, vec![]),
            variant("BigValue", &[], FieldsStyle::Unnamed, vec![field(None, "u8", &[])]),
            variant("C", &[], FieldsStyle::Named, vec![field(Some("x"), "u8", &[])]),
        ],
    );
    assert_eq!(
        out,
        Ok(norm(
            "impl E { pub fn a() -> Self { Self::A } \
             pub fn big_value(arg0: u8) -> Self { Self::BigValue(arg0) } \
             pub fn c(x: u8) -> Self { Self::C { x } } }"
        ))
    );
}

#[test]
fn enum_prefix_and_visibility() {
    let out = derive_enum(
        &["#[ctor(prefix = new, vis = pub(crate))]"],
        vec![variant("Foo", &[], FieldsStyle::Unit, vec![])],
    );
    assert_eq!(out, Ok(norm("impl E { pub(crate) fn new_foo() -> Self { Self::Foo } }")));
}

#[test]
fn enum_none_skips_a_variant() {
    let out = derive_enum(
        &[],
        vec![
            variant("A", &["#[ctor(none)]"], FieldsStyle::Unit, vec![]),
            variant("B", &[], FieldsStyle::Unit, vec![]),
        ],
    );
    assert_eq!(out, Ok(norm("impl E { pub fn b() -> Self { Self::B } }")));
}

#[test]
fn enum_keyword_names_become_raw() {
    let out = derive_enum(&[], vec![variant("Fn", &[], FieldsStyle::Unit, vec![])]);
    assert_eq!(out, Ok(norm("impl E { pub fn r#fn() -> Self { Self::Fn } }")));
}

#[test]
fn enum_default_variant() {
    let out = derive_enum(&[], vec![variant("A", &["#[ctor(default)]"], FieldsStyle::Unit, vec![])]);
    assert_eq!(
        out,
        Ok(norm("impl E { } impl Default for E { fn default() -> Self { Self::A } }"))
    );
}

#[test]
fn enum_unknown_property_is_an_error() {
    let out = derive_enum(&["#[ctor(colour = red)]"], vec![variant("A", &[], FieldsStyle::Unit, vec![])]);
    match out {
        Err(Failure::Error(CtorError::UnknownProperty { property, group, .. })) => {
            assert_eq!(property, "colour");
            assert_eq!(group, PropertyGroup::Enum);
        }
        other => panic!("unexpected {:?}", other),
    }
}

#[test]
fn enum_property_needs_equals() {
    let out = derive_enum(&["#[ctor(prefix new)]"], vec![variant("A", &[], FieldsStyle::Unit, vec![])]);
    assert!(matches!(
        out,
        Err(Failure::Error(CtorError::Expected { what: Expected::Punct('='), .. }))
    ));
}

#[test]
fn raw_prefix_stops_the_derive() {
    let out = derive_enum(&["#[ctor(prefix = p)]"], vec![variant("r#A", &[], FieldsStyle::Unit, vec![])]);
    assert_eq!(
        out,
        Err(Failure::Abort(Abort::PrefixedName { name: "p_r#A".to_string() }))
    );
    let out = derive_enum(&["#[ctor(prefix = r#fn)]"], vec![variant("A", &[], FieldsStyle::Unit, vec![])]);
    assert_eq!(out, Ok(norm("impl E { pub fn r_fn_a() -> Self { Self::A } }")));
}

#[test]
fn snake_case_keeps_outer_underscores() {
    let n = convert_to_snakecase(&name("_Private_")).unwrap();
    assert_eq!(n.text, "_private_");
    let n = convert_to_snakecase(&name("__Two")).unwrap();
    assert_eq!(n.text, "__two");
    let n = convert_to_snakecase(&name("Self_")).unwrap();
    assert_eq!(n.text, "self_");
}

#[test]
fn snake_case_of_an_unusable_name_is_an_error() {
    let out = convert_to_snakecase(&name("Self"));
    assert!(matches!(out, Err(CtorError::InvalidName { .. })));
}

#[test]
fn union_fields_get_methods() {
    let out = derive_union(&[], vec![union_field("a", "u32", &[]), union_field("b", "f32", &[])]);
    assert_eq!(
        out,
        Ok(norm(
            "impl U { pub fn a(a: u32) -> Self { Self { a } } pub fn b(b: f32) -> Self { Self { b } } }"
        ))
    );
}

#[test]
fn union_field_constructors() {
    let out = derive_union(
        &["#[ctor(prefix = from)]"],
        vec![union_field("a", "u32", &["#[ctor(pub const of_a, none_b)]"]), union_field("b", "f32", &["#[ctor(none)]"])],
    );
    assert_eq!(
        out,
        Ok(norm(
            "impl U { pub const fn of_a(a: u32) -> Self { Self { a } } fn none_b(a: u32) -> Self { Self { a } } }"
        ))
    );
}

#[test]
fn union_prefix() {
    let out = derive_union(&["#[ctor(prefix = from, visibility = pub(super))]"], vec![union_field("a", "u32", &[])]);
    assert_eq!(
        out,
        Ok(norm("impl U { pub(super) fn from_a(a: u32) -> Self { Self { a } } }"))
    );
}

#[test]
fn disabled_feature_is_an_error() {
    let input = DeriveInputModel {
        ident: name("S"),
        attrs: Vec::new(),
        generics: no_generics(),
        data: DataModel::Struct(vec![field(Some("a"), "u8", &[])]),
    };
    let out = derive_ctor_internal(&input, Features { structs: false, enums: true, unions: true });
    assert_eq!(out, Err(Failure::Error(CtorError::FeatureDisabled { feature: Feature::Structs })));
}

#[test]
fn const_and_visibility_in_either_order() {
    let a = derive_struct(&["#[ctor(const pub new)]"], vec![field(Some("a"), "u8", &[])]);
    let b = derive_struct(&["#[ctor(pub const new)]"], vec![field(Some("a"), "u8", &[])]);
    assert_eq!(a, b);
    assert_eq!(a, Ok(norm("impl S { pub const fn new(a: u8) -> Self { Self { a } } }")));
}

#[test]
fn iter_needs_a_type() {
    let out = derive_struct(&[], vec![field(Some("a"), "Vec<u8>", &["#[ctor(iter(5))]"])]);
    assert!(matches!(out, Err(Failure::Error(CtorError::Expected { what: Expected::Type, .. }))));
    let out = derive_struct(&[], vec![field(Some("a"), "Vec<u8>", &["#[ctor(iter)]"])]);
    assert!(matches!(out, Err(Failure::Error(CtorError::Expected { what: Expected::Group, .. }))));
}

#[test]
fn expr_input_must_be_a_type() {
    let out = derive_struct(&[], vec![field(Some("a"), "u8", &["#[ctor(expr(5 -> 6))]"])]);
    assert!(matches!(out, Err(Failure::Error(CtorError::Expected { what: Expected::Type, .. }))));
}

#[test]
fn cloned_unsized_sum_type_stops_the_derive() {
    let out = derive_struct(&[], vec![field(Some("a"), "dyn Send + Sync", &["#[ctor(cloned)]"])]);
    assert_eq!(out, Err(Failure::Abort(Abort::RefType)));
}

#[test]
fn unusable_variant_method_name_is_an_error() {
    let out = derive_enum(&[], vec![variant("Self", &[], FieldsStyle::Unit, vec![])]);
    assert!(matches!(out, Err(Failure::Error(CtorError::InvalidName { .. }))));
}

#[test]
fn first_field_attribute_wins() {
    let out = derive_struct(
        &[],
        vec![field(Some("a"), "String", &["#[into]", "#[ctor(cloned)]"]), field(Some("b"), "String", &["#[ctor(cloned)]", "#[into]"])],
    );
    assert_eq!(
        out,
        Ok(norm(
            "impl S { pub fn new(a: impl Into<String>, b: &String) -> Self { let a = a.into(); let b = b.clone(); Self { a, b } } }"
        ))
    );
}

#[test]
fn default_all_overrides_argument_properties() {
    let out = derive_struct(
        &["#[ctor(default(all))]"],
        vec![field(Some("a"), "String", &["#[ctor(cloned)]"]), field(Some("b"), "u8", &["#[ctor(expr(7))]"])],
    );
    assert_eq!(
        out,
        Ok(norm(
            "impl S { } impl Default for S { fn default() -> Self { let a = Default::default(); let b = 7; Self { a, b } } }"
        ))
    );
}

#[test]
fn iter_type_followed_by_tokens_is_an_error() {
    let out = derive_struct(&[], vec![field(Some("a"), "Vec<u8>", &["#[ctor(iter(Vec<u8> extra))]"])]);
    assert_eq!(
        out,
        Err(Failure::Error(CtorError::UnexpectedToken { at: Origin::Input(10), within: Some(Delim::Paren) }))
    );
}

#[test]
fn iter_leftover_is_reported_before_later_errors_in_the_list() {
    let out = derive_struct(
        &[],
        vec![field(Some("a"), "Vec<u8>", &["#[ctor(iter(u8 x) = [0 y])]"])],
    );
    assert_eq!(
        out,
        Err(Failure::Error(CtorError::UnexpectedToken { at: Origin::Input(7), within: Some(Delim::Paren) }))
    );
}

#[test]
fn bare_iter_with_leftover_is_passed_over() {
    let out = derive_struct(&[], vec![field(Some("a"), "Vec<u8>", &["#[iter(u8 x)]"])]);
    assert_eq!(out, Ok(norm("impl S { pub fn new(a: Vec<u8>) -> Self { Self { a } } }")));
}

#[test]
fn negative_constructor_index_is_an_error() {
    let out = derive_struct(&[], vec![field(Some("a"), "u8", &["#[ctor(default = -1)]"])]);
    assert_eq!(
        out,
        Err(Failure::Error(CtorError::LiteralValue { literal: "-1".to_string(), at: Origin::Input(6) }))
    );
}

#[test]
fn oversized_constructor_index_is_an_error() {
    let out = derive_struct(
        &[],
        vec![field(Some("a"), "u8", &["#[ctor(default = [0, 99999999999999999999999])]"])],
    );
    assert_eq!(
        out,
        Err(Failure::Error(CtorError::LiteralValue {
            literal: "99999999999999999999999".to_string(),
            at: Origin::Input(9),
        }))
    );
}

#[test]
fn float_constructor_index_is_no_integer() {
    let out = derive_struct(&[], vec![field(Some("a"), "u8", &["#[ctor(default = 1.0)]"])]);
    assert!(matches!(
        out,
        Err(Failure::Error(CtorError::Expected { what: Expected::IntLiteral, .. }))
    ));
}

#[test]
fn suffixed_constructor_index_reads_its_digits() {
    let out = derive_struct(
        &["#[ctor(new, other)]"],
        vec![field(Some("b"), "u8", &["#[ctor(default = 1usize)]"])],
    );
    assert_eq!(
        out,
        Ok(norm(
            "impl S { fn new(b: u8) -> Self { Self { b } } \
             fn other() -> Self { let b = Default::default(); Self { b } } }"
        ))
    );
}

#[test]
fn constructor_indices_are_sorted_without_repeats() {
    let cfg = parse_field_attributes(&attrs(&["#[ctor(cloned = [2, 0, 2, 1, 0])]"])).unwrap().unwrap();
    assert_eq!(cfg.applications, vec![0, 1, 2]);
    let cfg = parse_field_attributes(&attrs(&["#[ctor(cloned = [5])]"])).unwrap().unwrap();
    assert_eq!(cfg.applications, vec![5]);
}

#[test]
fn consume_delimited_takes_the_whole_group() {
    let s = toks("(a (b) c) d");
    assert_eq!(consume_delimited(&s, 0, Delim::Paren, Origin::CallSite), (7, Ok(6)));
    assert_eq!(
        consume_delimited(&s, 0, Delim::Bracket, Origin::CallSite),
        (7, Err(CtorError::EnclosingDelimiter { expected: Delim::Bracket, at: Origin::Input(0) }))
    );
    assert_eq!(
        consume_delimited(&s, 7, Delim::Paren, Origin::CallSite),
        (7, Err(CtorError::Expected { what: Expected::Group, at: Origin::Input(5) }))
    );
}

#[test]
fn enum_impl_under_a_given_configuration() {
    let variants = vec![
        variant("One", &[], FieldsStyle::Unit, vec![]),
        variant("Two", &["#[ctor(pair)]"], FieldsStyle::Unnamed, vec![field(None, "u8", &[])]),
    ];
    let out = create_ctor_enum_impl(&name("E"), &no_generics(), &variants, &PrefixConfiguration::default_config())
        .map(|t| render(&t));
    assert_eq!(
        out,
        Ok(norm("impl E { pub fn one() -> Self { Self::One } fn pair(arg0: u8) -> Self { Self::Two(arg0) } }"))
    );
}

#[test]
fn union_impl_under_a_given_configuration() {
    let fields = vec![union_field("a", "u32", &[]), union_field("b", "f32", &["#[ctor(none)]"])];
    let out = create_ctor_union_impl(&name("U"), &no_generics(), &fields, &PrefixConfiguration::default_config())
        .map(|t| render(&t));
    assert_eq!(out, Ok(norm("impl U { pub fn a(a: u32) -> Self { Self { a } } }")));
}

fn error_message(out: Result<String, Failure>) -> Option<String> {
    match out {
        Err(Failure::Error(e)) => e.message(),
        other => panic!("unexpected {:?}", other),
    }
}

#[test]
fn messages_of_delimiter_errors() {
    let out = derive_struct(&[], vec![field(Some("a"), "Vec<u8>", &["#[ctor(iter[u8])]"])]);
    assert_eq!(error_message(out), Some("Expected enclosing Parenthesis".to_string()));
    let out = derive_struct(&[], vec![field(Some("a"), "u8", &["#[ctor(cloned = (1))]"])]);
    assert_eq!(error_message(out), Some("Expected enclosing brackets".to_string()));
}

#[test]
fn messages_of_unknown_properties() {
    let out = derive_struct(&[], vec![field(Some("a"), "u8", &["#[ctor(bogus)]"])]);
    assert_eq!(
        error_message(out),
        Some(
            "Unexpected property: \"bogus\" (must be one of the following: \"cloned\", \"default\", \"expr\", \"into\", \"iter\")"
                .to_string()
        )
    );
    let out = derive_enum(&["#[ctor(colour = red)]"], vec![variant("A", &[], FieldsStyle::Unit, vec![])]);
    assert_eq!(
        error_message(out),
        Some("Unexpected property: \"colour\" (must be one of the following: \"prefix\", \"visibility\", \"vis\")".to_string())
    );
}

#[test]
fn message_of_default_constructor_with_parameters() {
    let out = derive_struct(&["#[ctor(default)]"], vec![field(Some("a"), "u8", &[])]);
    assert_eq!(
        error_message(out),
        Some("Default constructor requires field to generate its own value.".to_string())
    );
}

#[test]
fn message_of_disabled_feature() {
    let input = DeriveInputModel {
        ident: name("E"),
        attrs: Vec::new(),
        generics: no_generics(),
        data: DataModel::Enum(vec![]),
    };
    let out = derive_ctor_internal(&input, Features { structs: true, enums: false, unions: true }).map(|t| render(&t));
    assert_eq!(
        error_message(out),
        Some("\"enums\" feature must be enabled to use #[derive(ctor)] on enums.".to_string())
    );
}

#[test]
fn messages_of_leftover_tokens_name_the_group() {
    let out = derive_struct(&["#[ctor(new extra)]"], vec![field(Some("a"), "u8", &[])]);
    assert_eq!(error_message(out), Some("unexpected token".to_string()));
    let out = derive_struct(&[], vec![field(Some("a"), "u8", &["#[ctor(default = [0 y])]"])]);
    assert_eq!(error_message(out), Some("unexpected token, expected `]`".to_string()));
    let out = derive_struct(&["#[ctor(default(all x))]"], vec![field(Some("a"), "u8", &[])]);
    assert_eq!(error_message(out), Some("unexpected token, expected `)`".to_string()));
    let out = derive_struct(&["#[ctor(default{x})]"], vec![field(Some("a"), "u8", &["#[ctor(default)]"])]);
    assert_eq!(error_message(out), Some("unexpected token, expected `}`".to_string()));
}

#[test]
fn messages_of_attributes_without_arguments() {
    let out = derive_struct(&["#[ctor]"], vec![field(Some("a"), "u8", &[])]);
    assert_eq!(
        error_message(out),
        Some("expected attribute arguments in parentheses: #[ctor(...)]".to_string())
    );
    let out = derive_struct(&["#[ctor = 1]"], vec![field(Some("a"), "u8", &[])]);
    assert_eq!(error_message(out), Some("expected parentheses: #[ctor(...)]".to_string()));
}

#[test]
fn messages_from_syn() {
    let out = derive_struct(&[], vec![field(Some("a"), "u8", &["#[ctor(default = -1)]"])]);
    assert_eq!(error_message(out), Some("invalid digit found in string".to_string()));
    let out = derive_struct(&[], vec![field(Some("a"), "u8", &["#[ctor(default = 99999999999999999999999)]"])]);
    assert_eq!(error_message(out), Some("number too large to fit in target type".to_string()));
    let out = derive_enum(&[], vec![variant("Self", &[], FieldsStyle::Unit, vec![])]);
    let syn_message = syn::parse_str::<syn::Ident>("r#self").unwrap_err().to_string();
    assert_eq!(error_message(out), Some(syn_message));
    let out = derive_struct(&[], vec![field(Some("a"), "u8", &["#[ctor(default = x)]"])]);
    assert_eq!(error_message(out), None);
}

#[test]
fn restricted_visibility_in_a_path() {
    let out = derive_struct(&["#[ctor(pub(in crate::a) new)]"], vec![field(Some("a"), "u8", &[])]);
    assert_eq!(out, Ok(norm("impl S { pub(in crate::a) fn new(a: u8) -> Self { Self { a } } }")));
}

#[test]
fn tokens_after_a_visibility_path_are_left_over() {
    let out = derive_struct(&["#[ctor(pub(in crate::a extra) new)]"], vec![field(Some("a"), "u8", &[])]);
    assert_eq!(
        out,
        Err(Failure::Error(CtorError::UnexpectedToken { at: Origin::Input(11), within: Some(Delim::Paren) }))
    );
    let out = derive_enum(
        &["#[ctor(vis = pub(in crate::x y))]"],
        vec![variant("A", &[], FieldsStyle::Unit, vec![])],
    );
    assert!(matches!(
        out,
        Err(Failure::Error(CtorError::UnexpectedToken { within: Some(Delim::Paren), .. }))
    ));
}

#[test]
fn visibility_in_without_a_path_is_an_error() {
    let out = derive_struct(&["#[ctor(pub(in) new)]"], vec![field(Some("a"), "u8", &[])]);
    assert_eq!(
        out,
        Err(Failure::Error(CtorError::Expected { what: Expected::Ident, at: Origin::Input(5) }))
    );
}

#[test]
fn other_restrictions_stay_plain_pub() {
    let out = derive_struct(&["#[ctor(pub(crate x) new)]"], vec![field(Some("a"), "u8", &[])]);
    assert!(matches!(out, Err(Failure::Error(CtorError::Expected { what: Expected::Ident, .. }))));
}
