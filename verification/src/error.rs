//! What can go wrong while deriving constructors.
use vstd::prelude::*;
use crate::outside::{ident_error, ident_error_text, lit_int_error, lit_int_error_text};
use crate::tokens::{Delim, Origin};

verus! {

/// The kind of token or construct that a parse step required.
#[derive(Clone, Copy, Debug, PartialEq, Eq, Structural)]
pub enum Expected {
    Ident,
    Punct(char),
    IntLiteral,
    Type,
    Group,
}

/// Which list of configuration properties an unknown property was checked
/// against.
#[derive(Clone, Copy, Debug, PartialEq, Eq, Structural)]
pub enum PropertyGroup {
    Field,
    Enum,
    Union,
}

/// The kinds of item that the derive handles, each behind its own feature.
#[derive(Clone, Copy, Debug, PartialEq, Eq, Structural)]
pub enum Feature {
    Structs,
    Enums,
    Unions,
}

/// An error that the derive reports as a compile error.
#[derive(Debug, PartialEq, Eq)]
pub enum CtorError {
    /// A parse step found something else than what it required.
    Expected { what: Expected, at: Origin },
    /// A group had another delimiter than the required one.
    EnclosingDelimiter { expected: Delim, at: Origin },
    /// The constructor list after `=` was not in brackets.
    EnclosingBrackets { at: Origin },
    /// Tokens were left over after a complete configuration, inside a group
    /// of the delimiter `within`, or at the top of the argument list.
    UnexpectedToken { at: Origin, within: Option<Delim> },
    /// An integer literal, written as `literal`, whose value is no `usize`.
    LiteralValue { literal: String, at: Origin },
    /// A property name outside the known list.
    UnknownProperty { property: String, group: PropertyGroup, at: Origin },
    /// A `ctor` attribute without an argument list: bare, or followed by
    /// `= ...` (`after_eq`).
    MissingArguments { at: Origin, after_eq: bool },
    /// A `Default` constructor that would need arguments, one entry per
    /// argument.
    DefaultWithParameters { spans: Vec<Origin> },
    /// A generated method name that is no identifier.
    InvalidName { name: String },
    /// The derive was applied to a kind of item whose feature is off.
    FeatureDisabled { feature: Feature },
}

/// The value of a [`CtorError`].
pub enum CtorErrorV {
    Expected { what: Expected, at: Origin },
    EnclosingDelimiter { expected: Delim, at: Origin },
    EnclosingBrackets { at: Origin },
    UnexpectedToken { at: Origin, within: Option<Delim> },
    LiteralValue { literal: Seq<char>, at: Origin },
    UnknownProperty { property: Seq<char>, group: PropertyGroup, at: Origin },
    MissingArguments { at: Origin, after_eq: bool },
    DefaultWithParameters { spans: Seq<Origin> },
    InvalidName { name: Seq<char> },
    FeatureDisabled { feature: Feature },
}

impl View for CtorError {
    type V = CtorErrorV;

    open spec fn view(&self) -> CtorErrorV {
        match self {
            CtorError::Expected { what, at } => CtorErrorV::Expected { what: *what, at: *at },
            CtorError::EnclosingDelimiter { expected, at } => CtorErrorV::EnclosingDelimiter {
                expected: *expected,
                at: *at,
            },
            CtorError::EnclosingBrackets { at } => CtorErrorV::EnclosingBrackets { at: *at },
            CtorError::UnexpectedToken { at, within } => CtorErrorV::UnexpectedToken {
                at: *at,
                within: *within,
            },
            CtorError::LiteralValue { literal, at } => CtorErrorV::LiteralValue {
                literal: literal@,
                at: *at,
            },
            CtorError::UnknownProperty { property, group, at } => CtorErrorV::UnknownProperty {
                property: property@,
                group: *group,
                at: *at,
            },
            CtorError::MissingArguments { at, after_eq } => CtorErrorV::MissingArguments {
                at: *at,
                after_eq: *after_eq,
            },
            CtorError::DefaultWithParameters { spans } => CtorErrorV::DefaultWithParameters {
                spans: spans@,
            },
            CtorError::InvalidName { name } => CtorErrorV::InvalidName { name: name@ },
            CtorError::FeatureDisabled { feature } => CtorErrorV::FeatureDisabled {
                feature: *feature,
            },
        }
    }
}

/// A situation in which the derive stops by panicking.
#[derive(Debug, PartialEq, Eq)]
pub enum Abort {
    /// `&T` for a `cloned` field's type `T` is no type.
    RefType,
    /// `impl Into<T>` for a field's type `T` is no type.
    IntoType,
    /// `impl IntoIterator<Item = T>` for an `iter` item type `T` is no type.
    IterType,
    /// A prefixed default method name is no identifier.
    PrefixedName { name: String },
}

/// The value of an [`Abort`].
pub enum AbortV {
    RefType,
    IntoType,
    IterType,
    PrefixedName { name: Seq<char> },
}

impl View for Abort {
    type V = AbortV;

    open spec fn view(&self) -> AbortV {
        match self {
            Abort::RefType => AbortV::RefType,
            Abort::IntoType => AbortV::IntoType,
            Abort::IterType => AbortV::IterType,
            Abort::PrefixedName { name } => AbortV::PrefixedName { name: name@ },
        }
    }
}

/// Why a derive produced no implementation.
#[derive(Debug, PartialEq, Eq)]
pub enum Failure {
    Error(CtorError),
    Abort(Abort),
}

/// The value of a [`Failure`].
pub enum FailureV {
    Error(CtorErrorV),
    Abort(AbortV),
}

impl View for Failure {
    type V = FailureV;

    open spec fn view(&self) -> FailureV {
        match self {
            Failure::Error(e) => FailureV::Error(e@),
            Failure::Abort(a) => FailureV::Abort(a@),
        }
    }
}

/// An error that a parse step reports.
pub open spec fn expected_err(what: Expected, at: Origin) -> CtorErrorV {
    CtorErrorV::Expected { what, at }
}

/// How the derive names a delimiter in its messages.
pub open spec fn delim_name(d: Delim) -> Seq<char> {
    match d {
        Delim::Paren => "Parenthesis"@,
        Delim::Bracket => "Bracket"@,
        Delim::Brace => "Brace"@,
    }
}

/// The properties that a group of configurations knows, as its messages
/// list them.
pub open spec fn property_list(g: PropertyGroup) -> Seq<char> {
    match g {
        PropertyGroup::Field => "\"cloned\", \"default\", \"expr\", \"into\", \"iter\""@,
        PropertyGroup::Enum => "\"prefix\", \"visibility\", \"vis\""@,
        PropertyGroup::Union => "\"prefix\", \"visibility\", \"vis\""@,
    }
}

/// The word that names a feature.
pub open spec fn feature_word(f: Feature) -> Seq<char> {
    match f {
        Feature::Structs => "structs"@,
        Feature::Enums => "enums"@,
        Feature::Unions => "unions"@,
    }
}

/// The message of a left-over token: it names the closing delimiter of
/// the group it stands in.
pub open spec fn unexpected_text(within: Option<Delim>) -> Seq<char> {
    match within {
        None => "unexpected token"@,
        Some(Delim::Paren) => "unexpected token, expected `)`"@,
        Some(Delim::Bracket) => "unexpected token, expected `]`"@,
        Some(Delim::Brace) => "unexpected token, expected `}`"@,
    }
}

/// The message of each part of the error about a `Default` constructor that
/// would need parameters.
pub open spec fn default_ctor_text() -> Seq<char> {
    "Default constructor requires field to generate its own value."@
}

/// The message that an error carries. A required token that was missing
/// has none here: its message is the one that `syn`'s parser would give at
/// that place.
pub open spec fn spec_message(e: CtorErrorV) -> Option<Seq<char>> {
    match e {
        CtorErrorV::Expected { .. } => None,
        CtorErrorV::EnclosingDelimiter { expected, .. } => Some(
            "Expected enclosing "@ + delim_name(expected),
        ),
        CtorErrorV::EnclosingBrackets { .. } => Some("Expected enclosing brackets"@),
        CtorErrorV::UnexpectedToken { within, .. } => Some(unexpected_text(within)),
        CtorErrorV::LiteralValue { literal, .. } => Some(lit_int_error_text(literal)),
        CtorErrorV::UnknownProperty { property, group, .. } => Some(
            "Unexpected property: \""@ + property + "\" (must be one of the following: "@
                + property_list(group) + ")"@,
        ),
        CtorErrorV::MissingArguments { after_eq, .. } => Some(
            if after_eq {
                "expected parentheses: #[ctor(...)]"@
            } else {
                "expected attribute arguments in parentheses: #[ctor(...)]"@
            },
        ),
        CtorErrorV::DefaultWithParameters { .. } => Some(default_ctor_text()),
        CtorErrorV::InvalidName { name } => Some(ident_error_text(name)),
        CtorErrorV::FeatureDisabled { feature } => Some(
            "\""@ + feature_word(feature) + "\" feature must be enabled to use #[derive(ctor)] on "@
                + feature_word(feature) + "."@,
        ),
    }
}

impl CtorError {
    /// The message that the error carries, when the derive fixes it.
    pub fn message(&self) -> (r: Option<String>)
        ensures
            match r {
                Some(m) => spec_message(self@) == Some(m@),
                None => spec_message(self@) is None,
            },
    {
        match self {
            CtorError::Expected { .. } => None,
            CtorError::EnclosingDelimiter { expected, .. } => {
                let mut m = String::from_str("Expected enclosing ");
                m.append(
                    match expected {
                        Delim::Paren => "Parenthesis",
                        Delim::Bracket => "Bracket",
                        Delim::Brace => "Brace",
                    },
                );
                Some(m)
            },
            CtorError::EnclosingBrackets { .. } => Some(String::from_str("Expected enclosing brackets")),
            CtorError::UnexpectedToken { within, .. } => Some(
                String::from_str(
                    match within {
                        None => "unexpected token",
                        Some(Delim::Paren) => "unexpected token, expected `)`",
                        Some(Delim::Bracket) => "unexpected token, expected `]`",
                        Some(Delim::Brace) => "unexpected token, expected `}`",
                    },
                ),
            ),
            CtorError::LiteralValue { literal, .. } => Some(lit_int_error(literal.as_str())),
            CtorError::UnknownProperty { property, group, .. } => {
                let mut m = String::from_str("Unexpected property: \"");
                m.append(property.as_str());
                m.append("\" (must be one of the following: ");
                m.append(
                    match group {
                        PropertyGroup::Field => "\"cloned\", \"default\", \"expr\", \"into\", \"iter\"",
                        PropertyGroup::Enum => "\"prefix\", \"visibility\", \"vis\"",
                        PropertyGroup::Union => "\"prefix\", \"visibility\", \"vis\"",
                    },
                );
                m.append(")");
                Some(m)
            },
            CtorError::MissingArguments { after_eq, .. } => Some(
                String::from_str(
                    if *after_eq {
                        "expected parentheses: #[ctor(...)]"
                    } else {
                        "expected attribute arguments in parentheses: #[ctor(...)]"
                    },
                ),
            ),
            CtorError::DefaultWithParameters { .. } => Some(
                String::from_str("Default constructor requires field to generate its own value."),
            ),
            CtorError::InvalidName { name } => Some(ident_error(name.as_str())),
            CtorError::FeatureDisabled { feature } => {
                let word = match feature {
                    Feature::Structs => "structs",
                    Feature::Enums => "enums",
                    Feature::Unions => "unions",
                };
                let mut m = String::from_str("\"");
                m.append(word);
                m.append("\" feature must be enabled to use #[derive(ctor)] on ");
                m.append(word);
                m.append(".");
                Some(m)
            },
        }
    }
}

} // verus!
