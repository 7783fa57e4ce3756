//! The derive as a whole: from the item it is applied to, the code it
//! writes or the failure it reports.
use vstd::prelude::*;
use crate::attrs::attrs_view;
use crate::enums::{create_enum_token_stream, spec_enum_output, variants_view, VariantModel, VariantV};
use crate::error::{CtorError, CtorErrorV, Failure, FailureV, Feature};
use crate::generate::{GenericsModel, GenericsV};
use crate::meta::{fields_view, FieldModel, FieldModelV};
use crate::structs::{create_struct_token_stream, spec_struct_output};
use crate::syntax::{Name, NameV};
use crate::tokens::{tv, Tok, TokV};
use crate::unions::{
    create_union_token_stream, spec_union_output, union_fields_view, UnionField, UnionFieldV,
};

verus! {

/// Which kinds of item the derive is built to handle.
#[derive(Clone, Copy, Debug, PartialEq, Eq, Structural)]
pub struct Features {
    pub structs: bool,
    pub enums: bool,
    pub unions: bool,
}

/// The body of the item: a struct's fields, an enum's variants or a
/// union's fields.
pub enum DataModel {
    Struct(Vec<FieldModel>),
    Enum(Vec<VariantModel>),
    Union(Vec<UnionField>),
}

/// The value of a [`DataModel`].
pub enum DataV {
    Struct(Seq<FieldModelV>),
    Enum(Seq<VariantV>),
    Union(Seq<UnionFieldV>),
}

impl View for DataModel {
    type V = DataV;

    open spec fn view(&self) -> DataV {
        match self {
            DataModel::Struct(f) => DataV::Struct(fields_view(f@)),
            DataModel::Enum(v) => DataV::Enum(variants_view(v@)),
            DataModel::Union(f) => DataV::Union(union_fields_view(f@)),
        }
    }
}

/// The item that the derive is applied to.
pub struct DeriveInputModel {
    pub ident: Name,
    pub attrs: Vec<Vec<Tok>>,
    pub generics: GenericsModel,
    pub data: DataModel,
}

/// The value of a [`DeriveInputModel`].
pub struct DeriveInputV {
    pub ident: NameV,
    pub attrs: Seq<Seq<TokV>>,
    pub generics: GenericsV,
    pub data: DataV,
}

impl View for DeriveInputModel {
    type V = DeriveInputV;

    open spec fn view(&self) -> DeriveInputV {
        DeriveInputV {
            ident: self.ident@,
            attrs: attrs_view(self.attrs@),
            generics: self.generics@,
            data: self.data@,
        }
    }
}

/// What the derive writes for an item: the code for its kind when that
/// kind's feature is on, else the error naming the feature.
pub open spec fn spec_derive(input: DeriveInputV, features: Features) -> Result<
    Seq<TokV>,
    FailureV,
> {
    match input.data {
        DataV::Struct(f) => if features.structs {
            spec_struct_output(input.ident, input.attrs, input.generics, f)
        } else {
            Err(FailureV::Error(CtorErrorV::FeatureDisabled { feature: Feature::Structs }))
        },
        DataV::Enum(v) => if features.enums {
            spec_enum_output(input.ident, input.attrs, input.generics, v)
        } else {
            Err(FailureV::Error(CtorErrorV::FeatureDisabled { feature: Feature::Enums }))
        },
        DataV::Union(f) => if features.unions {
            spec_union_output(input.ident, input.attrs, input.generics, f)
        } else {
            Err(FailureV::Error(CtorErrorV::FeatureDisabled { feature: Feature::Unions }))
        },
    }
}

/// Derives the constructors of an item.
pub fn derive_ctor_internal(input: &DeriveInputModel, features: Features) -> (r: Result<
    Vec<Tok>,
    Failure,
>)
    ensures
        match r {
            Ok(t) => spec_derive(input@, features) == Ok::<Seq<TokV>, FailureV>(tv(&t)),
            Err(f) => spec_derive(input@, features) == Err::<Seq<TokV>, FailureV>(f@),
        },
{
    match &input.data {
        DataModel::Struct(f) => if features.structs {
            create_struct_token_stream(&input.ident, &input.attrs, &input.generics, f)
        } else {
            Err(Failure::Error(CtorError::FeatureDisabled { feature: Feature::Structs }))
        },
        DataModel::Enum(v) => if features.enums {
            create_enum_token_stream(&input.ident, &input.attrs, &input.generics, v)
        } else {
            Err(Failure::Error(CtorError::FeatureDisabled { feature: Feature::Enums }))
        },
        DataModel::Union(f) => if features.unions {
            create_union_token_stream(&input.ident, &input.attrs, &input.generics, f)
        } else {
            Err(Failure::Error(CtorError::FeatureDisabled { feature: Feature::Unions }))
        },
    }
}

} // verus!
