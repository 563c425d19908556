//! A record to try the printer generator on: a wrapper whose type parameter
//! is reached only through an associated type. The types are declared here
//! as Rust sees them, and described as the generators see them.

use vstd::prelude::*;
use crate::record::{
    views, Annotation, AnnotationForm, AnnotationItem, AnnotationModel, FieldDecl, FieldModel,
    FormModel, GenericParam, ItemModel, Literal, LiteralModel, ParamKind, ParamModel, RecordDecl,
    RecordModel, RecordShape,
};
use crate::types::{associated_term, plain_term, wrapper_term, TypeExpr};

verus! {

/// A type that names another.
pub trait Trait {
    type Value;
}

/// Holds values of the type that `T` names, and none of `T` itself.
pub struct Field<T: Trait> {
    pub values: Vec<T::Value>,
}

/// A record around a [`Field`]. Its printer needs the clause
/// `T::Value: Debug`, which cannot be seen from its own field's type.
pub struct Wrapper<T: Trait> {
    pub field: Field<T>,
}

/// Compiles only where `F` can be formatted.
pub fn assert_debug<F: core::fmt::Debug>() {
}

/// The one parameter of both records: `T: Trait`.
pub open spec fn sample_params() -> Seq<ParamModel> {
    seq![ParamModel { name: "T"@, kind: ParamKind::Type, bounds: seq!["Trait"@] }]
}

/// [`Field`], as a declaration.
pub open spec fn field_model() -> RecordModel {
    RecordModel {
        name: "Field"@,
        params: sample_params(),
        annotations: Seq::empty(),
        shape: RecordShape::Named,
        fields: seq![
            FieldModel {
                name: "values"@,
                ty: wrapper_term("Vec"@, associated_term("T"@, "Value"@)),
                annotations: Seq::empty(),
            },
        ],
    }
}

/// [`Wrapper`], as a declaration, with its clause.
pub open spec fn wrapper_model() -> RecordModel {
    RecordModel {
        name: "Wrapper"@,
        params: sample_params(),
        annotations: seq![
            AnnotationModel {
                name: "debug"@,
                form: FormModel::List(
                    seq![
                        ItemModel {
                            key: "bound"@,
                            value: Some(LiteralModel::Text("T::Value: Debug"@)),
                        },
                    ],
                ),
            },
        ],
        shape: RecordShape::Named,
        fields: seq![
            FieldModel {
                name: "field"@,
                ty: wrapper_term("Field"@, plain_term("T"@)),
                annotations: Seq::empty(),
            },
        ],
    }
}

/// The one parameter of both records: `T: Trait`.
fn sample_params_decl() -> (r: Vec<GenericParam>)
    ensures
        views(r@) == sample_params(),
{
    let mut bounds: Vec<String> = Vec::new();
    bounds.push(String::from_str("Trait"));
    assert(views(bounds@) =~= seq!["Trait"@]);
    let mut params: Vec<GenericParam> = Vec::new();
    params.push(GenericParam { name: String::from_str("T"), kind: ParamKind::Type, bounds });
    assert(views(params@) =~= sample_params());
    params
}

/// [`Field`], as a declaration.
pub fn field_decl() -> (r: RecordDecl)
    ensures
        r@ == field_model(),
{
    let ty = TypeExpr::wrap("Vec", TypeExpr::associated("T", "Value"));
    let field = FieldDecl { name: String::from_str("values"), ty, annotations: Vec::new() };
    assert(views(field.annotations@) =~= Seq::<AnnotationModel>::empty());
    let mut fields: Vec<FieldDecl> = Vec::new();
    fields.push(field);
    assert(views(fields@) =~= field_model().fields);
    let r = RecordDecl {
        name: String::from_str("Field"),
        params: sample_params_decl(),
        annotations: Vec::new(),
        shape: RecordShape::Named,
        fields,
    };
    assert(views(r.annotations@) =~= Seq::<AnnotationModel>::empty());
    r
}

/// [`Wrapper`], as a declaration, with its clause.
pub fn wrapper_decl() -> (r: RecordDecl)
    ensures
        r@ == wrapper_model(),
{
    let item = AnnotationItem {
        key: String::from_str("bound"),
        value: Some(Literal::Text(String::from_str("T::Value: Debug"))),
    };
    let mut items: Vec<AnnotationItem> = Vec::new();
    items.push(item);
    assert(views(items@) =~= seq![item@]);
    let annotation = Annotation {
        name: String::from_str("debug"),
        form: AnnotationForm::List(items),
    };
    let mut annotations: Vec<Annotation> = Vec::new();
    annotations.push(annotation);
    assert(views(annotations@) =~= wrapper_model().annotations);
    let ty = TypeExpr::wrap("Field", TypeExpr::name("T"));
    let field = FieldDecl { name: String::from_str("field"), ty, annotations: Vec::new() };
    assert(views(field.annotations@) =~= Seq::<AnnotationModel>::empty());
    let mut fields: Vec<FieldDecl> = Vec::new();
    fields.push(field);
    assert(views(fields@) =~= wrapper_model().fields);
    RecordDecl {
        name: String::from_str("Wrapper"),
        params: sample_params_decl(),
        annotations,
        shape: RecordShape::Named,
        fields,
    }
}

} // verus!
