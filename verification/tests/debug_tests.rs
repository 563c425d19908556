use derive_kit::bounds::{infer_bounds, override_bounds, Predicate};
use derive_kit::paths::{
    get_generic_associated_types, visit_segments, visit_type_path, visit_types,
};
use derive_kit::usage::{
    fields_mention, get_field_type_name, get_phantomdata_generic_type_name, mentions,
    mentions_among, mentions_in_segments,
};
use derive_kit::debugs::{
    assemble_debug_trait, expand_debug, generate_debug_trait, generate_debug_trait_core,
    get_fields_from_derive_input, DebugEntry,
};
use derive_kit::fault::{ErrorKind, ErrorSite};
use derive_kit::record::{
    Annotation, AnnotationForm, AnnotationItem, FieldDecl, GenericParam, Literal, ParamKind,
    RecordDecl, RecordShape,
};
use derive_kit::sample::{assert_debug, field_decl, wrapper_decl, Field, Trait, Wrapper};
use derive_kit::types::{Segment, TypeExpr};

fn param(name: &str, bounds: &[&str]) -> GenericParam {
    GenericParam {
        name: name.to_string(),
        kind: ParamKind::Type,
        bounds: bounds.iter().map(|b| b.to_string()).collect(),
    }
}

fn field(name: &str, ty: TypeExpr) -> FieldDecl {
    FieldDecl { name: name.to_string(), ty, annotations: vec![] }
}

fn record(params: Vec<GenericParam>, fields: Vec<FieldDecl>) -> RecordDecl {
    RecordDecl {
        name: "R".to_string(),
        params,
        annotations: vec![],
        shape: RecordShape::Named,
        fields,
    }
}

fn bound(clause: &str) -> Annotation {
    Annotation {
        name: "debug".to_string(),
        form: AnnotationForm::List(vec![AnnotationItem {
            key: "bound".to_string(),
            value: Some(Literal::Text(clause.to_string())),
        }]),
    }
}

fn bounds_of(params: &[GenericParam]) -> Vec<Vec<&str>> {
    params.iter().map(|p| p.bounds.iter().map(|b| b.as_str()).collect()).collect()
}

fn marker(of: TypeExpr) -> TypeExpr {
    TypeExpr::wrap("PhantomData", of)
}

#[test]
fn associated_type_is_bounded_in_place_of_its_parameter() {
    let fragment = expand_debug(&field_decl()).unwrap();
    assert_eq!(fragment.record_name, "Field");
    assert_eq!(bounds_of(&fragment.params), vec![vec!["Trait"]]);
    assert_eq!(fragment.predicates, vec![Predicate::Formats(TypeExpr::associated("T", "Value"))]);
    assert_eq!(fragment.body.label, "Field");
    assert_eq!(
        fragment.body.entries,
        vec![DebugEntry { name: "values".to_string(), format: "{:?}".to_string() }]
    );
}

#[test]
fn clause_of_the_record_replaces_what_would_be_inferred() {
    let fragment = expand_debug(&wrapper_decl()).unwrap();
    assert_eq!(fragment.record_name, "Wrapper");
    assert_eq!(bounds_of(&fragment.params), vec![vec!["Trait"]]);
    assert_eq!(fragment.predicates, vec![Predicate::Verbatim("T::Value: Debug".to_string())]);
    let mut without = wrapper_decl();
    without.annotations.clear();
    let inferred = expand_debug(&without).unwrap();
    assert_eq!(bounds_of(&inferred.params), vec![vec!["Trait", "std::fmt::Debug"]]);
    assert!(inferred.predicates.is_empty());
}

#[test]
fn clause_that_is_no_predicate_is_rejected_at_its_annotation() {
    let mut r = wrapper_decl();
    r.annotations = vec![
        Annotation { name: "allow".to_string(), form: AnnotationForm::Word },
        bound("T::Value Debug ++"),
    ];
    let e = generate_debug_trait(&r).unwrap_err();
    assert_eq!(e.site, ErrorSite::TypeAnnotation(1));
    assert_eq!(e.kind, ErrorKind::RejectedBound);
    assert!(!e.message().is_empty());
    r.annotations = vec![bound("")];
    assert_eq!(expand_debug(&r).unwrap_err().kind, ErrorKind::RejectedBound);
    r.annotations = vec![bound("'a: 'b")];
    assert!(expand_debug(&r).is_ok());
}

#[test]
fn verdict_decides_only_where_there_is_a_clause() {
    let with = wrapper_decl();
    let ok = assemble_debug_trait(&with, None).unwrap();
    assert_eq!(ok.predicates, vec![Predicate::Verbatim("T::Value: Debug".to_string())]);
    let e = assemble_debug_trait(&with, Some("no".to_string())).unwrap_err();
    assert_eq!((e.site, e.kind, e.detail.as_str()), (ErrorSite::TypeAnnotation(0), ErrorKind::RejectedBound, "no"));
    let without = field_decl();
    assert_eq!(
        assemble_debug_trait(&without, Some("no".to_string())),
        assemble_debug_trait(&without, None)
    );
}

#[test]
fn marker_only_parameter_gets_no_bound() {
    let r = record(
        vec![param("T", &[]), param("U", &["Clone"])],
        vec![field("marker", marker(TypeExpr::name("T"))), field("value", TypeExpr::name("U"))],
    );
    let plan = infer_bounds(&r);
    assert_eq!(bounds_of(&plan.params), vec![vec![], vec!["Clone", "std::fmt::Debug"]]);
    assert!(plan.predicates.is_empty());
}

#[test]
fn direct_use_wins_over_marker_and_associated_use() {
    let r = record(
        vec![param("T", &["Trait"])],
        vec![
            field("marker", marker(TypeExpr::name("T"))),
            field("inner", TypeExpr::wrap("Vec", TypeExpr::associated("T", "Value"))),
            field("boxed", TypeExpr::wrap("Box", TypeExpr::wrap("Option", TypeExpr::name("T")))),
        ],
    );
    let plan = infer_bounds(&r);
    assert_eq!(bounds_of(&plan.params), vec![vec!["Trait", "std::fmt::Debug"]]);
    assert!(plan.predicates.is_empty());
}

#[test]
fn marker_and_associated_use_together_bound_only_the_associated_type() {
    let r = record(
        vec![param("T", &["Trait"])],
        vec![
            field("marker", marker(TypeExpr::name("T"))),
            field("inner", TypeExpr::associated("T", "Value")),
        ],
    );
    let plan = infer_bounds(&r);
    assert_eq!(bounds_of(&plan.params), vec![vec!["Trait"]]);
    assert_eq!(plan.predicates, vec![Predicate::Formats(TypeExpr::associated("T", "Value"))]);
}

#[test]
fn unused_and_untyped_parameters() {
    let lifetime = GenericParam { name: "'a".to_string(), kind: ParamKind::Lifetime, bounds: vec![] };
    let size = GenericParam { name: "N".to_string(), kind: ParamKind::Const, bounds: vec![] };
    let r = record(
        vec![lifetime, param("T", &[]), size],
        vec![field("n", TypeExpr::name("N"))],
    );
    let plan = infer_bounds(&r);
    assert_eq!(bounds_of(&plan.params), vec![vec![], vec!["std::fmt::Debug"], vec![]]);
    assert_eq!(plan.params[0].kind, ParamKind::Lifetime);
    assert_eq!(plan.params[2].name, "N");
}

#[test]
fn associated_paths_are_listed_once_in_reading_order() {
    let value = TypeExpr::associated("T", "Value");
    let error = TypeExpr::associated("U", "Error");
    let foreign = TypeExpr::associated("std", "String");
    let r = record(
        vec![param("T", &[]), param("U", &[])],
        vec![
            field("a", TypeExpr::wrap("Vec", TypeExpr::associated("U", "Error"))),
            field(
                "b",
                TypeExpr::Other {
                    text: "(T::Value, U::Error, std::String)".to_string(),
                    parts: vec![value.duplicate(), error.duplicate(), foreign],
                },
            ),
            field("c", TypeExpr::associated("T", "Value")),
        ],
    );
    let uses = get_generic_associated_types(&r);
    assert_eq!(uses.paths, vec![error.duplicate(), value.duplicate()]);
    assert!(uses.contains_key(&"T".to_string()));
    assert!(!uses.contains_key(&"std".to_string()));
    let plan = infer_bounds(&r);
    assert_eq!(plan.predicates, vec![Predicate::Formats(error), Predicate::Formats(value)]);
    assert_eq!(bounds_of(&plan.params), vec![Vec::<&str>::new(), vec![]]);
}

#[test]
fn path_rooted_at_a_lifetime_or_const_is_no_associated_type() {
    let n = GenericParam { name: "N".to_string(), kind: ParamKind::Const, bounds: vec![] };
    let r = record(vec![n], vec![field("a", TypeExpr::associated("N", "Value"))]);
    assert!(get_generic_associated_types(&r).paths.is_empty());
}

#[test]
fn visiting_appends_behind_what_is_there() {
    let params = vec![param("T", &[])];
    let nested = TypeExpr::Named {
        global: false,
        segments: vec![
            Segment { ident: "T".to_string(), args: vec![] },
            Segment { ident: "Map".to_string(), args: vec![TypeExpr::associated("T", "Key")] },
        ],
    };
    let mut out = vec![TypeExpr::name("before")];
    visit_type_path(&nested, &params, &mut out);
    assert_eq!(out, vec![TypeExpr::name("before"), nested.duplicate(), TypeExpr::associated("T", "Key")]);
    let mut out = vec![];
    visit_types(&vec![TypeExpr::name("T"), TypeExpr::associated("T", "A")], &params, &mut out);
    assert_eq!(out, vec![TypeExpr::associated("T", "A")]);
    let mut out = vec![];
    if let TypeExpr::Named { segments, .. } = &nested {
        visit_segments(segments, &params, &mut out);
    }
    assert_eq!(out, vec![TypeExpr::associated("T", "Key")]);
}

#[test]
fn uses_are_told_apart_by_where_the_name_stands() {
    let t = "T".to_string();
    let deep = TypeExpr::wrap("Box", TypeExpr::wrap("Vec", TypeExpr::name("T")));
    assert!(mentions(&deep, &t, false, false));
    assert!(!mentions(&deep, &t, false, true));
    let carried = marker(TypeExpr::name("T"));
    assert!(!mentions(&carried, &t, false, false));
    assert!(mentions(&carried, &t, false, true));
    let under = marker(TypeExpr::wrap("Vec", TypeExpr::name("T")));
    assert!(mentions(&under, &t, false, false));
    assert!(!mentions(&under, &t, false, true));
    let assoc = TypeExpr::associated("T", "Value");
    assert!(!mentions(&assoc, &t, false, false));
    assert!(mentions(&assoc, &"Value".to_string(), false, false));
    let reference = TypeExpr::Other { text: "&'a T".to_string(), parts: vec![TypeExpr::name("T")] };
    assert!(mentions(&reference, &t, false, false));
    assert!(mentions(&TypeExpr::name("T"), &t, true, true));
    assert!(!mentions(&TypeExpr::name("T"), &t, true, false));
    assert!(mentions_among(&vec![TypeExpr::name("u8"), TypeExpr::name("T")], &t, false, false));
    assert!(!mentions_among(&vec![], &t, false, false));
    let two_args = TypeExpr::Named {
        global: false,
        segments: vec![Segment {
            ident: "PhantomData".to_string(),
            args: vec![TypeExpr::name("T"), TypeExpr::name("U")],
        }],
    };
    assert!(mentions(&two_args, &t, false, false));
    if let TypeExpr::Named { segments, .. } = &carried {
        assert!(mentions_in_segments(segments, &t, true));
        assert!(!mentions_in_segments(segments, &t, false));
    }
    let fields = vec![field("m", carried), field("d", deep)];
    assert!(fields_mention(&fields, &t, false));
    assert!(fields_mention(&fields, &t, true));
    assert!(!fields_mention(&fields, &"U".to_string(), false));
}

#[test]
fn field_type_names() {
    let f = field("a", TypeExpr::wrap("Vec", TypeExpr::name("T")));
    assert_eq!(get_field_type_name(&f), Some("Vec".to_string()));
    assert_eq!(get_phantomdata_generic_type_name(&f), None);
    let m = field("m", marker(TypeExpr::name("T")));
    assert_eq!(get_field_type_name(&m), Some("PhantomData".to_string()));
    assert_eq!(get_phantomdata_generic_type_name(&m), Some("T".to_string()));
    let other = field("o", TypeExpr::Other { text: "()".to_string(), parts: vec![] });
    assert_eq!(get_field_type_name(&other), None);
    let odd = field("m", marker(TypeExpr::Other { text: "()".to_string(), parts: vec![] }));
    assert_eq!(get_phantomdata_generic_type_name(&odd), None);
}

#[test]
fn printed_fields_keep_names_and_order() {
    let mut r = record(
        vec![],
        vec![
            field("zeta", TypeExpr::name("u8")),
            field("alpha", TypeExpr::name("u8")),
            field("mid", TypeExpr::name("u8")),
        ],
    );
    r.name = "Order".to_string();
    r.fields[1].annotations.push(Annotation {
        name: "debug".to_string(),
        form: AnnotationForm::Assigned(Literal::Text("0b{:08b}".to_string())),
    });
    let body = generate_debug_trait_core(&r).unwrap();
    assert_eq!(body.label, "Order");
    let printed: Vec<(&str, &str)> =
        body.entries.iter().map(|e| (e.name.as_str(), e.format.as_str())).collect();
    assert_eq!(printed, vec![("zeta", "{:?}"), ("alpha", "0b{:08b}"), ("mid", "{:?}")]);
    let names: Vec<&str> = r.fields.iter().map(|f| f.name.as_str()).collect();
    let labels: Vec<&str> = body.entries.iter().map(|e| e.name.as_str()).collect();
    assert_eq!(labels, names);
}

#[test]
fn printer_rejects_what_is_no_named_record_first() {
    let mut r = wrapper_decl();
    r.shape = RecordShape::Unit;
    r.annotations = vec![bound("not a clause at all ::")];
    let e = expand_debug(&r).unwrap_err();
    assert_eq!((e.site, e.kind), (ErrorSite::Declaration, ErrorKind::NeedsStruct));
    assert_eq!(e.message(), "Must define on a Struct");
    assert!(get_fields_from_derive_input(&r).is_err());
    r.shape = RecordShape::Union;
    assert_eq!(generate_debug_trait_core(&r).unwrap_err().kind, ErrorKind::NeedsStruct);
}

#[test]
fn field_rejection_comes_before_the_record_annotations() {
    let mut r = wrapper_decl();
    r.annotations = vec![Annotation { name: "debug".to_string(), form: AnnotationForm::Word }];
    let e = expand_debug(&r).unwrap_err();
    assert_eq!((e.site, e.kind), (ErrorSite::TypeAnnotation(0), ErrorKind::ExpectedBound));
    r.fields[0].annotations.push(Annotation {
        name: "debug".to_string(),
        form: AnnotationForm::Word,
    });
    let e = expand_debug(&r).unwrap_err();
    assert_eq!((e.site, e.kind), (ErrorSite::FieldAnnotation(0, 0), ErrorKind::ExpectedFormat));
}

#[test]
fn override_keeps_every_parameter_as_declared() {
    let r = record(
        vec![param("T", &["Trait"]), param("U", &[])],
        vec![field("a", TypeExpr::name("T")), field("b", TypeExpr::name("U"))],
    );
    let plan = override_bounds(&r, &"T: Debug".to_string());
    assert_eq!(plan.params, r.params);
    assert_eq!(plan.predicates, vec![Predicate::Verbatim("T: Debug".to_string())]);
}

struct Id;

impl Trait for Id {
    type Value = u8;
}

#[test]
fn sample_types_hold_values_of_the_named_type() {
    let w: Wrapper<Id> = Wrapper { field: Field { values: vec![1u8, 2] } };
    assert_eq!(w.field.values, vec![1, 2]);
    assert_debug::<Vec<u8>>();
    assert_eq!(wrapper_decl().fields[0].ty, TypeExpr::wrap("Field", TypeExpr::name("T")));
    assert_eq!(field_decl().params[0].bounds, vec!["Trait".to_string()]);
}
