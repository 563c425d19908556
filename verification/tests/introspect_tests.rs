use derive_kit::fault::{ErrorKind, ErrorSite, GenError};
use derive_kit::introspect::{
    classify, classify_all, find_setting, get_custom_format_of_field, get_struct_escape_hatch,
    get_user_specified_ident_for_vec, FieldClassification, Misread, Setting, Vocabulary,
};
use derive_kit::record::{
    Annotation, AnnotationForm, AnnotationItem, FieldDecl, Literal, RecordDecl, RecordShape,
};
use derive_kit::types::{
    copy_texts, get_generic_inner_type, get_optional_inner_type, is_text, Segment,
    TypeExpr,
};

fn list(name: &str, items: Vec<(&str, Option<Literal>)>) -> Annotation {
    Annotation {
        name: name.to_string(),
        form: AnnotationForm::List(
            items
                .into_iter()
                .map(|(key, value)| AnnotationItem { key: key.to_string(), value })
                .collect(),
        ),
    }
}

fn text(s: &str) -> Option<Literal> {
    Some(Literal::Text(s.to_string()))
}

fn assigned(name: &str, value: Literal) -> Annotation {
    Annotation { name: name.to_string(), form: AnnotationForm::Assigned(value) }
}

fn field(name: &str, ty: TypeExpr, annotations: Vec<Annotation>) -> FieldDecl {
    FieldDecl { name: name.to_string(), ty, annotations }
}

fn path(names: &[&str], last_args: Vec<TypeExpr>) -> TypeExpr {
    let mut segments: Vec<Segment> =
        names.iter().map(|n| Segment { ident: n.to_string(), args: vec![] }).collect();
    segments.last_mut().unwrap().args = last_args;
    TypeExpr::Named { global: false, segments }
}

#[test]
fn option_is_found_by_its_last_segment() {
    let inner = TypeExpr::name("u8");
    let full = path(&["std", "option", "Option"], vec![TypeExpr::name("u8")]);
    assert_eq!(get_optional_inner_type(&full), Some(&inner));
    assert_eq!(get_generic_inner_type(&full, "Option"), Some(&inner));
    assert_eq!(get_generic_inner_type(&full, "Vec"), None);
    let short = TypeExpr::wrap("Option", TypeExpr::name("u8"));
    assert_eq!(get_optional_inner_type(&short), Some(&inner));
}

#[test]
fn wrapper_needs_exactly_one_argument() {
    let none = TypeExpr::name("Option");
    assert_eq!(get_optional_inner_type(&none), None);
    let two = path(&["Option"], vec![TypeExpr::name("A"), TypeExpr::name("B")]);
    assert_eq!(get_optional_inner_type(&two), None);
    let other = TypeExpr::Other { text: "&Option<u8>".to_string(), parts: vec![TypeExpr::wrap("Option", TypeExpr::name("u8"))] };
    assert_eq!(get_optional_inner_type(&other), None);
    let empty = TypeExpr::Named { global: false, segments: vec![] };
    assert_eq!(get_optional_inner_type(&empty), None);
    assert_eq!(empty.ending(), None);
}

#[test]
fn type_expressions_compare_and_copy_by_what_is_written() {
    let a = path(&["std", "vec", "Vec"], vec![TypeExpr::associated("T", "Value")]);
    let b = a.duplicate();
    assert!(a.same(&b));
    assert_eq!(a, b);
    let c = path(&["std", "vec", "Vec"], vec![TypeExpr::associated("T", "Other")]);
    assert!(!a.same(&c));
    let global = TypeExpr::Named {
        global: true,
        segments: vec![Segment { ident: "T".to_string(), args: vec![] }],
    };
    assert!(!global.same(&TypeExpr::name("T")));
    let kept = TypeExpr::Other { text: "&'a T".to_string(), parts: vec![TypeExpr::name("T")] };
    assert!(kept.same(&kept.duplicate()));
    assert!(!kept.same(&TypeExpr::name("T")));
    assert!(!TypeExpr::name("T").same(&kept));
    assert_eq!(a.ending().map(|s| s.as_str()), Some("Vec"));
    assert_eq!(a.last_segment().unwrap().args.len(), 1);
    let seg = Segment { ident: "A".to_string(), args: vec![TypeExpr::name("B")] };
    assert!(seg.same(&seg.duplicate()));
    assert!(!seg.same(&Segment { ident: "A".to_string(), args: vec![] }));
}

#[test]
fn text_helpers_compare_and_copy() {
    assert!(is_text(&"each".to_string(), "each"));
    assert!(!is_text(&"each".to_string(), "eac"));
    let v = vec!["a".to_string(), "b".to_string()];
    assert_eq!(copy_texts(&v), v);
}

#[test]
fn fields_are_sorted_into_three_kinds() {
    let plain = field("a", TypeExpr::name("String"), vec![]);
    assert_eq!(classify(&plain, 0), Ok(FieldClassification::Plain));
    let optional = field("b", TypeExpr::wrap("Option", TypeExpr::name("String")), vec![]);
    assert_eq!(classify(&optional, 1), Ok(FieldClassification::Optional(TypeExpr::name("String"))));
    let repeated = field(
        "c",
        TypeExpr::wrap("Vec", TypeExpr::name("String")),
        vec![list("builder", vec![("each", text("one"))])],
    );
    assert_eq!(
        classify(&repeated, 2),
        Ok(FieldClassification::Repeated(TypeExpr::name("String"), "one".to_string()))
    );
    let vec_without_each = field("d", TypeExpr::wrap("Vec", TypeExpr::name("String")), vec![]);
    assert_eq!(classify(&vec_without_each, 3), Ok(FieldClassification::Plain));
    assert_eq!(
        classify_all(&vec![plain, optional]),
        Ok(vec![
            FieldClassification::Plain,
            FieldClassification::Optional(TypeExpr::name("String"))
        ])
    );
}

#[test]
fn last_each_wins_and_other_annotations_are_passed_over() {
    let f = field(
        "c",
        TypeExpr::wrap("Vec", TypeExpr::name("u8")),
        vec![
            list("builder", vec![("each", text("first"))]),
            assigned("doc", Literal::Text("a field".to_string())),
            list("serde", vec![("rename", text("x"))]),
            list("builder", vec![("each", text("second")), ("each", text("third"))]),
            list("builder", vec![]),
        ],
    );
    assert_eq!(
        get_user_specified_ident_for_vec(&f, 4),
        Ok(Some(Setting { text: "third".to_string(), at: 3 }))
    );
    let none = field("d", TypeExpr::name("u8"), vec![assigned("doc", Literal::Other)]);
    assert_eq!(get_user_specified_ident_for_vec(&none, 0), Ok(None));
}

#[test]
fn malformed_builder_annotations_are_rejected() {
    let cases: Vec<(Annotation, ErrorKind)> = vec![
        (list("builder", vec![("eac", text("x"))]), ErrorKind::ExpectedEach),
        (list("builder", vec![("each", Some(Literal::Other))]), ErrorKind::ExpectedText),
        (list("builder", vec![("each", None)]), ErrorKind::ExpectedEach),
        (Annotation { name: "builder".to_string(), form: AnnotationForm::Word }, ErrorKind::ExpectedEach),
        (assigned("builder", Literal::Text("x".to_string())), ErrorKind::ExpectedEach),
        (list("builder", vec![("each", text("ok")), ("other", None)]), ErrorKind::ExpectedEach),
    ];
    for (annotation, kind) in cases {
        let f = field("f", TypeExpr::wrap("Vec", TypeExpr::name("u8")), vec![
            assigned("doc", Literal::Other),
            annotation,
        ]);
        assert_eq!(
            get_user_specified_ident_for_vec(&f, 5),
            Err(GenError::at(ErrorSite::FieldAnnotation(5, 1), kind))
        );
        assert_eq!(classify(&f, 5), Err(GenError::at(ErrorSite::FieldAnnotation(5, 1), kind)));
    }
}

#[test]
fn first_misread_annotation_stops_the_reading() {
    let annotations = vec![
        list("builder", vec![("each", text("ok"))]),
        list("builder", vec![("each", Some(Literal::Other))]),
        list("builder", vec![("nope", None)]),
    ];
    assert_eq!(
        find_setting(Vocabulary::Each, &annotations),
        Err(Misread { kind: ErrorKind::ExpectedText, at: 1 })
    );
    assert_eq!(find_setting(Vocabulary::Format, &annotations), Ok(None));
}

#[test]
fn custom_format_is_read_from_name_value_form() {
    let f = field("bits", TypeExpr::name("u8"), vec![assigned("debug", Literal::Text("0b{:08b}".to_string()))]);
    assert_eq!(get_custom_format_of_field(&f, 0), Ok(Some("0b{:08b}".to_string())));
    let plain = field("n", TypeExpr::name("u8"), vec![Annotation { name: "doc".to_string(), form: AnnotationForm::Word }]);
    assert_eq!(get_custom_format_of_field(&plain, 0), Ok(None));
    let wrong = field("n", TypeExpr::name("u8"), vec![assigned("debug", Literal::Other)]);
    assert_eq!(
        get_custom_format_of_field(&wrong, 2),
        Err(GenError::at(ErrorSite::FieldAnnotation(2, 0), ErrorKind::ExpectedText))
    );
    let listed = field("n", TypeExpr::name("u8"), vec![list("debug", vec![("bound", text("x"))])]);
    let e = get_custom_format_of_field(&listed, 3).unwrap_err();
    assert_eq!(e, GenError::at(ErrorSite::FieldAnnotation(3, 0), ErrorKind::ExpectedFormat));
    assert_eq!(e.message(), "expected `debug = \"...\"`");
}

fn with_annotations(annotations: Vec<Annotation>) -> RecordDecl {
    RecordDecl {
        name: "R".to_string(),
        params: vec![],
        annotations,
        shape: RecordShape::Named,
        fields: vec![],
    }
}

#[test]
fn override_clause_is_read_from_the_record() {
    let r = with_annotations(vec![
        list("derive", vec![("CustomDebug", None)]),
        list("debug", vec![("bound", text("T: Debug"))]),
    ]);
    assert_eq!(
        get_struct_escape_hatch(&r),
        Ok(Some(Setting { text: "T: Debug".to_string(), at: 1 }))
    );
    assert_eq!(get_struct_escape_hatch(&with_annotations(vec![])), Ok(None));
    let unknown = with_annotations(vec![list("debug", vec![("bounds", text("T: Debug"))])]);
    let e = get_struct_escape_hatch(&unknown).unwrap_err();
    assert_eq!(e, GenError::at(ErrorSite::TypeAnnotation(0), ErrorKind::ExpectedBound));
    assert_eq!(e.message(), "expected `debug(bound = \"...\")`");
    let number = with_annotations(vec![list("debug", vec![("bound", Some(Literal::Other))])]);
    let e = get_struct_escape_hatch(&number).unwrap_err();
    assert_eq!(e, GenError::at(ErrorSite::TypeAnnotation(0), ErrorKind::ExpectedText));
    assert_eq!(e.message(), "expected string literal");
    let word = with_annotations(vec![assigned("debug", Literal::Text("x".to_string()))]);
    assert_eq!(get_struct_escape_hatch(&word).unwrap_err().kind, ErrorKind::ExpectedBound);
}

#[test]
fn rejection_with_words_shows_the_words() {
    let e = GenError {
        site: ErrorSite::TypeAnnotation(0),
        kind: ErrorKind::RejectedBound,
        detail: "expected `:`".to_string(),
    };
    assert_eq!(e.message(), "expected `:`");
    let bare = GenError::at(ErrorSite::TypeAnnotation(0), ErrorKind::RejectedBound);
    assert_eq!(bare.detail, "");
    assert_eq!(bare.message(), "bound is not a where-clause predicate");
    assert_eq!(
        GenError::at(ErrorSite::Declaration, ErrorKind::NeedsStruct).message(),
        "Must define on a Struct"
    );
}

#[test]
fn types_are_written_out_as_source_text() {
    assert_eq!(TypeExpr::name("String").to_text(), "String");
    assert_eq!(TypeExpr::wrap("Vec", TypeExpr::associated("T", "Value")).to_text(), "Vec<T::Value>");
    let map = path(
        &["std", "collections", "HashMap"],
        vec![
            TypeExpr::name("K"),
            TypeExpr::Other { text: "& 'a [V]".to_string(), parts: vec![TypeExpr::name("V")] },
            TypeExpr::wrap("Option", TypeExpr::wrap("Box", TypeExpr::name("T"))),
        ],
    );
    assert_eq!(map.to_text(), "std::collections::HashMap<K, & 'a [V], Option<Box<T>>>");
    let global = TypeExpr::Named {
        global: true,
        segments: vec![
            Segment { ident: "core".to_string(), args: vec![] },
            Segment { ident: "marker".to_string(), args: vec![] },
            Segment { ident: "PhantomData".to_string(), args: vec![TypeExpr::name("T")] },
        ],
    };
    assert_eq!(global.to_text(), "::core::marker::PhantomData<T>");
    assert_eq!(TypeExpr::Named { global: false, segments: vec![] }.to_text(), "");
    let mut out = "x: ".to_string();
    derive_kit::types::push_type(&TypeExpr::name("u8"), &mut out);
    assert_eq!(out, "x: u8");
}
