use derive_kit::builders::{
    expand_builder, generate_build_function, generate_builder_struct_factory_init_clauses,
    generate_builder_struct_fields_def, generate_setter_functions, get_fields_from_derive_input,
    BuilderFragment, FinalRule, InitValue, SetterAction, Storage,
};
use derive_kit::fault::{ErrorKind, ErrorSite};
use derive_kit::record::{
    Annotation, AnnotationForm, AnnotationItem, FieldDecl, Literal, RecordDecl, RecordShape,
};
use derive_kit::staged::{Argument, FieldValue, Slot, Staged};
use derive_kit::types::TypeExpr;

fn each(name: &str) -> Annotation {
    Annotation {
        name: "builder".to_string(),
        form: AnnotationForm::List(vec![AnnotationItem {
            key: "each".to_string(),
            value: Some(Literal::Text(name.to_string())),
        }]),
    }
}

fn field(name: &str, ty: TypeExpr, annotations: Vec<Annotation>) -> FieldDecl {
    FieldDecl { name: name.to_string(), ty, annotations }
}

fn record(name: &str, fields: Vec<FieldDecl>) -> RecordDecl {
    RecordDecl {
        name: name.to_string(),
        params: vec![],
        annotations: vec![],
        shape: RecordShape::Named,
        fields,
    }
}

fn strings() -> TypeExpr {
    TypeExpr::wrap("Vec", TypeExpr::name("String"))
}

fn command() -> RecordDecl {
    record(
        "Command",
        vec![
            field("executable", TypeExpr::name("String"), vec![]),
            field("args", strings(), vec![each("arg")]),
            field("env", strings(), vec![each("env")]),
            field("current_dir", TypeExpr::wrap("Option", TypeExpr::name("String")), vec![]),
        ],
    )
}

fn call(state: &mut Staged<String>, fragment: &BuilderFragment, name: &str, arg: Argument<String>) -> bool {
    let at = fragment.setter_named(name).unwrap();
    state.call(&fragment.setters[at], arg)
}

fn one(s: &str) -> Argument<String> {
    Argument::One(s.to_string())
}

#[test]
fn command_builds_with_two_args_one_env_and_no_dir() {
    let fragment = expand_builder(&command()).unwrap();
    let mut state: Staged<String> = Staged::start(&fragment);
    assert!(call(&mut state, &fragment, "executable", one("cargo")));
    assert!(call(&mut state, &fragment, "arg", one("build")));
    assert!(call(&mut state, &fragment, "arg", one("--release")));
    assert!(call(&mut state, &fragment, "env", one("RUST_LOG=info")));
    let built = state.finish().unwrap();
    assert_eq!(
        built,
        vec![
            FieldValue::Plain("cargo".to_string()),
            FieldValue::Repeated(vec!["build".to_string(), "--release".to_string()]),
            FieldValue::Repeated(vec!["RUST_LOG=info".to_string()]),
            FieldValue::Optional(None),
        ]
    );
    match &built[1] {
        FieldValue::Repeated(args) => assert_eq!(args.len(), 2),
        other => panic!("args came out as {:?}", other),
    }
    match &built[2] {
        FieldValue::Repeated(env) => assert_eq!(env.len(), 1),
        other => panic!("env came out as {:?}", other),
    }
}

#[test]
fn command_without_executable_names_it() {
    let fragment = expand_builder(&command()).unwrap();
    let mut state: Staged<String> = Staged::start(&fragment);
    assert!(call(&mut state, &fragment, "arg", one("build")));
    assert!(call(&mut state, &fragment, "env", one("A=1")));
    assert!(call(&mut state, &fragment, "current_dir", one("..")));
    assert_eq!(state.finish(), Err("executable field missing".to_string()));
}

#[test]
fn command_fragment_is_laid_out_field_by_field() {
    let fragment = expand_builder(&command()).unwrap();
    assert_eq!(fragment.record_name, "Command");
    assert_eq!(fragment.builder_name, "CommandBuilder");
    let slots: Vec<(&str, &Storage)> =
        fragment.slots.iter().map(|s| (s.name.as_str(), &s.storage)).collect();
    assert_eq!(
        slots,
        vec![
            ("executable", &Storage::OptionOf(TypeExpr::name("String"))),
            ("args", &Storage::Collection(strings())),
            ("env", &Storage::Collection(strings())),
            ("current_dir", &Storage::OptionOf(TypeExpr::name("String"))),
        ]
    );
    let inits: Vec<(&str, InitValue)> =
        fragment.inits.iter().map(|c| (c.name.as_str(), c.value)).collect();
    assert_eq!(
        inits,
        vec![
            ("executable", InitValue::Absent),
            ("args", InitValue::Empty),
            ("env", InitValue::Empty),
            ("current_dir", InitValue::Absent),
        ]
    );
    let steps: Vec<(&str, FinalRule)> =
        fragment.build.steps.iter().map(|s| (s.name.as_str(), s.rule)).collect();
    assert_eq!(fragment.build.record, "Command");
    assert_eq!(
        steps,
        vec![
            ("executable", FinalRule::Require),
            ("args", FinalRule::Pass),
            ("env", FinalRule::Pass),
            ("current_dir", FinalRule::Pass),
        ]
    );
}

#[test]
fn command_setters_include_bulk_only_where_names_differ() {
    let fragment = expand_builder(&command()).unwrap();
    let setters: Vec<(&str, usize, &TypeExpr, SetterAction)> = fragment
        .setters
        .iter()
        .map(|s| (s.name.as_str(), s.slot, &s.param, s.action))
        .collect();
    let string = TypeExpr::name("String");
    let list = strings();
    assert_eq!(
        setters,
        vec![
            ("executable", 0, &string, SetterAction::Store),
            ("arg", 1, &string, SetterAction::Append),
            ("args", 1, &list, SetterAction::Overwrite),
            ("env", 2, &string, SetterAction::Append),
            ("current_dir", 3, &string, SetterAction::Store),
        ]
    );
}

#[test]
fn plain_record_round_trips() {
    let r = record(
        "Point",
        vec![
            field("x", TypeExpr::name("i32"), vec![]),
            field("y", TypeExpr::name("i32"), vec![]),
            field("label", TypeExpr::name("String"), vec![]),
        ],
    );
    let fragment = expand_builder(&r).unwrap();
    assert_eq!(fragment.setters.len(), 3);
    let mut state: Staged<u32> = Staged::start(&fragment);
    let values = [7u32, 11, 13];
    for k in 0..3 {
        assert!(state.call(&fragment.setters[k], Argument::One(values[k])));
    }
    assert_eq!(
        state.finish(),
        Ok(vec![FieldValue::Plain(7), FieldValue::Plain(11), FieldValue::Plain(13)])
    );
}

#[test]
fn later_store_replaces_earlier() {
    let r = record("One", vec![field("x", TypeExpr::name("i32"), vec![])]);
    let fragment = expand_builder(&r).unwrap();
    let mut state: Staged<u32> = Staged::start(&fragment);
    assert!(state.call(&fragment.setters[0], Argument::One(1)));
    assert!(state.call(&fragment.setters[0], Argument::One(2)));
    assert_eq!(state.finish(), Ok(vec![FieldValue::Plain(2)]));
}

#[test]
fn unset_optional_is_absent_and_set_optional_is_present() {
    let r = record(
        "Maybe",
        vec![
            field("a", TypeExpr::wrap("Option", TypeExpr::name("u8")), vec![]),
            field("b", TypeExpr::wrap("Option", TypeExpr::name("u8")), vec![]),
        ],
    );
    let fragment = expand_builder(&r).unwrap();
    let mut state: Staged<u32> = Staged::start(&fragment);
    assert!(state.call(&fragment.setters[1], Argument::One(5)));
    assert_eq!(
        state.finish(),
        Ok(vec![FieldValue::Optional(None), FieldValue::Optional(Some(5))])
    );
}

#[test]
fn first_missing_plain_field_is_the_one_reported() {
    let r = record(
        "Three",
        vec![
            field("a", TypeExpr::name("u8"), vec![]),
            field("b", TypeExpr::name("u8"), vec![]),
            field("c", TypeExpr::name("u8"), vec![]),
        ],
    );
    let fragment = expand_builder(&r).unwrap();
    let mut state: Staged<u32> = Staged::start(&fragment);
    assert!(state.call(&fragment.setters[0], Argument::One(1)));
    assert_eq!(state.finish(), Err("b field missing".to_string()));
    let untouched: Staged<u32> = Staged::start(&fragment);
    assert_eq!(untouched.finish(), Err("a field missing".to_string()));
}

#[test]
fn repeated_field_keeps_call_order_and_bulk_overwrites() {
    let r = record("Bag", vec![field("items", strings(), vec![each("item")])]);
    let fragment = expand_builder(&r).unwrap();
    let mut state: Staged<u32> = Staged::start(&fragment);
    for v in [3u32, 1, 2, 1] {
        assert!(call_u32(&mut state, &fragment, "item", Argument::One(v)));
    }
    assert_eq!(state.entries[0].slot, Slot::Many(vec![3, 1, 2, 1]));
    assert!(call_u32(&mut state, &fragment, "items", Argument::Whole(vec![9, 8])));
    assert_eq!(state.entries[0].slot, Slot::Many(vec![9, 8]));
    assert!(call_u32(&mut state, &fragment, "item", Argument::One(7)));
    assert_eq!(state.finish(), Ok(vec![FieldValue::Repeated(vec![9, 8, 7])]));
}

fn call_u32(state: &mut Staged<u32>, fragment: &BuilderFragment, name: &str, arg: Argument<u32>) -> bool {
    let at = fragment.setter_named(name).unwrap();
    state.call(&fragment.setters[at], arg)
}

#[test]
fn repeated_field_without_calls_is_empty() {
    let r = record("Bag", vec![field("items", strings(), vec![each("item")])]);
    let fragment = expand_builder(&r).unwrap();
    let state: Staged<u32> = Staged::start(&fragment);
    assert_eq!(state.finish(), Ok(vec![FieldValue::Repeated(vec![])]));
}

#[test]
fn singular_setter_named_like_the_field_stands_alone() {
    let r = record("Bag", vec![field("items", strings(), vec![each("items")])]);
    let fragment = expand_builder(&r).unwrap();
    assert_eq!(fragment.setters.len(), 1);
    assert_eq!(fragment.setters[0].name, "items");
    assert_eq!(fragment.setters[0].action, SetterAction::Append);
    assert_eq!(fragment.setters[0].param, TypeExpr::name("String"));
}

#[test]
fn call_that_does_not_fit_changes_nothing() {
    let fragment = expand_builder(&command()).unwrap();
    let mut state: Staged<String> = Staged::start(&fragment);
    let before = Staged::<String>::start(&fragment);
    assert!(!call(&mut state, &fragment, "executable", Argument::Whole(vec![])));
    assert!(!call(&mut state, &fragment, "arg", Argument::Whole(vec!["x".to_string()])));
    assert!(!call(&mut state, &fragment, "args", one("x")));
    assert_eq!(state, before);
    assert_eq!(fragment.setter_named("nothing"), None);
    assert_eq!(fragment.setter_named("args"), Some(2));
}

#[test]
fn tuple_struct_is_rejected_by_the_builder() {
    let mut r = command();
    r.shape = RecordShape::Tuple;
    let e = expand_builder(&r).unwrap_err();
    assert_eq!(e.site, ErrorSite::Declaration);
    assert_eq!(e.kind, ErrorKind::NeedsNamedFields);
    assert_eq!(e.message(), "this derive macro only works on structs with named fields");
    assert!(get_fields_from_derive_input(&r).is_err());
    r.shape = RecordShape::Enum;
    assert_eq!(expand_builder(&r).unwrap_err().kind, ErrorKind::NeedsNamedFields);
}

#[test]
fn each_on_a_field_that_is_no_vec_is_rejected_at_the_annotation() {
    let r = record(
        "Bad",
        vec![
            field("fine", TypeExpr::name("u8"), vec![]),
            field(
                "name",
                TypeExpr::name("String"),
                vec![
                    Annotation { name: "doc".to_string(), form: AnnotationForm::Word },
                    each("n"),
                ],
            ),
        ],
    );
    let e = expand_builder(&r).unwrap_err();
    assert_eq!(e.site, ErrorSite::FieldAnnotation(1, 1));
    assert_eq!(e.kind, ErrorKind::NeedsCollection);
    assert_eq!(e.message(), "each field must be specified with Vec field");
}

#[test]
fn each_on_an_option_is_rejected_too() {
    let r = record(
        "Bad",
        vec![field("x", TypeExpr::wrap("Option", TypeExpr::name("u8")), vec![each("y")])],
    );
    let e = expand_builder(&r).unwrap_err();
    assert_eq!(e.kind, ErrorKind::NeedsCollection);
    assert_eq!(e.site, ErrorSite::FieldAnnotation(0, 0));
}

#[test]
fn every_part_generator_reports_the_first_bad_field() {
    let bad_key = Annotation {
        name: "builder".to_string(),
        form: AnnotationForm::List(vec![AnnotationItem {
            key: "eac".to_string(),
            value: Some(Literal::Text("arg".to_string())),
        }]),
    };
    let fields = vec![
        field("a", TypeExpr::name("u8"), vec![]),
        field("b", strings(), vec![bad_key]),
        field("c", TypeExpr::name("u8"), vec![each("x")]),
    ];
    let expect = (ErrorSite::FieldAnnotation(1, 0), ErrorKind::ExpectedEach);
    let e = generate_builder_struct_fields_def(&fields).unwrap_err();
    assert_eq!((e.site, e.kind), expect);
    let e = generate_builder_struct_factory_init_clauses(&fields).unwrap_err();
    assert_eq!((e.site, e.kind), expect);
    let e = generate_setter_functions(&fields).unwrap_err();
    assert_eq!((e.site, e.kind), expect);
    let e = generate_build_function(&fields, &"R".to_string()).unwrap_err();
    assert_eq!((e.site, e.kind), expect);
    assert_eq!(e.message(), "expected `builder(each = \"...\")`");
}

#[test]
fn record_without_fields_builds_an_empty_record() {
    let fragment = expand_builder(&record("Unit", vec![])).unwrap();
    assert_eq!(fragment.builder_name, "UnitBuilder");
    assert!(fragment.slots.is_empty() && fragment.setters.is_empty());
    let state: Staged<u32> = Staged::start(&fragment);
    assert_eq!(state.finish(), Ok(vec![]));
}
