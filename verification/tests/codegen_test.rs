use rseq_main::build_error::RseqBuildError;
use rseq_main::context::{
    check_context_keys, context_key, payload_file_name, payload_source, task_constant_source,
    ContextKey, ContextKeysSeen,
};
use rseq_main::macros::RseqMacro;
use rseq_main::rewrite::RseqItem;
use rseq_main::start_signature::{
    assert_rseq_start_signature, FnArgShape, FnSignatureShape, GenericArgShape, PathArgumentsShape,
    PathSegmentShape, PathShape, ReturnTypeShape, TypeKindShape, TypeShape,
};

fn path(text: &str, idents: &[&str]) -> TypeShape {
    TypeShape {
        text: text.to_string(),
        kind: TypeKindShape::Path(PathShape {
            leading_colon: false,
            segments: idents
                .iter()
                .map(|i| PathSegmentShape { ident: i.to_string(), arguments: PathArgumentsShape::NoArguments })
                .collect(),
        }),
    }
}

fn ptr_to(text: &str, inner: TypeShape) -> TypeShape {
    TypeShape { text: text.to_string(), kind: TypeKindShape::Ptr { mutable: true, pointee: Box::new(inner) } }
}

fn const_ptr_to(text: &str, inner: TypeShape) -> TypeShape {
    TypeShape { text: text.to_string(), kind: TypeKindShape::Ptr { mutable: false, pointee: Box::new(inner) } }
}

fn c_void_ptr() -> TypeShape {
    ptr_to("* mut c_void", path("c_void", &["c_void"]))
}

fn result_of(text: &str, first: TypeShape) -> TypeShape {
    TypeShape {
        text: text.to_string(),
        kind: TypeKindShape::Path(PathShape {
            leading_colon: false,
            segments: vec![PathSegmentShape {
                ident: "Result".to_string(),
                arguments: PathArgumentsShape::AngleBracketed(vec![
                    GenericArgShape::Type(first),
                    GenericArgShape::Type(path("E", &["E"])),
                ]),
            }],
        }),
    }
}

fn start_fn(name: &str, inputs: Vec<FnArgShape>, output: ReturnTypeShape) -> FnSignatureShape {
    FnSignatureShape { name: name.to_string(), inputs, output }
}

fn good_start() -> FnSignatureShape {
    start_fn(
        "MY_COUNTER_a",
        vec![FnArgShape::Typed(c_void_ptr()), FnArgShape::Typed(path("u32", &["u32"]))],
        ReturnTypeShape::Type(result_of("Result < * mut c_void , E >", c_void_ptr())),
    )
}

#[test]
fn a_well_formed_entry_passes() {
    assert!(assert_rseq_start_signature(&good_start()).is_ok());
}

#[test]
fn wrong_argument_count_is_reported() {
    let sig = start_fn("one", vec![FnArgShape::Typed(c_void_ptr())], ReturnTypeShape::Default);
    match assert_rseq_start_signature(&sig) {
        Err(RseqBuildError::RseqStartWrongArgumentCount { name, count }) => {
            assert_eq!(name, "one");
            assert_eq!(count, 1);
        }
        _ => panic!("expected an argument-count error"),
    }
}

#[test]
fn bad_first_argument_is_reported() {
    let mut sig = good_start();
    sig.inputs[0] = FnArgShape::Typed(ptr_to("* mut u64", path("u64", &["u64"])));
    match assert_rseq_start_signature(&sig) {
        Err(RseqBuildError::RseqStartFirstArgInvalid { actual, .. }) => assert_eq!(actual, "* mut u64"),
        _ => panic!("expected a first-argument error"),
    }
    sig.inputs[0] = FnArgShape::Receiver;
    match assert_rseq_start_signature(&sig) {
        Err(RseqBuildError::RseqStartFirstArgInvalid { actual, .. }) => assert_eq!(actual, "self"),
        _ => panic!("expected a first-argument error"),
    }
    // A qualified path is no single identifier.
    sig.inputs[0] = FnArgShape::Typed(ptr_to("* mut core :: ffi :: c_void", path("core :: ffi :: c_void", &["core", "ffi", "c_void"])));
    assert!(matches!(assert_rseq_start_signature(&sig), Err(RseqBuildError::RseqStartFirstArgInvalid { .. })));
    // A `*const c_void` is not the `*mut c_void` the rule asks for.
    sig.inputs[0] = FnArgShape::Typed(const_ptr_to("* const c_void", path("c_void", &["c_void"])));
    match assert_rseq_start_signature(&sig) {
        Err(RseqBuildError::RseqStartFirstArgInvalid { name, actual }) => {
            assert_eq!(name, "MY_COUNTER_a");
            assert_eq!(actual, "* const c_void");
        }
        _ => panic!("expected a first-argument error"),
    }
}

#[test]
fn const_pointer_result_is_a_return_error() {
    let mut sig = good_start();
    sig.output = ReturnTypeShape::Type(result_of(
        "Result < * const c_void , E >",
        const_ptr_to("* const c_void", path("c_void", &["c_void"])),
    ));
    match assert_rseq_start_signature(&sig) {
        Err(RseqBuildError::RseqStartReturnInvalid { actual, .. }) => assert_eq!(actual, "Result < * const c_void , E >"),
        _ => panic!("expected a return-type error"),
    }
}

#[test]
fn bad_second_argument_is_reported() {
    let mut sig = good_start();
    sig.inputs[1] = FnArgShape::Typed(path("u64", &["u64"]));
    match assert_rseq_start_signature(&sig) {
        Err(RseqBuildError::RseqStartSecondArgInvalid { name, actual }) => {
            assert_eq!(name, "MY_COUNTER_a");
            assert_eq!(actual, "u64");
        }
        _ => panic!("expected the error the rule reports for the second argument"),
    }
    sig.inputs[1] = FnArgShape::Receiver;
    assert!(matches!(assert_rseq_start_signature(&sig), Err(RseqBuildError::RseqStartSecondArgInvalid { .. })));
}

#[test]
fn bad_return_type_is_reported() {
    let mut sig = good_start();
    sig.output = ReturnTypeShape::Default;
    match assert_rseq_start_signature(&sig) {
        Err(RseqBuildError::RseqStartReturnInvalid { actual, .. }) => assert_eq!(actual, "()"),
        _ => panic!("expected a return-type error"),
    }
    sig.output = ReturnTypeShape::Type(path("u32", &["u32"]));
    assert!(matches!(assert_rseq_start_signature(&sig), Err(RseqBuildError::RseqStartReturnInvalid { .. })));
    sig.output = ReturnTypeShape::Type(result_of("Result < u32 , E >", path("u32", &["u32"])));
    match assert_rseq_start_signature(&sig) {
        Err(RseqBuildError::RseqStartReturnInvalid { actual, .. }) => assert_eq!(actual, "Result < u32 , E >"),
        _ => panic!("expected a return-type error"),
    }
}

#[test]
fn attributes_name_their_macros() {
    assert_eq!(RseqMacro::from_attribute_ident("rseq_commit_action"), Some(RseqMacro::CommitAction));
    assert_eq!(RseqMacro::from_attribute_ident("rseq_critical_section_start"), Some(RseqMacro::Start));
    assert_eq!(RseqMacro::from_attribute_ident("rseq_critical_section"), Some(RseqMacro::Section));
    assert_eq!(RseqMacro::from_attribute_ident("rseq_shared_struct"), Some(RseqMacro::SharedStruct));
    assert_eq!(RseqMacro::from_attribute_ident("inline"), None);
    let attrs = vec![None, Some("inline".to_string()), Some("rseq_critical_section".to_string()), Some("rseq_commit_action".to_string())];
    assert_eq!(RseqMacro::from_rust_attribure(&attrs), Some(RseqMacro::Section));
    assert_eq!(RseqMacro::from_rust_attribure(&attrs[..2]), None);
}

#[test]
fn each_macro_rewrites_its_items() {
    let commit = RseqMacro::CommitAction.item_rewrite(&RseqItem::Fn(good_start())).ok().unwrap().unwrap();
    assert_eq!(commit.attributes, vec!["unsafe(link_section = \".rseq_commit\")", "unsafe(no_mangle)", "inline(never)"]);
    assert!(!commit.public_unsafe_extern_c);

    let start = RseqMacro::Start.item_rewrite(&RseqItem::Fn(good_start())).ok().unwrap().unwrap();
    assert_eq!(start.attributes, vec!["unsafe(no_mangle)", "unsafe(link_section = \".rseq_critical\")"]);
    assert!(start.public_unsafe_extern_c);

    let section = RseqMacro::Section.item_rewrite(&RseqItem::Fn(good_start())).ok().unwrap().unwrap();
    assert_eq!(section.attributes, vec!["unsafe(link_section = \".rseq_critical\")"]);

    let shared = RseqMacro::SharedStruct.item_rewrite(&RseqItem::Struct).ok().unwrap().unwrap();
    assert_eq!(shared.attributes, vec!["repr(C)", "derive(Clone, Copy)"]);

    assert!(RseqMacro::SharedStruct.item_rewrite(&RseqItem::Fn(good_start())).ok().unwrap().is_none());
    assert!(RseqMacro::CommitAction.item_rewrite(&RseqItem::Struct).ok().unwrap().is_none());
}

#[test]
fn a_bad_entry_fails_the_rewrite_in_context() {
    let bad = start_fn("bad", vec![], ReturnTypeShape::Default);
    match RseqMacro::Start.item_rewrite(&RseqItem::Fn(bad)) {
        Err(e) => {
            match &e {
                RseqBuildError::Context { message, source } => {
                    assert_eq!(message, "assert_rseq_start_signature");
                    assert!(matches!(**source, RseqBuildError::RseqStartWrongArgumentCount { count: 0, .. }));
                }
                _ => panic!("expected a wrapped error"),
            }
            assert_eq!(
                e.to_display_string(),
                "assert_rseq_start_signature: Function 'bad' has wrong argument count: expected 2 parameters: (*c_void, u32), got 0."
            );
        }
        Ok(_) => panic!("a bad entry must fail"),
    }
}

#[test]
fn context_keys_are_checked() {
    assert_eq!(context_key("name"), Some(ContextKey::Name));
    assert_eq!(context_key("cs"), Some(ContextKey::Cs));
    assert_eq!(context_key("other"), None);
    let keys = |ks: &[&str]| ks.iter().map(|k| k.to_string()).collect::<Vec<String>>();
    assert_eq!(check_context_keys(&keys(&["name", "helpers", "commit", "cs"])), Ok(()));
    assert_eq!(check_context_keys(&keys(&["cs", "commit", "name", "helpers", "name"])), Ok(()));
    assert_eq!(check_context_keys(&keys(&["name", "commit", "cs"])), Err("missing helpers"));
    assert_eq!(check_context_keys(&keys(&[])), Err("missing name"));
    assert_eq!(check_context_keys(&keys(&["name", "bogus"])), Err("Unknown key"));
    let mut seen = ContextKeysSeen::new();
    seen.record(ContextKey::Name);
    seen.record(ContextKey::Helpers);
    seen.record(ContextKey::Commit);
    assert_eq!(seen.missing(), Some("missing cs"));
    seen.record(ContextKey::Cs);
    assert_eq!(seen.missing(), None);
}

#[test]
fn payload_source_places_commit_and_entry() {
    assert_eq!(
        payload_source("use core::ffi::c_void;", "pub unsafe extern \"C\" fn update_log() {}", "pub unsafe extern \"C\" fn MY_COUNTER() {}"),
        "use core::ffi::c_void;\n\n #[unsafe(no_mangle)]\n#[unsafe(link_section = \".rseq_commit\")]\npub unsafe extern \"C\" fn update_log() {}\n\n#[unsafe(no_mangle)]\n#[unsafe(link_section = \".rseq_critical\")]\npub unsafe extern \"C\" fn MY_COUNTER() {}\n"
    );
    assert_eq!(payload_file_name("/out", "MY_COUNTER"), "/out/rseq_MY_COUNTER.rs");
    assert_eq!(
        task_constant_source("MY_COUNTER", "MY_COUNTER", "update_log"),
        "pub const MY_COUNTER: RseqTask = RseqTask { main_symbol: stringify!(MY_COUNTER), commit_symbol: stringify!(update_log), };"
    );
}

#[test]
fn errors_read_as_their_messages() {
    let e = RseqBuildError::SymbolDataNotFound { symbol_name: "commit_action".to_string() };
    assert_eq!(e.to_display_string(), "Data for symbol 'commit_action' is not present in the so file");
    let e = RseqBuildError::RseqCommitSectionNotFound { section_name: ".text.rseq_commit".to_string() };
    assert_eq!(e.to_display_string(), "section '.text.rseq_commit' not found in rseq so");
    assert_eq!(
        RseqBuildError::MagicFoundMultipleTimes.to_display_string(),
        "rseq end magic found multiple times for symbolin rseq commet section"
    );
    let wrapped = RseqBuildError::MagicNotFound.wrap("scan".to_string()).wrap("build".to_string());
    assert_eq!(wrapped.to_display_string(), "build: scan: rseq end magic not found for symbol in rseq commet section");
    let e = RseqBuildError::RseqStartFirstArgInvalid { name: "f".to_string(), actual: "u8".to_string() };
    assert_eq!(e.to_display_string(), "Function 'f' has invalid first argument: expected *mut c_void, got 'u8'");
    let e = RseqBuildError::RseqStartWrongArgumentCount { name: "g".to_string(), count: 123 };
    assert_eq!(e.to_display_string(), "Function 'g' has wrong argument count: expected 2 parameters: (*c_void, u32), got 123.");
}
