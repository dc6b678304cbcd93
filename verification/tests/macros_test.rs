use std::str::FromStr;

use proc_macro2::TokenStream;
use quote::ToTokens;
use regex::Regex;

use rseq_main::name_consts::{
    rseq_commit_action_impl, rseq_critical_section_impl, rseq_critical_section_start_impl,
    RseqCommitActionName, RseqStart,
};

/// The visibility and name of a function written as source.
fn fn_parts(source: &str) -> (String, String) {
    let f: syn::ItemFn = syn::parse_str(source).expect("test input must be a function");
    (f.vis.to_token_stream().to_string(), f.sig.ident.to_string())
}

fn commit_action_expansion(source: &str) -> String {
    let (vis, name) = fn_parts(source);
    rseq_commit_action_impl(&vis, &name)
}

fn assert_expansion(output: &str, expected: &str) {
    let normalized_output = output.replace(" ", "");
    let expected_str = expected.replace(" ", "");
    assert!(
        normalized_output.contains(&expected_str),
        "\nExpansion mismatch!\nOutput: {}\nExpected to contain: {}\n",
        output,
        expected
    );
}

fn normalize(code: &str) -> String {
    TokenStream::from_str(code).expect("Failed to parse code as TokenStream").to_string()
}

fn build_matcher(expected: &str) -> Regex {
    let normalized = normalize(expected);
    let mut pattern = regex::escape(&normalized);
    pattern = pattern.replace(r"\ ", r"\s*");
    pattern = pattern.replace(r"\.\*", r".*");
    let full_pattern = format!(r"^{}$", pattern);
    Regex::new(&full_pattern).expect("Failed to build regex pattern")
}

fn assert_expansion_regex(output: &str, expected: &str) {
    let actual_norm = normalize(output);
    let matcher = build_matcher(expected);
    assert!(matcher.is_match(&actual_norm), "Regex mismatch: {:?} against {:?}", actual_norm, expected);
}

#[test]
fn test_as_name_logic_basic() {
    assert_expansion(
        &commit_action_expansion("fn hello() {}"),
        "const hello : RseqCommitActionName = RseqCommitActionName (\"hello\")",
    );
    assert_expansion(
        &commit_action_expansion("pub fn my_func() {}"),
        "pub const my_func : RseqCommitActionName = RseqCommitActionName (\"my_func\")",
    );
}

#[test]
fn test_as_name_logic_regex() {
    assert_expansion_regex(
        &commit_action_expansion("fn hello() { println!(\"bye\"); }"),
        "#[.*] const hello : RseqCommitActionName = RseqCommitActionName(\".*\");",
    );
    assert_expansion_regex(
        &commit_action_expansion("pub fn my_func() {}"),
        "#[allow(non_upper_case_globals)] pub const my_func : RseqCommitActionName = RseqCommitActionName(\".*\");",
    );
    assert_expansion(
        &commit_action_expansion("#[derive(Debug)]\n#[must_use]\npub(crate) fn complex_func() {}"),
        "#[allow(non_upper_case_globals)] pub(crate) const complex_func : RseqCommitActionName = RseqCommitActionName(\"complex_func\");",
    );
}

#[test]
fn test_generics_and_lifetimes() {
    assert_expansion(
        &commit_action_expansion(
            "pub fn generic_handler<'a, T: std::fmt::Display>(data: &'a T) -> String { format!(\"{}\", data) }",
        ),
        "pub const generic_handler : RseqCommitActionName = RseqCommitActionName(\"generic_handler\");",
    );
}

#[test]
fn test_keywords() {
    assert_expansion(
        &commit_action_expansion(
            "pub async unsafe fn risky_async_func() {\n    // some dangerous async code\n    println(\"aa\");\n}",
        ),
        "pub const risky_async_func : RseqCommitActionName = RseqCommitActionName(\"risky_async_func\");",
    );
}

// What `#[rseq_critical_section_start]` leaves for `pub fn my_api_handler()`
// and `pub fn secondary_func()`.
#[allow(non_upper_case_globals)]
pub const my_api_handler: RseqStart = RseqStart("my_api_handler");
#[allow(non_upper_case_globals)]
pub const secondary_func: RseqStart = RseqStart("secondary_func");

#[test]
fn test_type_safety() {
    let name_struct: RseqStart = my_api_handler;

    assert_eq!(name_struct.0, "my_api_handler");
}

#[test]
fn test_deref_behavior() {
    let name: &str = &*my_api_handler;
    assert_eq!(name, "my_api_handler");

    let formatted = format!("Name: {}", my_api_handler.to_display_string());
    assert_eq!(formatted, "Name: my_api_handler");
}

#[test]
fn test_function_accepts_only_function_name() {
    fn registry(name: RseqStart) -> String {
        name.0.to_string()
    }

    assert_eq!(registry(my_api_handler), "my_api_handler");
}

#[test]
fn test_visibility_in_integration() {
    assert_eq!(secondary_func.as_str().len(), 14);
}

#[test]
fn start_expansion_is_the_constant_the_tests_use() {
    assert_eq!(
        rseq_critical_section_start_impl("pub", "my_api_handler"),
        "#[allow(non_upper_case_globals)] pub const my_api_handler: RseqStart = RseqStart(\"my_api_handler\");"
    );
    assert_eq!(
        normalize(&rseq_critical_section_start_impl("pub", "secondary_func")),
        normalize("#[allow(non_upper_case_globals)] pub const secondary_func: RseqStart = RseqStart(\"secondary_func\");")
    );
}

#[test]
fn section_expansion_is_a_unit_constant() {
    assert_eq!(
        rseq_critical_section_impl("pub", "helper_function"),
        "#[allow(non_upper_case_globals)] pub const helper_function: () = ();"
    );
    assert_eq!(
        rseq_critical_section_impl("", "helper"),
        "#[allow(non_upper_case_globals)] const helper: () = ();"
    );
}

#[test]
fn a_commit_action_name_derefs_to_its_text() {
    let name = RseqCommitActionName("update_log");
    let text: &str = &*name;
    assert_eq!(text, "update_log");
    assert_eq!(name.len(), 10);
}
