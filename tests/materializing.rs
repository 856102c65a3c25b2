use docs_test_gen::extract::{extract_from_markdown, CodeBlock};
use docs_test_gen::language::Language;
use docs_test_gen::materialize::{
    flatten_path, materialize, materialize_all, output_path_for, process_document, render, GenError,
};
use docs_test_gen::registry::TemplateRegistry;
use docs_test_gen::text::{decimal_string, replace_all};

const CORE: &str = "use cosmwasm_std::*;\n\n#[test]\nfn doctest() {\n  {{code}}\n}\n";

fn registry() -> TemplateRegistry {
    let mut r = TemplateRegistry::new();
    r.insert("core".to_string(), CORE.to_string());
    r.insert("empty".to_string(), "{{code}}".to_string());
    r
}

fn block(template: &str, code: &str, index: usize) -> CodeBlock {
    CodeBlock { language: Language::Rust, template: template.to_string(), code: code.to_string(), index }
}

#[test]
fn render_replaces_marker_verbatim() {
    assert_eq!(render("prefix {{code}} suffix", "fn f() {}"), "prefix fn f() {} suffix");
    assert_eq!(render("{{code}}", "a \\n {{x}}"), "a \\n {{x}}");
    assert_eq!(render("no marker", "x"), "no marker");
}

#[test]
fn replace_all_is_left_to_right() {
    assert_eq!(replace_all("aaa", "aa", "b"), "ba");
    assert_eq!(replace_all("a.b.c", ".", "_"), "a_b_c");
    assert_eq!(replace_all("", "x", "y"), "");
}

#[test]
fn decimal_numerals() {
    assert_eq!(decimal_string(0), "0");
    assert_eq!(decimal_string(7), "7");
    assert_eq!(decimal_string(10), "10");
    assert_eq!(decimal_string(1234), "1234");
}

#[test]
fn paths_are_flattened() {
    assert_eq!(flatten_path("../src/pages/core.mdx"), "src_pages_core_mdx");
    assert_eq!(flatten_path("a.b/c.mdx"), "a_b_c_mdx");
}

#[test]
fn output_paths() {
    assert_eq!(output_path_for("../src/x.mdx", 3, Language::Go), "go_tests/src_x_mdx_3.go");
    assert_eq!(output_path_for("../src/x.mdx", 12, Language::Rust), "tests/src_x_mdx_12.rs");
}

#[test]
fn registry_lookup() {
    let mut r = registry();
    assert_eq!(r.get("core").map(|s| s.as_str()), Some(CORE));
    assert!(r.contains("empty"));
    assert!(!r.contains("missing"));
    assert_eq!(r.get("missing"), None);
    r.insert("empty".to_string(), "// {{code}}".to_string());
    assert_eq!(r.get("empty").map(|s| s.as_str()), Some("// {{code}}"));
}

#[test]
fn materialize_known_template() {
    let f = materialize("../src/a.mdx", &block("empty", "let x = 1;", 2), &registry()).unwrap();
    assert_eq!(f.path, "tests/src_a_mdx_2.rs");
    assert_eq!(f.contents, "let x = 1;");
}

#[test]
fn unknown_template_aborts() {
    let r = materialize("../src/a.mdx", &block("does-not-exist", "x", 0), &registry());
    assert_eq!(r.unwrap_err(), GenError::UnknownTemplate("does-not-exist".to_string()));
}

#[test]
fn materialize_all_stops_at_first_unknown() {
    let blocks = vec![block("empty", "a", 0), block("nope", "b", 1), block("gone", "c", 2)];
    let r = materialize_all("d.mdx", &blocks, &registry());
    assert_eq!(r.unwrap_err(), GenError::UnknownTemplate("nope".to_string()));
    let ok = materialize_all("d.mdx", &vec![block("empty", "a", 0), block("core", "b", 1)], &registry())
        .unwrap();
    assert_eq!(ok.len(), 2);
    assert_eq!(ok[1].path, "tests/d_mdx_1.rs");
}

const DOC: &str = "# Title\n\n```rust template=\"core\"\nstruct X;\n```\n\nText.\n\n```rust\nfn plain() {}\n```\n";

#[test]
fn markdown_blocks_are_extracted() {
    let blocks = extract_from_markdown(DOC);
    assert_eq!(blocks.len(), 1);
    assert_eq!(blocks[0].code, "struct X;\n");
    assert_eq!(blocks[0].template, "core");
    assert_eq!(blocks[0].language, Language::Rust);
    assert_eq!(blocks[0].index, 0);
}

#[test]
fn indented_blocks_are_ignored() {
    assert!(extract_from_markdown("para\n\n    rust template=\"core\"\n").is_empty());
}

#[test]
fn document_with_one_annotated_block() {
    let files = process_document("../src/pages/core.mdx", DOC, &registry()).unwrap();
    assert_eq!(files.len(), 1);
    assert_eq!(files[0].path, "tests/src_pages_core_mdx_0.rs");
    assert_eq!(files[0].contents, CORE.replace("{{code}}", "struct X;\n"));
}

#[test]
fn document_with_unknown_template() {
    let doc = "```rust template=\"does-not-exist\"\nx\n```\n";
    let r = process_document("d.mdx", doc, &registry());
    assert_eq!(r.unwrap_err(), GenError::UnknownTemplate("does-not-exist".to_string()));
}

#[test]
fn rerun_is_identical() {
    let a = process_document("../src/x.mdx", DOC, &registry()).unwrap();
    let b = process_document("../src/x.mdx", DOC, &registry()).unwrap();
    assert_eq!(a.len(), b.len());
    for (x, y) in a.iter().zip(b.iter()) {
        assert_eq!(x.path, y.path);
        assert_eq!(x.contents.as_bytes(), y.contents.as_bytes());
    }
}
