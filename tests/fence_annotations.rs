use docs_test_gen::extract::{extract_blocks, RawCodeBlock};
use docs_test_gen::fence::{find_language, get_template_name};
use docs_test_gen::language::{all_languages, Language};
use docs_test_gen::text::split_tokens;

fn raw(fenced: bool, info: &str, literal: &str) -> RawCodeBlock {
    RawCodeBlock { fenced, info: info.to_string(), literal: literal.to_string() }
}

#[test]
fn language_found_ignoring_case() {
    assert_eq!(find_language("rust"), Some(Language::Rust));
    assert_eq!(find_language("RUST"), Some(Language::Rust));
    assert_eq!(find_language("Go"), Some(Language::Go));
    assert_eq!(find_language("template=\"core\" rust"), Some(Language::Rust));
    assert_eq!(find_language("go rust"), Some(Language::Go));
}

#[test]
fn language_absent() {
    assert_eq!(find_language(""), None);
    assert_eq!(find_language("python"), None);
    assert_eq!(find_language("rustlang"), None);
    assert_eq!(find_language("template=rust"), None);
}

#[test]
fn template_name_quoted_and_bare() {
    assert_eq!(get_template_name("rust template=\"core\""), Some("core"));
    assert_eq!(get_template_name("template=core rust"), Some("core"));
    assert_eq!(get_template_name("template=\"a=b\""), Some("a=b"));
    assert_eq!(get_template_name("template=\"\""), Some(""));
}

#[test]
fn template_name_first_attribute_wins() {
    assert_eq!(
        get_template_name("title=x template=\"first\" template=\"second\""),
        Some("first")
    );
}

#[test]
fn template_name_absent() {
    assert_eq!(get_template_name(""), None);
    assert_eq!(get_template_name("rust"), None);
    assert_eq!(get_template_name("rust templtae=\"core\""), None);
    assert_eq!(get_template_name("rust template"), None);
}

#[test]
fn template_quotes_stripped_one_layer() {
    assert_eq!(get_template_name("template=\"\"x\"\""), Some("\"x\""));
}

#[test]
fn tokens_split_on_whitespace() {
    assert_eq!(split_tokens("  rust\ttemplate=\"core\"\n x "), vec!["rust", "template=\"core\"", "x"]);
    assert!(split_tokens("   ").is_empty());
}

#[test]
fn language_attributes() {
    assert_eq!(Language::Rust.file_ext(), "rs");
    assert_eq!(Language::Go.file_ext(), "go");
    assert_eq!(Language::Rust.test_dir(), "tests");
    assert_eq!(Language::Go.test_dir(), "go_tests");
    assert_eq!(Language::Rust.name(), "rust");
    assert_eq!(all_languages(), vec![Language::Go, Language::Rust]);
}

#[test]
fn unannotated_info_is_skipped() {
    let info = "python title=\"x\"";
    assert_eq!(find_language(info), None);
    assert_eq!(get_template_name(info), None);
    assert!(extract_blocks(&vec![raw(true, info, "print(1)\n")]).is_empty());
}

#[test]
fn annotated_info_in_either_order() {
    for info in ["rust template=\"core\"", "template=\"core\" rust", "rust template=core", "template=core RUST"] {
        let blocks = extract_blocks(&vec![raw(true, info, "struct X;\n")]);
        assert_eq!(blocks.len(), 1);
        assert_eq!(blocks[0].language, Language::Rust);
        assert_eq!(blocks[0].template, "core");
        assert_eq!(blocks[0].code, "struct X;\n");
        assert_eq!(blocks[0].index, 0);
    }
}

#[test]
fn partial_annotations_are_skipped() {
    let raws = vec![
        raw(true, "rust", "a\n"),
        raw(true, "template=\"core\"", "b\n"),
        raw(false, "rust template=\"core\"", "c\n"),
    ];
    assert!(extract_blocks(&raws).is_empty());
}

#[test]
fn indices_follow_document_order() {
    let raws = vec![
        raw(true, "go template=\"empty\"", "first\n"),
        raw(true, "rust", "skipped\n"),
        raw(true, "rust template=\"core\"", "second\n"),
        raw(true, "", "skipped\n"),
        raw(true, "rust template=\"storage\"", "third\n"),
    ];
    let blocks = extract_blocks(&raws);
    assert_eq!(blocks.len(), 3);
    for (i, b) in blocks.iter().enumerate() {
        assert_eq!(b.index, i);
    }
    assert_eq!(blocks[0].code, "first\n");
    assert_eq!(blocks[0].language, Language::Go);
    assert_eq!(blocks[1].code, "second\n");
    assert_eq!(blocks[2].template, "storage");
}
