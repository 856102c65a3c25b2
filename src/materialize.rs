//! Rendering a sample into its template and naming the file it goes to.

use vstd::prelude::*;
use crate::extract::{BlockSpec, CodeBlock, blocks_are, extracted, extract_from_markdown, markdown_code_blocks};
use crate::language::Language;
use crate::registry::{TemplateRegistry, code_marker};
use crate::text::{decimal, decimal_string, replace_all, replaced};

verus! {

/// `p` made into one flat file-name token: `../` markers are dropped, then
/// every `/` and every `.` becomes `_`.
pub open spec fn flat_name(p: Seq<char>) -> Seq<char> {
    replaced(
        replaced(replaced(p, seq!['.', '.', '/'], Seq::empty()), seq!['/'], seq!['_']),
        seq!['.'],
        seq!['_'],
    )
}

/// The name of the file for the sample at `index` of document `doc`.
pub open spec fn output_file_name(doc: Seq<char>, index: nat, language: Language) -> Seq<char> {
    flat_name(doc) + seq!['_'] + decimal(index) + seq!['.'] + language.file_ext_spec()
}

/// Where the sample at `index` of document `doc` is written.
pub open spec fn output_path(doc: Seq<char>, index: nat, language: Language) -> Seq<char> {
    language.test_dir_spec() + seq!['/'] + output_file_name(doc, index, language)
}

/// A template body with its marker replaced by `code`.
pub open spec fn rendered(body: Seq<char>, code: Seq<char>) -> Seq<char> {
    replaced(body, code_marker(), code)
}

/// A file to write: where, and what.
#[derive(Clone, Debug)]
pub struct OutputFile {
    pub path: String,
    pub contents: String,
}

/// Why a document could not be materialized.
#[derive(Clone, Debug, PartialEq, Eq)]
pub enum GenError {
    /// A block names a template that the registry does not hold.
    UnknownTemplate(String),
}

/// Places `code` at the marker of `template`.
pub fn render(template: &str, code: &str) -> (r: String)
    ensures
        r@ == rendered(template@, code@),
{
    proof {
        reveal_strlit("{{code}}");
        assert("{{code}}"@ =~= code_marker());
    }
    replace_all(template, "{{code}}", code)
}

/// Flattens a document path into one file-name token.
pub fn flatten_path(doc_path: &str) -> (r: String)
    ensures
        r@ == flat_name(doc_path@),
{
    proof {
        reveal_strlit("../");
        reveal_strlit("");
        reveal_strlit("/");
        reveal_strlit("_");
        reveal_strlit(".");
        assert("../"@ =~= seq!['.', '.', '/']);
        assert(""@ =~= Seq::<char>::empty());
        assert("/"@ =~= seq!['/']);
        assert("_"@ =~= seq!['_']);
        assert("."@ =~= seq!['.']);
    }
    let a = replace_all(doc_path, "../", "");
    let b = replace_all(a.as_str(), "/", "_");
    replace_all(b.as_str(), ".", "_")
}

/// The path of the file for the sample at `index` of the document at
/// `doc_path`.
pub fn output_path_for(doc_path: &str, index: usize, language: Language) -> (r: String)
    ensures
        r@ == output_path(doc_path@, index as nat, language),
{
    proof {
        reveal_strlit("_");
        reveal_strlit(".");
        reveal_strlit("/");
    }
    let mut name = flatten_path(doc_path);
    name.append("_");
    name.append(decimal_string(index).as_str());
    name.append(".");
    name.append(language.file_ext());
    let mut path = String::from_str(language.test_dir());
    path.append("/");
    path.append(name.as_str());
    assert(path@ =~= output_path(doc_path@, index as nat, language));
    path
}

/// The file that `block` becomes: where it goes and what it holds.
pub open spec fn output_of(doc: Seq<char>, block: CodeBlock, templates: Map<Seq<char>, Seq<char>>) -> (
    Seq<char>,
    Seq<char>,
) {
    (
        output_path(doc, block.index as nat, block.language),
        rendered(templates[block.template@], block.code@),
    )
}

/// The path and contents of each file.
pub open spec fn file_views(files: Seq<OutputFile>) -> Seq<(Seq<char>, Seq<char>)> {
    files.map_values(|f: OutputFile| (f.path@, f.contents@))
}

/// Renders one block into its template. Fails when the template is not
/// registered.
pub fn materialize(doc_path: &str, block: &CodeBlock, registry: &TemplateRegistry) -> (r: Result<
    OutputFile,
    GenError,
>)
    ensures
        r is Ok <==> registry@.contains_key(block.template@),
        r matches Ok(f) ==> (f.path@, f.contents@) == output_of(doc_path@, *block, registry@),
        r matches Err(GenError::UnknownTemplate(n)) ==> n@ == block.template@,
{
    let path = output_path_for(doc_path, block.index, block.language);
    match registry.get(block.template.as_str()) {
        Some(body) => {
            let contents = render(body.as_str(), block.code.as_str());
            Ok(OutputFile { path, contents })
        },
        None => Err(GenError::UnknownTemplate(block.template.clone())),
    }
}

/// Renders every block, in order; stops at the first block whose template
/// is not registered and reports that template.
pub fn materialize_all(doc_path: &str, blocks: &Vec<CodeBlock>, registry: &TemplateRegistry) -> (r:
    Result<Vec<OutputFile>, GenError>)
    ensures
        r is Ok <==> forall|i: int|
            0 <= i < blocks@.len() ==> registry@.contains_key(#[trigger] blocks@[i].template@),
        r matches Ok(files) ==> file_views(files@) == blocks@.map_values(
            |b: CodeBlock| output_of(doc_path@, b, registry@),
        ),
        r matches Err(GenError::UnknownTemplate(n)) ==> exists|i: int|
            0 <= i < blocks@.len() && !registry@.contains_key(#[trigger] blocks@[i].template@)
                && n@ == blocks@[i].template@ && forall|j: int|
                0 <= j < i ==> registry@.contains_key(#[trigger] blocks@[j].template@),
{
    let mut files: Vec<OutputFile> = Vec::new();
    let mut i: usize = 0;
    while i < blocks.len()
        invariant
            i <= blocks@.len(),
            forall|j: int| 0 <= j < i ==> registry@.contains_key(#[trigger] blocks@[j].template@),
            file_views(files@) == blocks@.take(i as int).map_values(
                |b: CodeBlock| output_of(doc_path@, b, registry@),
            ),
        decreases blocks@.len() - i,
    {
        let ghost before = files@;
        match materialize(doc_path, &blocks[i], registry) {
            Ok(f) => {
                files.push(f);
                assert(file_views(files@) =~= file_views(before).push((f.path@, f.contents@)));
                assert(blocks@.take(i + 1).map_values(
                    |b: CodeBlock| output_of(doc_path@, b, registry@),
                ) =~= blocks@.take(i as int).map_values(
                    |b: CodeBlock| output_of(doc_path@, b, registry@),
                ).push(output_of(doc_path@, blocks@[i as int], registry@)));
            },
            Err(e) => {
                return Err(e);
            },
        }
        i += 1;
    }
    assert(blocks@.take(blocks@.len() as int) =~= blocks@);
    Ok(files)
}

/// Every template that `specs` names is registered.
pub open spec fn all_registered(specs: Seq<BlockSpec>, templates: Map<Seq<char>, Seq<char>>) -> bool {
    forall|i: int| 0 <= i < specs.len() ==> templates.contains_key(#[trigger] specs[i].1)
}

/// `name` is the first template that `specs` names and the registry lacks.
pub open spec fn first_unregistered(
    specs: Seq<BlockSpec>,
    templates: Map<Seq<char>, Seq<char>>,
    name: Seq<char>,
) -> bool {
    exists|i: int|
        0 <= i < specs.len() && !templates.contains_key(#[trigger] specs[i].1) && name == specs[i].1
            && forall|j: int| 0 <= j < i ==> templates.contains_key(#[trigger] specs[j].1)
}

/// The files that a document's actionable blocks `specs` become, in order.
pub open spec fn document_outputs(
    doc: Seq<char>,
    specs: Seq<BlockSpec>,
    templates: Map<Seq<char>, Seq<char>>,
) -> Seq<(Seq<char>, Seq<char>)> {
    Seq::new(
        specs.len(),
        |i: int| (output_path(doc, i as nat, specs[i].0), rendered(templates[specs[i].1], specs[i].2)),
    )
}

/// The files that the markdown document `src`, read from `doc_path`, turns
/// into: one per actionable block, in document order. Fails on the first
/// block whose template is not registered.
pub fn process_document(doc_path: &str, src: &str, registry: &TemplateRegistry) -> (r: Result<
    Vec<OutputFile>,
    GenError,
>)
    ensures
        r is Ok <==> all_registered(extracted(markdown_code_blocks(src@)), registry@),
        r matches Ok(files) ==> file_views(files@) == document_outputs(
            doc_path@,
            extracted(markdown_code_blocks(src@)),
            registry@,
        ),
        r matches Err(GenError::UnknownTemplate(n)) ==> first_unregistered(
            extracted(markdown_code_blocks(src@)),
            registry@,
            n@,
        ),
{
    let blocks = extract_from_markdown(src);
    let ghost specs = extracted(markdown_code_blocks(src@));
    let r = materialize_all(doc_path, &blocks, registry);
    proof {
        assert forall|i: int| 0 <= i < specs.len() implies blocks@[i].template@ == #[trigger] specs[i].1 by {
            assert(blocks@[i].template@ == specs[i].1);
        }
        if r is Ok {
            assert(file_views(r->Ok_0@) =~= document_outputs(doc_path@, specs, registry@));
        }
        if r is Err {
            let n = r->Err_0->UnknownTemplate_0;
            let i = choose|i: int|
                0 <= i < blocks@.len() && !registry@.contains_key(#[trigger] blocks@[i].template@)
                    && n@ == blocks@[i].template@ && forall|j: int|
                    0 <= j < i ==> registry@.contains_key(#[trigger] blocks@[j].template@);
            assert(!registry@.contains_key(specs[i].1));
            assert(forall|j: int| 0 <= j < i ==> registry@.contains_key(#[trigger] specs[j].1));
        }
    }
    r
}

} // verus!
