//! Finding the actionable code blocks of a document, in document order.

use vstd::prelude::*;
use vstd::string::*;
use crate::fence::{fence_language, fence_template, find_language, get_template_name};
use crate::language::Language;

verus! {

/// A code block as the markdown parser reports it.
#[derive(Clone, Debug)]
pub struct RawCodeBlock {
    /// Whether the block is fenced (as opposed to indented).
    pub fenced: bool,
    /// The info string after the opening fence.
    pub info: String,
    /// The block's literal text, without the fences.
    pub literal: String,
}

impl View for RawCodeBlock {
    type V = (bool, Seq<char>, Seq<char>);

    open spec fn view(&self) -> (bool, Seq<char>, Seq<char>) {
        (self.fenced, self.info@, self.literal@)
    }
}

/// One sample to materialize.
#[derive(Clone, Debug)]
pub struct CodeBlock {
    pub language: Language,
    /// The name of the template that wraps the sample.
    pub template: String,
    /// The sample's literal text.
    pub code: String,
    /// Position among the actionable blocks of its document, from 0.
    pub index: usize,
}

/// What a block contributes: language, template name and code.
pub type BlockSpec = (Language, Seq<char>, Seq<char>);

/// The block that a raw code block yields: only fenced blocks whose info
/// string names both a language and a template.
pub open spec fn actionable(raw: (bool, Seq<char>, Seq<char>)) -> Option<BlockSpec> {
    if raw.0 && fence_language(raw.1) is Some && fence_template(raw.1) is Some {
        Some((fence_language(raw.1)->0, fence_template(raw.1)->0, raw.2))
    } else {
        None
    }
}

/// The actionable blocks among `raws`, in order.
pub open spec fn extracted(raws: Seq<(bool, Seq<char>, Seq<char>)>) -> Seq<BlockSpec>
    decreases raws.len(),
{
    if raws.len() == 0 {
        Seq::empty()
    } else {
        let prev = extracted(raws.drop_last());
        match actionable(raws.last()) {
            Some(b) => prev.push(b),
            None => prev,
        }
    }
}

/// The views of a sequence of raw blocks.
pub open spec fn raw_views(v: Seq<RawCodeBlock>) -> Seq<(bool, Seq<char>, Seq<char>)> {
    v.map_values(|b: RawCodeBlock| b@)
}

/// `blocks` holds exactly the blocks `expected`, each carrying its position
/// as its index.
pub open spec fn blocks_are(blocks: Seq<CodeBlock>, expected: Seq<BlockSpec>) -> bool {
    &&& blocks.len() == expected.len()
    &&& forall|i: int|
        0 <= i < blocks.len() ==> {
            &&& (#[trigger] blocks[i]).language == expected[i].0
            &&& blocks[i].template@ == expected[i].1
            &&& blocks[i].code@ == expected[i].2
            &&& blocks[i].index == i
        }
}

/// Keeps the fenced blocks whose info string names both a language and a
/// template, numbering them from 0 in order.
pub fn extract_blocks(raws: &Vec<RawCodeBlock>) -> (r: Vec<CodeBlock>)
    ensures
        blocks_are(r@, extracted(raw_views(raws@))),
{
    let ghost all = raw_views(raws@);
    let mut blocks: Vec<CodeBlock> = Vec::new();
    let mut i: usize = 0;
    while i < raws.len()
        invariant
            all == raw_views(raws@),
            i <= raws@.len(),
            blocks_are(blocks@, extracted(all.take(i as int))),
        decreases raws@.len() - i,
    {
        let raw = &raws[i];
        assert(all.take(i + 1).drop_last() =~= all.take(i as int));
        assert(all.take(i + 1).last() == raw@);
        if raw.fenced {
            if let Some(language) = find_language(raw.info.as_str()) {
                if let Some(template) = get_template_name(raw.info.as_str()) {
                    let index = blocks.len();
                    blocks.push(
                        CodeBlock { language, template: String::from_str(template), code: raw.literal.clone(), index },
                    );
                }
            }
        }
        i += 1;
    }
    assert(all.take(raws@.len() as int) =~= all);
    blocks
}

/// The code blocks of a markdown document, in document order, as `comrak`
/// parses it with its default options.
pub uninterp spec fn markdown_code_blocks(src: Seq<char>) -> Seq<(bool, Seq<char>, Seq<char>)>;

/// Relies on `comrak::parse_document` with `comrak::Options::default()`: the
/// code-block nodes of the tree it builds, visited in document order by
/// `descendants`, each with its `fenced`, `info` and `literal` fields.
#[verifier::external_body]
fn parse_code_blocks(src: &str) -> (r: Vec<RawCodeBlock>)
    ensures
        raw_views(r@) == markdown_code_blocks(src@),
{
    let arena = comrak::Arena::new();
    let root = comrak::parse_document(&arena, src, &comrak::Options::default());
    let mut r = Vec::new();
    for node in root.descendants() {
        if let comrak::nodes::NodeValue::CodeBlock(cb) = &node.data.borrow().value {
            r.push(RawCodeBlock { fenced: cb.fenced, info: cb.info.clone(), literal: cb.literal.clone() });
        }
    }
    r
}

/// The actionable code blocks of a markdown document, numbered from 0 in
/// document order.
pub fn extract_from_markdown(src: &str) -> (r: Vec<CodeBlock>)
    ensures
        blocks_are(r@, extracted(markdown_code_blocks(src@))),
{
    let raws = parse_code_blocks(src);
    extract_blocks(&raws)
}

} // verus!
