//! Properties of the pipeline that hold for all inputs.

use vstd::prelude::*;
use crate::extract::{BlockSpec, actionable, extracted, markdown_code_blocks};
use crate::fence::{
    fence_language,
    fence_template,
    first_language,
    first_template,
    is_first_eq,
    template_key,
    template_of_token,
    unquoted,
};
use crate::language::{Language, language_of_token};
use crate::materialize::{document_outputs, file_views, flat_name, output_path, rendered, OutputFile};
use crate::registry::code_marker;
use crate::text::{decimal, digit, replaced, tokens};

verus! {

proof fn lemma_no_language(toks: Seq<Seq<char>>)
    requires
        forall|j: int| 0 <= j < toks.len() ==> language_of_token(#[trigger] toks[j]) is None,
    ensures
        first_language(toks) is None,
    decreases toks.len(),
{
    if toks.len() > 0 {
        assert(language_of_token(toks[0]) is None);
        assert forall|j: int| 0 <= j < toks.drop_first().len() implies language_of_token(
            #[trigger] toks.drop_first()[j],
        ) is None by {
            assert(toks.drop_first()[j] == toks[j + 1]);
        }
        lemma_no_language(toks.drop_first());
    }
}

proof fn lemma_no_template(toks: Seq<Seq<char>>)
    requires
        forall|j: int| 0 <= j < toks.len() ==> template_of_token(#[trigger] toks[j]) is None,
    ensures
        first_template(toks) is None,
    decreases toks.len(),
{
    if toks.len() > 0 {
        assert(template_of_token(toks[0]) is None);
        assert forall|j: int| 0 <= j < toks.drop_first().len() implies template_of_token(
            #[trigger] toks.drop_first()[j],
        ) is None by {
            assert(toks.drop_first()[j] == toks[j + 1]);
        }
        lemma_no_template(toks.drop_first());
    }
}

proof fn lemma_single_language(toks: Seq<Seq<char>>, t: Seq<char>)
    requires
        toks.contains(t),
        language_of_token(t) is Some,
        forall|j: int|
            0 <= j < toks.len() && toks[j] != t ==> language_of_token(#[trigger] toks[j]) is None,
    ensures
        first_language(toks) == language_of_token(t),
    decreases toks.len(),
{
    if toks[0] != t && language_of_token(toks[0]) is None {
        let k = choose|k: int| 0 <= k < toks.len() && toks[k] == t;
        assert(toks.drop_first()[k - 1] == t);
        assert forall|j: int|
            0 <= j < toks.drop_first().len() && toks.drop_first()[j] != t implies language_of_token(
            #[trigger] toks.drop_first()[j],
        ) is None by {
            assert(toks.drop_first()[j] == toks[j + 1]);
        }
        lemma_single_language(toks.drop_first(), t);
    }
}

proof fn lemma_single_template(toks: Seq<Seq<char>>, t: Seq<char>)
    requires
        toks.contains(t),
        template_of_token(t) is Some,
        forall|j: int|
            0 <= j < toks.len() && toks[j] != t ==> template_of_token(#[trigger] toks[j]) is None,
    ensures
        first_template(toks) == template_of_token(t),
    decreases toks.len(),
{
    if toks[0] != t && template_of_token(toks[0]) is None {
        let k = choose|k: int| 0 <= k < toks.len() && toks[k] == t;
        assert(toks.drop_first()[k - 1] == t);
        assert forall|j: int|
            0 <= j < toks.drop_first().len() && toks.drop_first()[j] != t implies template_of_token(
            #[trigger] toks.drop_first()[j],
        ) is None by {
            assert(toks.drop_first()[j] == toks[j + 1]);
        }
        lemma_single_template(toks.drop_first(), t);
    }
}

/// The token `template=` followed by `value`.
pub open spec fn template_token(value: Seq<char>) -> Seq<char> {
    template_key() + seq!['='] + value
}

/// `name` does neither begin nor end with a double quote.
pub open spec fn unquoted_name(name: Seq<char>) -> bool {
    name.len() > 0 ==> name[0] != '"' && name.last() != '"'
}

proof fn lemma_template_token(value: Seq<char>)
    ensures
        template_of_token(template_token(value)) == Some(unquoted(value)),
{
    let t = template_token(value);
    assert(t[8] == '=');
    assert(is_first_eq(t, 8));
    let k = choose|k: int| is_first_eq(t, k);
    assert(k == 8) by {
        if k < 8 {
            assert(t[k] == template_key()[k]);
        } else if k > 8 {
            assert(t[8] != '=');
        }
    }
    assert(t.take(8) =~= template_key());
    assert(t.skip(9) =~= value);
}

/// A fenced block whose info string holds no token that names a language
/// and no `template` attribute names neither, and adds no block to what
/// precedes it.
pub proof fn lemma_unannotated_block_skipped(
    raws: Seq<(bool, Seq<char>, Seq<char>)>,
    info: Seq<char>,
    literal: Seq<char>,
)
    requires
        forall|j: int|
            0 <= j < tokens(info).len() ==> language_of_token(#[trigger] tokens(info)[j]) is None
                && template_of_token(tokens(info)[j]) is None,
    ensures
        fence_language(info) is None,
        fence_template(info) is None,
        extracted(raws.push((true, info, literal))) == extracted(raws),
{
    lemma_no_language(tokens(info));
    lemma_no_template(tokens(info));
    assert(raws.push((true, info, literal)).drop_last() =~= raws);
}

/// How the `template` attribute writes `name`: bare, or in double quotes.
pub open spec fn attribute_value(name: Seq<char>, quoted: bool) -> Seq<char> {
    if quoted {
        seq!['"'] + name + seq!['"']
    } else {
        name
    }
}

proof fn lemma_attribute_value(name: Seq<char>, quoted: bool)
    requires
        !quoted ==> unquoted_name(name),
    ensures
        template_of_token(template_token(attribute_value(name, quoted))) == Some(name),
{
    let value = attribute_value(name, quoted);
    lemma_template_token(value);
    if quoted {
        assert(value.drop_first() =~= name + seq!['"']);
        assert((name + seq!['"']).drop_last() =~= name);
    } else if name.len() > 0 {
        assert(name[0] != '"');
    }
    assert(unquoted(value) =~= name);
}

/// A fenced block whose info string holds a token naming `language` and a
/// `template=name` or `template="name"` token, in either order, and no other
/// token that names a language or a template, yields exactly one block:
/// that language, that template, its literal text.
pub proof fn lemma_annotated_block_extracted(
    info: Seq<char>,
    literal: Seq<char>,
    language_token: Seq<char>,
    language: Language,
    name: Seq<char>,
    quoted: bool,
)
    requires
        language_of_token(language_token) == Some(language),
        !quoted ==> unquoted_name(name),
        tokens(info).contains(language_token),
        tokens(info).contains(template_token(attribute_value(name, quoted))),
        forall|j: int|
            0 <= j < tokens(info).len() && tokens(info)[j] != language_token ==> language_of_token(
                #[trigger] tokens(info)[j],
            ) is None,
        forall|j: int|
            0 <= j < tokens(info).len() && tokens(info)[j] != template_token(
                attribute_value(name, quoted),
            ) ==> template_of_token(#[trigger] tokens(info)[j]) is None,
    ensures
        extracted(seq![(true, info, literal)]) == seq![(language, name, literal)],
{
    let t = template_token(attribute_value(name, quoted));
    lemma_attribute_value(name, quoted);
    lemma_single_language(tokens(info), language_token);
    lemma_single_template(tokens(info), t);
    assert(fence_language(info) == Some(language));
    assert(fence_template(info) == Some(name));
    assert(actionable((true, info, literal)) == Some((language, name, literal)));
    let one = seq![(true, info, literal)];
    assert(one.drop_last() =~= Seq::<(bool, Seq<char>, Seq<char>)>::empty());
    assert(one.last() == (true, info, literal));
    assert(extracted(Seq::<(bool, Seq<char>, Seq<char>)>::empty()) == Seq::<BlockSpec>::empty());
    assert(extracted(one) == extracted(one.drop_last()).push((language, name, literal)));
    assert(extracted(one) =~= seq![(language, name, literal)]);
}

proof fn lemma_replaced_after_prefix(s: Seq<char>, pat: Seq<char>, rep: Seq<char>, a: int)
    requires
        0 <= a <= s.len(),
        pat.len() > 0,
        forall|i: int|
            0 <= i < a && i + pat.len() <= s.len() ==> #[trigger] s.subrange(i, i + pat.len())
                != pat,
    ensures
        replaced(s, pat, rep) == s.take(a) + replaced(s.skip(a), pat, rep),
    decreases a,
{
    if a == 0 {
        assert(s.skip(0) =~= s);
        assert(s.take(0) + s.skip(0) =~= s);
        assert(s.take(0) + replaced(s.skip(0), pat, rep) =~= replaced(s, pat, rep));
    } else if s.len() < pat.len() {
        assert(s.take(a) + s.skip(a) =~= s);
    } else {
        assert(s.subrange(0, 0int + pat.len()) != pat);
        assert(s.take(pat.len() as int) =~= s.subrange(0, 0int + pat.len()));
        let t = s.skip(1);
        assert forall|i: int|
            0 <= i < a - 1 && i + pat.len() <= t.len() implies #[trigger] t.subrange(
            i,
            i + pat.len(),
        ) != pat by {
            assert(t.subrange(i, i + pat.len()) =~= s.subrange(i + 1, i + 1 + pat.len()));
        }
        lemma_replaced_after_prefix(t, pat, rep, a - 1);
        assert(t.skip(a - 1) =~= s.skip(a));
        assert(seq![s[0]] + t.take(a - 1) =~= s.take(a));
        assert(seq![s[0]] + (t.take(a - 1) + replaced(s.skip(a), pat, rep)) =~= s.take(a)
            + replaced(s.skip(a), pat, rep));
    }
}

/// Rendering a body `prefix {{code}} suffix`, in which the marker occurs
/// only between the two parts, gives `prefix`, the code verbatim, then
/// `suffix`.
pub proof fn lemma_render_round_trip(prefix: Seq<char>, suffix: Seq<char>, code: Seq<char>)
    requires
        forall|i: int|
            0 <= i && i + 8 <= prefix.len() + 8 + suffix.len() && i != prefix.len() ==> #[trigger] (
            prefix + code_marker() + suffix).subrange(i, i + 8) != code_marker(),
    ensures
        rendered(prefix + code_marker() + suffix, code) == prefix + code + suffix,
{
    let m = code_marker();
    let body = prefix + m + suffix;
    let a = prefix.len() as int;
    assert(m.len() == 8);
    assert forall|i: int| 0 <= i < a && i + m.len() <= body.len() implies #[trigger] body.subrange(
        i,
        i + m.len(),
    ) != m by {}
    lemma_replaced_after_prefix(body, m, code, a);
    assert(body.take(a) =~= prefix);
    let rest = body.skip(a);
    assert(rest =~= m + suffix);
    assert(rest.take(8) =~= m);
    assert(rest.skip(8) =~= suffix);
    assert forall|i: int|
        0 <= i < suffix.len() && i + m.len() <= suffix.len() implies #[trigger] suffix.subrange(
        i,
        i + m.len(),
    ) != m by {
        assert(suffix.subrange(i, i + 8) =~= body.subrange(a + 8 + i, a + 8 + i + 8));
    }
    lemma_replaced_after_prefix(suffix, m, code, suffix.len() as int);
    assert(suffix.take(suffix.len() as int) =~= suffix);
    assert(suffix.skip(suffix.len() as int) =~= Seq::<char>::empty());
    assert(prefix + (code + (suffix + Seq::<char>::empty())) =~= prefix + code + suffix);
}

/// Processing the same document twice, against the same templates, yields
/// the same files with the same contents.
pub proof fn lemma_rerun_identical(
    doc: Seq<char>,
    src: Seq<char>,
    templates: Map<Seq<char>, Seq<char>>,
    first: Seq<OutputFile>,
    second: Seq<OutputFile>,
)
    requires
        file_views(first) == document_outputs(doc, extracted(markdown_code_blocks(src)), templates),
        file_views(second) == document_outputs(doc, extracted(markdown_code_blocks(src)), templates),
    ensures
        file_views(first) == file_views(second),
{
}

proof fn lemma_digit_code(d: nat)
    requires
        d < 10,
    ensures
        digit(d) as u32 == 48 + d,
{
    let ds = seq!['0', '1', '2', '3', '4', '5', '6', '7', '8', '9'];
    assert(ds[0] == '0' && ds[1] == '1' && ds[2] == '2' && ds[3] == '3' && ds[4] == '4');
    assert(ds[5] == '5' && ds[6] == '6' && ds[7] == '7' && ds[8] == '8' && ds[9] == '9');
}

proof fn lemma_decimal_nonempty(n: nat)
    ensures
        decimal(n).len() >= 1,
    decreases n,
{
    if n >= 10 {
        lemma_decimal_nonempty(n / 10);
    }
}

proof fn lemma_decimal_injective(a: nat, b: nat)
    requires
        decimal(a) == decimal(b),
    ensures
        a == b,
    decreases a,
{
    if a < 10 && b < 10 {
        assert(decimal(a)[0] == digit(a));
        lemma_digit_code(a);
        lemma_digit_code(b);
    } else if a < 10 {
        lemma_decimal_nonempty(b / 10);
        assert(decimal(b).len() >= 2);
    } else if b < 10 {
        lemma_decimal_nonempty(a / 10);
        assert(decimal(a).len() >= 2);
    } else {
        assert(decimal(a).drop_last() =~= decimal(a / 10));
        assert(decimal(b).drop_last() =~= decimal(b / 10));
        lemma_decimal_injective(a / 10, b / 10);
        assert(decimal(a).last() == digit(a % 10));
        assert(decimal(b).last() == digit(b % 10));
        lemma_digit_code(a % 10);
        lemma_digit_code(b % 10);
        assert(a % 10 == b % 10);
        assert(a == 10 * (a / 10) + a % 10);
        assert(b == 10 * (b / 10) + b % 10);
    }
}

/// Two different samples of one document never share an output path,
/// whatever their languages.
pub proof fn lemma_output_paths_distinct(
    doc: Seq<char>,
    i: nat,
    j: nat,
    first: Language,
    second: Language,
)
    requires
        i != j,
    ensures
        output_path(doc, i, first) != output_path(doc, j, second),
{
    let p = output_path(doc, i, first);
    let q = output_path(doc, j, second);
    if first != second {
        assert(p[0] == first.test_dir_spec()[0]);
        assert(q[0] == second.test_dir_spec()[0]);
    } else {
        let head = first.test_dir_spec() + seq!['/'] + flat_name(doc) + seq!['_'];
        let tail = seq!['.'] + first.file_ext_spec();
        assert(p =~= head + decimal(i) + tail);
        assert(q =~= head + decimal(j) + tail);
        if p == q {
            let m = head.len() as int;
            assert(decimal(i).len() == decimal(j).len());
            assert(p.subrange(m, m + decimal(i).len()) =~= decimal(i));
            assert(q.subrange(m, m + decimal(j).len()) =~= decimal(j));
            lemma_decimal_injective(i, j);
        }
    }
}

} // verus!
