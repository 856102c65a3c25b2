//! Reading a code fence's info string: the language it names and the value
//! of its `template` attribute.

use vstd::prelude::*;
use vstd::string::*;
use crate::language::{Language, language_of_token, language_for_token};
use crate::text::{chars_of, span_views, spans_within, split_tokens, token_spans, tokens, views};

verus! {

/// The language named by the first token of `toks` that names one.
pub open spec fn first_language(toks: Seq<Seq<char>>) -> Option<Language>
    decreases toks.len(),
{
    if toks.len() == 0 {
        None
    } else {
        match language_of_token(toks[0]) {
            Some(l) => Some(l),
            None => first_language(toks.drop_first()),
        }
    }
}

/// The language that the info string `info` selects.
pub open spec fn fence_language(info: Seq<char>) -> Option<Language> {
    first_language(tokens(info))
}

/// Finds the first whitespace-separated token of `fence` that names a
/// language, ignoring ASCII case.
pub fn find_language(fence: &str) -> (r: Option<Language>)
    ensures
        r == fence_language(fence@),
{
    let toks = split_tokens(fence);
    let ghost all = views(toks@);
    let mut i: usize = 0;
    assert(all.skip(0) =~= all);
    while i < toks.len()
        invariant
            all == views(toks@),
            all == tokens(fence@),
            i <= toks@.len(),
            first_language(all) == first_language(all.skip(i as int)),
        decreases toks@.len() - i,
    {
        assert(all.skip(i as int).drop_first() =~= all.skip(i + 1));
        let t = chars_of(toks[i].as_str());
        if let Some(lang) = language_for_token(&t) {
            return Some(lang);
        }
        i += 1;
    }
    None
}

/// The attribute key that names a template.
pub open spec fn template_key() -> Seq<char> {
    seq!['t', 'e', 'm', 'p', 'l', 'a', 't', 'e']
}

/// `k` is the position of the first `=` in `t`.
pub open spec fn is_first_eq(t: Seq<char>, k: int) -> bool {
    0 <= k < t.len() && t[k] == '=' && forall|j: int| 0 <= j < k ==> t[j] != '='
}

/// `v` with one leading and one trailing `"` removed, where present.
pub open spec fn unquoted(v: Seq<char>) -> Seq<char> {
    let a = if v.len() > 0 && v[0] == '"' {
        v.drop_first()
    } else {
        v
    };
    if a.len() > 0 && a.last() == '"' {
        a.drop_last()
    } else {
        a
    }
}

/// The template that a token names: split at its first `=`, the key must be
/// `template`, and the value is taken with one layer of quotes removed.
pub open spec fn template_of_token(t: Seq<char>) -> Option<Seq<char>> {
    if exists|k: int| is_first_eq(t, k) {
        let k = choose|k: int| is_first_eq(t, k);
        if t.take(k) == template_key() {
            Some(unquoted(t.skip(k + 1)))
        } else {
            None
        }
    } else {
        None
    }
}

/// The template named by the first token of `toks` that names one.
pub open spec fn first_template(toks: Seq<Seq<char>>) -> Option<Seq<char>>
    decreases toks.len(),
{
    if toks.len() == 0 {
        None
    } else {
        match template_of_token(toks[0]) {
            Some(x) => Some(x),
            None => first_template(toks.drop_first()),
        }
    }
}

/// The template that the info string `info` selects.
pub open spec fn fence_template(info: Seq<char>) -> Option<Seq<char>> {
    first_template(tokens(info))
}

/// The view of an optional string.
pub open spec fn opt_view(o: Option<String>) -> Option<Seq<char>> {
    match o {
        Some(s) => Some(s@),
        None => None,
    }
}

/// The view of an optional string slice.
pub open spec fn opt_str_view(o: Option<&str>) -> Option<Seq<char>> {
    match o {
        Some(s) => Some(s@),
        None => None,
    }
}

fn is_template_key(t: &Vec<char>, a: usize, k: usize) -> (r: bool)
    requires
        a <= k <= t@.len(),
    ensures
        r == (t@.subrange(a as int, k as int) == template_key()),
{
    let ghost key = template_key();
    if k - a != 8 {
        assert(t@.subrange(a as int, k as int).len() != key.len());
        return false;
    }
    let r = t[a] == 't' && t[a + 1] == 'e' && t[a + 2] == 'm' && t[a + 3] == 'p' && t[a + 4] == 'l'
        && t[a + 5] == 'a' && t[a + 6] == 't' && t[a + 7] == 'e';
    if r {
        assert(t@.subrange(a as int, k as int) =~= key);
    } else {
        assert(exists|j: int| 0 <= j < 8 && t@.subrange(a as int, k as int)[j] != key[j]);
    }
    r
}

/// The template that the token `fence[a..b]` names, if any.
fn token_template<'a>(fence: &'a str, sv: &Vec<char>, a: usize, b: usize) -> (r: Option<&'a str>)
    requires
        sv@ == fence@,
        a <= b <= fence@.len(),
    ensures
        opt_str_view(r) == template_of_token(fence@.subrange(a as int, b as int)),
{
    let ghost t = fence@.subrange(a as int, b as int);
    let mut k: usize = a;
    while k < b && sv[k] != '='
        invariant
            sv@ == fence@,
            a <= k <= b,
            b <= fence@.len(),
            t == fence@.subrange(a as int, b as int),
            forall|j: int| 0 <= j < k - a ==> t[j] != '=',
        decreases b - k,
    {
        k += 1;
    }
    if k == b {
        return None;
    }
    let ghost e = k - a;
    assert(is_first_eq(t, e));
    let ghost c = choose|c: int| is_first_eq(t, c);
    assert(c == e) by {
        if c < e {
            assert(t[c] != '=');
        } else if c > e {
            assert(t[e] != '=');
        }
    }
    if !is_template_key(sv, a, k) {
        assert(t.take(e) =~= fence@.subrange(a as int, k as int));
        return None;
    }
    assert(t.take(e) =~= fence@.subrange(a as int, k as int));
    let ghost v = t.skip(e + 1);
    let start: usize = if k + 1 < b && sv[k + 1] == '"' {
        k + 2
    } else {
        k + 1
    };
    let end: usize = if start < b && sv[b - 1] == '"' {
        b - 1
    } else {
        b
    };
    let ghost w = if v.len() > 0 && v[0] == '"' {
        v.drop_first()
    } else {
        v
    };
    assert(w =~= fence@.subrange(start as int, b as int));
    assert(unquoted(v) =~= fence@.subrange(start as int, end as int));
    Some(fence.substring_char(start, end))
}

/// Finds the value of the first `template` attribute among the
/// whitespace-separated tokens of `fence`, with one layer of quotes removed.
pub fn get_template_name(fence: &str) -> (r: Option<&str>)
    ensures
        opt_str_view(r) == fence_template(fence@),
{
    let sv = chars_of(fence);
    let spans = token_spans(fence);
    let ghost all = span_views(fence@, spans@);
    let mut i: usize = 0;
    assert(all.skip(0) =~= all);
    while i < spans.len()
        invariant
            sv@ == fence@,
            spans_within(spans@, fence@.len()),
            all == span_views(fence@, spans@),
            all == tokens(fence@),
            i <= spans@.len(),
            first_template(all) == first_template(all.skip(i as int)),
        decreases spans@.len() - i,
    {
        assert(all.skip(i as int).drop_first() =~= all.skip(i + 1));
        let (a, b) = spans[i];
        let found = token_template(fence, &sv, a, b);
        if found.is_some() {
            return found;
        }
        i += 1;
    }
    None
}

} // verus!
