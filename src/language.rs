//! The closed set of languages that samples can be written in.

use vstd::prelude::*;

verus! {

/// A target language for materialized samples.
#[derive(Clone, Copy, Debug, PartialEq, Eq, Structural)]
pub enum Language {
    Go,
    Rust,
}

/// Whether `a` and `b` are the same character once ASCII letters are folded
/// to lower case.
pub open spec fn same_ignoring_ascii_case(a: char, b: char) -> bool {
    a == b || ('A' <= a <= 'Z' && a as u32 + 32 == b as u32) || ('A' <= b <= 'Z' && b as u32
        + 32 == a as u32)
}

/// Whether `a` and `b` are equal up to the case of ASCII letters.
pub open spec fn eq_ignoring_ascii_case(a: Seq<char>, b: Seq<char>) -> bool {
    a.len() == b.len() && forall|i: int| 0 <= i < a.len() ==> same_ignoring_ascii_case(a[i], b[i])
}

fn same_char_ignoring_ascii_case(a: char, b: char) -> (r: bool)
    ensures
        r == same_ignoring_ascii_case(a, b),
{
    a == b || ('A' <= a && a <= 'Z' && a as u32 + 32 == b as u32) || ('A' <= b && b <= 'Z' && b
        as u32 + 32 == a as u32)
}

/// Compares two character sequences up to the case of ASCII letters.
pub fn chars_eq_ignoring_ascii_case(a: &Vec<char>, b: &Vec<char>) -> (r: bool)
    ensures
        r == eq_ignoring_ascii_case(a@, b@),
{
    if a.len() != b.len() {
        return false;
    }
    let n = a.len();
    let mut i: usize = 0;
    while i < n
        invariant
            n == a@.len(),
            n == b@.len(),
            i <= n,
            forall|j: int| 0 <= j < i ==> same_ignoring_ascii_case(a@[j], b@[j]),
        decreases n - i,
    {
        if !same_char_ignoring_ascii_case(a[i], b[i]) {
            return false;
        }
        i += 1;
    }
    true
}

impl Language {
    /// The canonical lower-case name.
    pub open spec fn name_spec(self) -> Seq<char> {
        match self {
            Language::Go => seq!['g', 'o'],
            Language::Rust => seq!['r', 'u', 's', 't'],
        }
    }

    /// The extension of the files written for this language.
    pub open spec fn file_ext_spec(self) -> Seq<char> {
        match self {
            Language::Go => seq!['g', 'o'],
            Language::Rust => seq!['r', 's'],
        }
    }

    /// The directory that receives the files written for this language.
    pub open spec fn test_dir_spec(self) -> Seq<char> {
        match self {
            Language::Go => seq!['g', 'o', '_', 't', 'e', 's', 't', 's'],
            Language::Rust => seq!['t', 'e', 's', 't', 's'],
        }
    }

    pub fn name(&self) -> (r: &'static str)
        ensures
            r@ == self.name_spec(),
    {
        match self {
            Language::Go => {
                proof {
                    reveal_strlit("go");
                }
                "go"
            },
            Language::Rust => {
                proof {
                    reveal_strlit("rust");
                }
                "rust"
            },
        }
    }

    pub fn file_ext(&self) -> (r: &'static str)
        ensures
            r@ == self.file_ext_spec(),
    {
        match self {
            Language::Go => {
                proof {
                    reveal_strlit("go");
                }
                "go"
            },
            Language::Rust => {
                proof {
                    reveal_strlit("rs");
                }
                "rs"
            },
        }
    }

    pub fn test_dir(&self) -> (r: &'static str)
        ensures
            r@ == self.test_dir_spec(),
    {
        match self {
            Language::Go => {
                proof {
                    reveal_strlit("go_tests");
                }
                "go_tests"
            },
            Language::Rust => {
                proof {
                    reveal_strlit("tests");
                }
                "tests"
            },
        }
    }
}

/// Every language, in declaration order.
pub open spec fn every_language() -> Seq<Language> {
    seq![Language::Go, Language::Rust]
}

/// Every language, in declaration order.
pub fn all_languages() -> (r: Vec<Language>)
    ensures
        r@ == every_language(),
{
    let r = vec![Language::Go, Language::Rust];
    assert(r@ =~= every_language());
    r
}

/// The language whose name `t` is, up to ASCII case.
pub open spec fn language_of_token(t: Seq<char>) -> Option<Language> {
    if eq_ignoring_ascii_case(t, Language::Go.name_spec()) {
        Some(Language::Go)
    } else if eq_ignoring_ascii_case(t, Language::Rust.name_spec()) {
        Some(Language::Rust)
    } else {
        None
    }
}

/// Looks a token up among the language names, ignoring ASCII case.
pub fn language_for_token(t: &Vec<char>) -> (r: Option<Language>)
    ensures
        r == language_of_token(t@),
{
    let langs = all_languages();
    let mut i: usize = 0;
    while i < langs.len()
        invariant
            langs@ == every_language(),
            i <= langs@.len(),
            forall|j: int| 0 <= j < i ==> !eq_ignoring_ascii_case(t@, #[trigger] langs@[j].name_spec()),
        decreases langs@.len() - i,
    {
        let lang = langs[i];
        let name = crate::text::chars_of(lang.name());
        if chars_eq_ignoring_ascii_case(t, &name) {
            return Some(lang);
        }
        i += 1;
    }
    None
}

} // verus!
