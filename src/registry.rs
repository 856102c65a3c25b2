//! The named templates that samples are placed into.

use vstd::prelude::*;
use vstd::string::*;

verus! {

/// A template body holds this marker once; a sample replaces it.
pub open spec fn code_marker() -> Seq<char> {
    seq!['{', '{', 'c', 'o', 'd', 'e', '}', '}']
}

/// The mapping that a list of (name, body) entries describes; a later entry
/// for a name replaces an earlier one.
pub open spec fn entries_map(s: Seq<(String, String)>) -> Map<Seq<char>, Seq<char>>
    decreases s.len(),
{
    if s.len() == 0 {
        Map::empty()
    } else {
        entries_map(s.drop_last()).insert(s.last().0@, s.last().1@)
    }
}

/// A mapping from template name to template body.
pub struct TemplateRegistry {
    entries: Vec<(String, String)>,
}

impl View for TemplateRegistry {
    type V = Map<Seq<char>, Seq<char>>;

    closed spec fn view(&self) -> Map<Seq<char>, Seq<char>> {
        entries_map(self.entries@)
    }
}

impl TemplateRegistry {
    /// A registry with no template.
    pub fn new() -> (r: TemplateRegistry)
        ensures
            r@ == Map::<Seq<char>, Seq<char>>::empty(),
    {
        TemplateRegistry { entries: Vec::new() }
    }

    /// Registers `body` under `name`, replacing any earlier body of that name.
    pub fn insert(&mut self, name: String, body: String)
        ensures
            final(self)@ == old(self)@.insert(name@, body@),
    {
        let ghost before = self.entries@;
        self.entries.push((name, body));
        assert(self.entries@.drop_last() =~= before);
    }

    /// Whether a template of this name is registered.
    pub fn contains(&self, name: &str) -> (r: bool)
        ensures
            r == self@.contains_key(name@),
    {
        self.get(name).is_some()
    }

    /// The body of the template called `name`.
    pub fn get(&self, name: &str) -> (r: Option<&String>)
        ensures
            r is Some <==> self@.contains_key(name@),
            r is Some ==> r->0@ == self@[name@],
    {
        match self.position(name) {
            Some(i) => Some(&self.entries[i].1),
            None => None,
        }
    }

    /// The position of the entry that decides what `name` maps to.
    fn position(&self, name: &str) -> (r: Option<usize>)
        ensures
            r is Some <==> self@.contains_key(name@),
            r is Some ==> r->0 < self.entries@.len() && self.entries@[r->0 as int].1@
                == self@[name@],
    {
        let key = String::from_str(name);
        let ghost s = self.entries@;
        let ghost k = name@;
        let mut i: usize = self.entries.len();
        assert(s.take(i as int) =~= s);
        while i > 0
            invariant
                s == self.entries@,
                key@ == k,
                k == name@,
                i <= s.len(),
                entries_map(s).contains_key(k) == entries_map(s.take(i as int)).contains_key(k),
                entries_map(s).contains_key(k) ==> entries_map(s)[k] == entries_map(
                    s.take(i as int),
                )[k],
            decreases i,
        {
            assert(s.take(i as int).drop_last() =~= s.take(i - 1));
            assert(s.take(i as int).last() == s[i - 1]);
            assert(entries_map(s.take(i as int)) == entries_map(s.take(i - 1)).insert(
                s[i - 1].0@,
                s[i - 1].1@,
            ));
            if self.entries[i - 1].0 == key {
                return Some(i - 1);
            }
            i -= 1;
        }
        None
    }
}

} // verus!
