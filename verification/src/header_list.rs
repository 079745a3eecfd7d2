//! An ordered list of header names and values in which each name occurs
//! once: the form in which header inputs are gathered before they become a
//! header map.

use vstd::prelude::*;

verus! {

/// A header as plain text: its name and its value.
pub type HeaderText = (Seq<char>, Seq<char>);

/// No name occurs twice in `s`.
pub open spec fn names_distinct(s: Seq<HeaderText>) -> bool {
    forall|i: int, j: int| 0 <= i < j < s.len() ==> s[i].0 != s[j].0
}

/// `s` has an entry named `name`.
pub open spec fn has_name(s: Seq<HeaderText>, name: Seq<char>) -> bool {
    exists|i: int| 0 <= i < s.len() && s[i].0 == name
}

/// The position of the entry named `name` in `s`, when it has one.
pub open spec fn name_index(s: Seq<HeaderText>, name: Seq<char>) -> int {
    choose|i: int| 0 <= i < s.len() && s[i].0 == name
}

/// `s` with `name` set to `value`: the entry of that name takes the new
/// value in its place, or, when there is none, a new entry goes at the end.
pub open spec fn set_header(s: Seq<HeaderText>, name: Seq<char>, value: Seq<char>) -> Seq<HeaderText> {
    if has_name(s, name) {
        s.update(name_index(s, name), (name, value))
    } else {
        s.push((name, value))
    }
}

/// The value of each name in `s`.
pub open spec fn header_text_map(s: Seq<HeaderText>) -> Map<Seq<char>, Seq<char>> {
    Map::new(|name: Seq<char>| has_name(s, name), |name: Seq<char>| s[name_index(s, name)].1)
}

/// Setting a name keeps the names distinct and, seen as a map, is a map
/// insertion.
pub proof fn lemma_set_header(s: Seq<HeaderText>, name: Seq<char>, value: Seq<char>)
    requires
        names_distinct(s),
    ensures
        names_distinct(set_header(s, name, value)),
        header_text_map(set_header(s, name, value)) == header_text_map(s).insert(name, value),
        set_header(s, name, value).len() == s.len() + (if has_name(s, name) { 0int } else { 1int }),
{
    let t = set_header(s, name, value);
    if has_name(s, name) {
        let k = name_index(s, name);
        assert forall|n: Seq<char>| has_name(t, n) <==> has_name(s, n) by {
            if has_name(s, n) {
                let i = name_index(s, n);
                if i == k {
                    assert(t[k].0 == n);
                } else {
                    assert(t[i].0 == n);
                }
            }
            if has_name(t, n) {
                let i = name_index(t, n);
                assert(s[i].0 == n);
            }
        }
    } else {
        assert forall|n: Seq<char>| has_name(t, n) <==> (has_name(s, n) || n == name) by {
            if has_name(s, n) {
                let i = name_index(s, n);
                assert(t[i].0 == n);
            }
            if n == name {
                assert(t[s.len() as int].0 == n);
            }
            if has_name(t, n) {
                let i = name_index(t, n);
                if i < s.len() {
                    assert(s[i].0 == n);
                }
            }
        }
    }
    assert forall|n: Seq<char>| has_name(t, n) implies #[trigger] t[name_index(t, n)].1 == (
    if n == name {
        value
    } else {
        s[name_index(s, n)].1
    }) by {
        let i = name_index(t, n);
        if n == name {
            if has_name(s, name) {
                assert(i == name_index(s, name));
            } else {
                assert(i == s.len());
            }
        } else {
            let j = name_index(s, n);
            assert(t[j].0 == n);
            assert(i == j);
        }
    }
    assert(header_text_map(t) =~= header_text_map(s).insert(name, value));
}

/// Headers as text, in the order in which their names first came, each
/// name once.
#[derive(Debug)]
pub struct HeaderStrings {
    entries: Vec<(String, String)>,
}

impl View for HeaderStrings {
    type V = Seq<HeaderText>;

    closed spec fn view(&self) -> Seq<HeaderText> {
        self.entries@.map_values(|e: (String, String)| (e.0@, e.1@))
    }
}

impl HeaderStrings {
    #[verifier::type_invariant]
    spec fn names_once(self) -> bool {
        names_distinct(self@)
    }

    /// No headers.
    pub fn new() -> (r: HeaderStrings)
        ensures
            r@ == Seq::<HeaderText>::empty(),
    {
        let r = HeaderStrings { entries: Vec::new() };
        assert(r@ =~= Seq::<HeaderText>::empty());
        r
    }

    /// The number of headers.
    pub fn len(&self) -> (r: usize)
        ensures
            r == self@.len(),
            names_distinct(self@),
    {
        proof {
            use_type_invariant(self);
        }
        self.entries.len()
    }

    /// The headers as name and value pairs, in order.
    pub fn pairs(&self) -> (r: &Vec<(String, String)>)
        ensures
            r@.map_values(|e: (String, String)| (e.0@, e.1@)) == self@,
    {
        &self.entries
    }

    /// The value of the header `name`, if there is one.
    pub fn get(&self, name: &str) -> (r: Option<&str>)
        ensures
            r matches Some(v) ==> header_text_map(self@).contains_key(name@) && header_text_map(self@)[name@] == v@,
            r is None ==> !header_text_map(self@).contains_key(name@),
    {
        proof {
            use_type_invariant(self);
        }
        let mut i: usize = 0;
        while i < self.entries.len()
            invariant
                i <= self.entries@.len(),
                names_distinct(self@),
                forall|j: int| 0 <= j < i ==> self@[j].0 != name@,
            decreases self.entries@.len() - i,
        {
            if crate::text::str_eq(self.entries[i].0.as_str(), name) {
                assert(self@[i as int].0 == name@);
                assert(name_index(self@, name@) == i as int);
                return Some(self.entries[i].1.as_str());
            }
            i = i + 1;
        }
        None
    }

    /// The name and value of the header at `index`.
    pub fn entry(&self, index: usize) -> (r: (&str, &str))
        requires
            index < self@.len(),
        ensures
            r.0@ == self@[index as int].0,
            r.1@ == self@[index as int].1,
    {
        (self.entries[index].0.as_str(), self.entries[index].1.as_str())
    }

    /// Sets `name` to `value`: the header of that name keeps its place and
    /// takes the new value, or, when there is none, the header goes last.
    pub fn insert(&mut self, name: String, value: String)
        ensures
            final(self)@ == set_header(old(self)@, name@, value@),
            names_distinct(final(self)@),
    {
        proof {
            use_type_invariant(&*self);
            lemma_set_header(self@, name@, value@);
        }
        let mut i: usize = 0;
        while i < self.entries.len()
            invariant
                i <= self.entries@.len(),
                self@ == old(self)@,
                names_distinct(self@),
                forall|j: int| 0 <= j < i ==> self@[j].0 != name@,
            decreases self.entries@.len() - i,
        {
            if self.entries[i].0 == name {
                assert(self@[i as int].0 == name@);
                assert(name_index(self@, name@) == i as int);
                let ghost before = self@;
                let mut entries = Vec::new();
                std::mem::swap(&mut entries, &mut self.entries);
                entries.set(i, (name, value));
                assert(entries@.map_values(|e: (String, String)| (e.0@, e.1@)) =~= set_header(
                    before,
                    name@,
                    value@,
                ));
                self.entries = entries;
                return;
            }
            i = i + 1;
        }
        assert(!has_name(self@, name@));
        let ghost before = self@;
        let mut entries = Vec::new();
        std::mem::swap(&mut entries, &mut self.entries);
        entries.push((name, value));
        assert(entries@.map_values(|e: (String, String)| (e.0@, e.1@)) =~= set_header(
            before,
            name@,
            value@,
        ));
        self.entries = entries;
    }
}

} // verus!
