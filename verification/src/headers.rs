//! Request headers as the library reads them: each header's lowercase
//! name and, when its value is visible ASCII, the value's text.
use vstd::prelude::*;

use crate::json::{first_key_at, key_pos};
use crate::text::str_eq;

verus! {

/// The headers of a request, in the order the transport lists them. Names
/// are lowercase; a value that is not visible ASCII has no text.
pub struct Headers {
    pub entries: Vec<(String, Option<String>)>,
}

/// The names of the headers, in order.
pub open spec fn header_names(e: Seq<(String, Option<String>)>) -> Seq<Seq<char>> {
    Seq::new(e.len(), |i: int| e[i].0@)
}

/// The text of an optional string.
pub open spec fn opt_text(v: Option<String>) -> Option<Seq<char>> {
    match v {
        Some(t) => Some(t@),
        None => None,
    }
}

impl Headers {
    /// The text of the first header called `name`, if there is one and its
    /// value is visible ASCII.
    pub open spec fn text_of(&self, name: Seq<char>) -> Option<Seq<char>> {
        let p = key_pos(header_names(self.entries@), name);
        if 0 <= p < self.entries@.len() {
            opt_text(self.entries@[p].1)
        } else {
            None
        }
    }

    /// The text of the first header called `name`, unless it is empty.
    pub open spec fn nonempty_text_of(&self, name: Seq<char>) -> Option<Seq<char>> {
        match self.text_of(name) {
            Some(t) => if t.len() > 0 {
                Some(t)
            } else {
                None
            },
            None => None,
        }
    }

    /// No headers.
    pub fn new() -> (r: Headers)
        ensures
            r.entries@.len() == 0,
    {
        Headers { entries: Vec::new() }
    }

    /// Adds a header after the others.
    pub fn insert(&mut self, name: String, value: Option<String>)
        ensures
            final(self).entries@ == old(self).entries@.push((name, value)),
    {
        self.entries.push((name, value));
    }

    /// The text of the first header called `name` (as `HeaderMap::get`
    /// followed by `HeaderValue::to_str`).
    pub fn get(&self, name: &str) -> (r: Option<String>)
        ensures
            opt_text(r) == self.text_of(name@),
    {
        let ghost names = header_names(self.entries@);
        let mut i: usize = 0;
        while i < self.entries.len()
            invariant
                i <= self.entries.len(),
                names == header_names(self.entries@),
                forall|j: int| 0 <= j < i ==> names[j] != name@,
            decreases self.entries.len() - i,
        {
            if str_eq(self.entries[i].0.as_str(), name) {
                proof {
                    assert(first_key_at(names, name@, i as int));
                    let p = key_pos(names, name@);
                    assert(first_key_at(names, name@, p));
                    if p < i {
                        assert(names[p] != name@);
                    }
                    if p > i {
                        assert(names[i as int] != name@);
                    }
                }
                return match &self.entries[i].1 {
                    Some(t) => Some(t.clone()),
                    None => None,
                };
            }
            i = i + 1;
        }
        proof {
            if exists|p: int| first_key_at(names, name@, p) {
                let p = choose|p: int| first_key_at(names, name@, p);
                assert(names[p] == name@);
            }
        }
        None
    }

    /// The text of the first header called `name`, unless it is empty.
    pub fn get_nonempty(&self, name: &str) -> (r: Option<String>)
        ensures
            opt_text(r) == self.nonempty_text_of(name@),
    {
        match self.get(name) {
            Some(t) => {
                if t.as_str().unicode_len() > 0 {
                    Some(t)
                } else {
                    None
                }
            },
            None => None,
        }
    }
}

} // verus!
