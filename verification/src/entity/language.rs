//! A language descriptor: a display name and the file extensions that
//! classify to it.

use vstd::prelude::*;

verus! {

#[derive(Debug)]
pub struct Language {
    pub name: String,
    pub exts: Vec<String>,
}

pub ghost struct LanguageV {
    pub name: Seq<char>,
    pub exts: Seq<Seq<char>>,
}

impl View for Language {
    type V = LanguageV;

    open spec fn view(&self) -> LanguageV {
        LanguageV { name: self.name@, exts: self.exts.deep_view() }
    }
}

/// Copies a vector of strings, keeping every element's value.
pub fn clone_strings(v: &Vec<String>) -> (r: Vec<String>)
    ensures
        r@ == v@,
{
    let mut r: Vec<String> = Vec::new();
    let mut i: usize = 0;
    while i < v.len()
        invariant
            i <= v.len(),
            r@ =~= v@.take(i as int),
        decreases v.len() - i,
    {
        r.push(v[i].clone());
        i = i + 1;
    }
    proof {
        assert(v@.take(v@.len() as int) =~= v@);
    }
    r
}

impl Clone for Language {
    fn clone(&self) -> (r: Self)
        ensures
            r@ == self@,
            r.name@ == self.name@,
            r.exts@ == self.exts@,
    {
        Language { name: self.name.clone(), exts: clone_strings(&self.exts) }
    }
}

} // verus!
