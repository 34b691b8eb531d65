//! The source map a file-watching collaborator fills and the parsers read: the
//! main document's text and the named component sub-templates. The file layer
//! itself (watching, directory scans) stays outside the library and hands in
//! plain text.

use vstd::prelude::*;

verus! {

/// The first index at or after `from` whose entry is named `name`, or the
/// number of entries.
pub open spec fn find_key(entries: Seq<(Seq<char>, Seq<char>)>, from: int, name: Seq<char>) -> int
    decreases entries.len() - from,
{
    if from < 0 || from >= entries.len() {
        entries.len() as int
    } else if entries[from].0 == name {
        from
    } else {
        find_key(entries, from + 1, name)
    }
}

/// The main document and the component templates, each component named by its
/// file stem.
#[derive(Debug, PartialEq, Eq)]
pub struct SourceMap {
    pub main: Vec<char>,
    pub components: Vec<(Vec<char>, Vec<char>)>,
}

impl SourceMap {
    /// The entries as pairs of text.
    pub open spec fn entries(self) -> Seq<(Seq<char>, Seq<char>)> {
        self.components@.map_values(|e: (Vec<char>, Vec<char>)| (e.0@, e.1@))
    }

    /// A map with no components.
    pub fn new(main: Vec<char>) -> (r: SourceMap)
        ensures
            r.main@ == main@,
            r.entries().len() == 0,
    {
        let r = SourceMap { main, components: Vec::new() };
        proof {
            assert(r.entries() =~= Seq::<(Seq<char>, Seq<char>)>::empty());
        }
        r
    }

    /// Adds a component: an existing entry of the same name is replaced (the
    /// result says whether one was), a new name is appended.
    pub fn insert_component(&mut self, name: Vec<char>, source: Vec<char>) -> (replaced: bool)
        ensures
            final(self).main == old(self).main,
            ({
                let i = find_key(old(self).entries(), 0, name@);
                if i < old(self).entries().len() {
                    replaced && final(self).entries() == old(self).entries().update(
                        i,
                        (name@, source@),
                    )
                } else {
                    !replaced && final(self).entries() == old(self).entries().push(
                        (name@, source@),
                    )
                }
            }),
    {
        let ghost entries0 = self.entries();
        let n = self.components.len();
        let mut i: usize = 0;
        while i < n
            invariant
                i <= n,
                n == self.components@.len(),
                *self == *old(self),
                entries0 == self.entries(),
                find_key(entries0, 0, name@) == find_key(entries0, i as int, name@),
            decreases n - i,
        {
            if crate::parser::element::slices_eq(
                self.components[i].0.as_slice(),
                name.as_slice(),
            ) {
                self.components.remove(i);
                self.components.insert(i, (name, source));
                proof {
                    assert(self.entries() =~= entries0.update(i as int, (name@, source@)));
                }
                return true;
            }
            i = i + 1;
        }
        self.components.push((name, source));
        proof {
            assert(self.entries() =~= entries0.push((name@, source@)));
        }
        false
    }

    /// The component named `name`, if any.
    pub fn component(&self, name: &[char]) -> (r: Option<&Vec<char>>)
        ensures
            ({
                let i = find_key(self.entries(), 0, name@);
                match r {
                    Some(src) => i < self.entries().len() && src@ == self.entries()[i].1,
                    None => i == self.entries().len(),
                }
            }),
    {
        let ghost entries0 = self.entries();
        let n = self.components.len();
        let mut i: usize = 0;
        while i < n
            invariant
                i <= n,
                n == self.components@.len(),
                entries0 == self.entries(),
                find_key(entries0, 0, name@) == find_key(entries0, i as int, name@),
            decreases n - i,
        {
            if crate::parser::element::slices_eq(self.components[i].0.as_slice(), name) {
                return Some(&self.components[i].1);
            }
            i = i + 1;
        }
        None
    }
}

} // verus!
