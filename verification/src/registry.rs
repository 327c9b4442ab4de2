//! The class registry: the entries that the classes contribute, in the
//! order in which they were added. Entries are added and never taken out.

use crate::derive_godot_class::{transform, transformed};
use crate::errors::{outcome, Diagnostic};
use crate::output::{ClassOutput, ClassPlugin, ClassPluginView};
use crate::source::Declaration;
use vstd::prelude::*;

verus! {

/// A registry of classes.
#[derive(Debug)]
pub struct ClassRegistry {
    entries: Vec<ClassPlugin>,
}

impl View for ClassRegistry {
    type V = Seq<ClassPluginView>;

    closed spec fn view(&self) -> Seq<ClassPluginView> {
        self.entries@.map_values(|e: ClassPlugin| e@)
    }
}

impl ClassRegistry {
    /// The registry without any entry.
    pub fn new() -> (r: Self)
        ensures
            r@ == Seq::<ClassPluginView>::empty(),
    {
        let r = ClassRegistry { entries: Vec::new() };
        assert(r@ =~= Seq::<ClassPluginView>::empty());
        r
    }

    /// The number of entries.
    pub fn len(&self) -> (n: usize)
        ensures
            n == self@.len(),
    {
        self.entries.len()
    }

    /// The entry at `index`, counted in the order in which the entries were
    /// added.
    pub fn get(&self, index: usize) -> (r: Option<&ClassPlugin>)
        ensures
            match r {
                Some(entry) => index < self@.len() && entry@ == self@[index as int],
                None => index >= self@.len(),
            },
    {
        if index < self.entries.len() {
            Some(&self.entries[index])
        } else {
            None
        }
    }

    /// Adds `entry` behind the entries that are there.
    pub fn add(&mut self, entry: ClassPlugin)
        ensures
            final(self)@ == old(self)@.push(entry@),
    {
        self.entries.push(entry);
        assert(self@ =~= old(self)@.push(entry@));
    }

    /// Runs the pass on `decl` and, where it succeeds, adds the entry of the
    /// class. A declaration that is refused leaves the registry as it was.
    pub fn register(&mut self, decl: Declaration) -> (r: Result<ClassOutput, Diagnostic>)
        ensures
            outcome(r) == transformed(decl@),
            match r {
                Ok(output) => final(self)@ == old(self)@.push(output@.registry_entry),
                Err(_) => final(self)@ == old(self)@,
            },
    {
        match transform(decl) {
            Ok(output) => {
                self.add(output.registry_entry.clone());
                Ok(output)
            },
            Err(e) => Err(e),
        }
    }
}

/// The registry holds the same entries, each as often, whichever of two
/// classes was added first.
pub proof fn lemma_order_of_registration(
    entries: Seq<ClassPluginView>,
    a: ClassPluginView,
    b: ClassPluginView,
)
    ensures
        entries.push(a).push(b).to_multiset() == entries.push(b).push(a).to_multiset(),
{
    broadcast use vstd::seq_lib::group_to_multiset_ensures;

    assert(entries.push(a).push(b).to_multiset() =~= entries.push(b).push(a).to_multiset());
}

} // verus!
