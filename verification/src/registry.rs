//! The custom component registry.
//!
//! A name-keyed table of render callbacks, consulted whenever the markdown
//! source embeds a tag outside the fixed markdown vocabulary.  Callbacks are
//! registered before the render pass that needs them and only read during
//! rendering.  Registering a name again replaces its callback: the table
//! reads as a map whose last write wins.

use vstd::prelude::*;
use crate::text::str_eq;

verus! {

/// Component store.  It is consulted when there is a custom tag inside the
/// markdown source: a table from tag name to render callback, read through
/// its map view `self@`.
pub struct CustomComponents<C> {
    entries: Vec<(String, C)>,
}

/// The map read of an association list: entries applied left to right, a
/// later entry for a name overriding an earlier one.
pub open spec fn spec_map_of<C>(s: Seq<(String, C)>) -> Map<Seq<char>, C>
    decreases s.len(),
{
    if s.len() == 0 {
        Map::empty()
    } else {
        spec_map_of(s.drop_last()).insert(s.last().0@, s.last().1)
    }
}

impl<C> View for CustomComponents<C> {
    type V = Map<Seq<char>, C>;

    closed spec fn view(&self) -> Map<Seq<char>, C> {
        spec_map_of(self.entries@)
    }
}

proof fn lemma_map_of_found<C>(s: Seq<(String, C)>, name: Seq<char>, i: int)
    requires
        0 <= i < s.len(),
        s[i].0@ == name,
        forall|j: int| i < j < s.len() ==> (#[trigger] s[j]).0@ != name,
    ensures
        spec_map_of(s).contains_key(name),
        spec_map_of(s)[name] == s[i].1,
    decreases s.len(),
{
    if i < s.len() - 1 {
        lemma_map_of_found(s.drop_last(), name, i);
    }
}

proof fn lemma_map_of_absent<C>(s: Seq<(String, C)>, name: Seq<char>)
    requires
        forall|j: int| 0 <= j < s.len() ==> (#[trigger] s[j]).0@ != name,
    ensures
        !spec_map_of(s).contains_key(name),
    decreases s.len(),
{
    if s.len() > 0 {
        lemma_map_of_absent(s.drop_last(), name);
    }
}

impl<C> CustomComponents<C> {
    /// An empty registry: no custom tag resolves.
    pub fn new() -> (r: Self)
        ensures
            r@ == Map::<Seq<char>, C>::empty(),
    {
        CustomComponents { entries: Vec::new() }
    }

    /// Registers a new component: inserts or replaces the render callback
    /// bound to `name`.  The callback takes the props built for one tag
    /// occurrence and returns a view subtree or a creation error.
    pub fn register(&mut self, name: &'static str, component: C)
        ensures
            final(self)@ == old(self)@.insert(name@, component),
    {
        let owned: String = name.to_owned();
        proof {
            assert(owned@ == name@);
        }
        self.entries.push((owned, component));
        proof {
            assert(self.entries@.drop_last() =~= old(self).entries@);
            assert(self.entries@.last() == (owned, component));
        }
    }

    /// Pure lookup of the callback bound to a tag name, with no side effect.
    pub fn resolve(&self, name: &str) -> (r: Option<&C>)
        ensures
            match r {
                Some(c) => self@.contains_key(name@) && *c == self@[name@],
                None => !self@.contains_key(name@),
            },
    {
        let mut i: usize = self.entries.len();
        while i > 0
            invariant
                i <= self.entries.len(),
                forall|j: int|
                    i <= j < self.entries.len() ==> (#[trigger] self.entries@[j]).0@ != name@,
            decreases i,
        {
            i = i - 1;
            if str_eq(self.entries[i].0.as_str(), name) {
                proof {
                    lemma_map_of_found(self.entries@, name@, i as int);
                }
                return Some(&self.entries[i].1);
            }
        }
        proof {
            lemma_map_of_absent(self.entries@, name@);
        }
        None
    }

    /// Whether a tag name resolves to a registered component; the renderer
    /// core uses this to tell a custom component from an unknown tag.
    pub fn has(&self, name: &str) -> (r: bool)
        ensures
            r == self@.contains_key(name@),
    {
        self.resolve(name).is_some()
    }
}

impl<C> Default for CustomComponents<C> {
    /// The default registry is empty.
    fn default() -> (r: Self)
        ensures
            r@ == Map::<Seq<char>, C>::empty(),
    {
        CustomComponents { entries: Vec::new() }
    }
}

} // verus!
