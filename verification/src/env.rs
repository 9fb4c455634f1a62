//! The environment: which stack slot each name in scope lives in.
use vstd::prelude::*;

verus! {

/// A mapping from names to slot offsets. A scope of its own is made by
/// cloning; what is bound in the clone afterwards never shows in the
/// environment it was cloned from.
#[derive(Debug)]
pub struct Environment {
    entries: Vec<(String, i32)>,
}

/// The mapping that a list of entries stands for: a later entry for a name
/// hides an earlier one.
pub open spec fn entries_map(entries: Seq<(String, i32)>) -> Map<Seq<char>, i32>
    decreases entries.len(),
{
    if entries.len() == 0 {
        Map::empty()
    } else {
        entries_map(entries.drop_last()).insert(entries.last().0@, entries.last().1)
    }
}

impl View for Environment {
    type V = Map<Seq<char>, i32>;

    closed spec fn view(&self) -> Map<Seq<char>, i32> {
        entries_map(self.entries@)
    }
}

impl Environment {
    /// The environment in which no name is bound.
    pub fn new() -> (env: Environment)
        ensures
            env@ == Map::<Seq<char>, i32>::empty(),
    {
        Environment { entries: Vec::new() }
    }

    /// Binds `name` to `offset`, in place of what it was bound to.
    pub fn insert(&mut self, name: String, offset: i32)
        ensures
            final(self)@ == old(self)@.insert(name@, offset),
    {
        let ghost before = self.entries@;
        self.entries.push((name, offset));
        assert(self.entries@.drop_last() =~= before);
    }

    /// The offset that `name` is bound to, if it is bound.
    pub fn get(&self, name: &String) -> (offset: Option<i32>)
        ensures
            offset == (if self@.contains_key(name@) {
                Some(self@[name@])
            } else {
                None
            }),
    {
        let mut i: usize = self.entries.len();
        assert(self.entries@.subrange(0, i as int) =~= self.entries@);
        while i > 0
            invariant
                i <= self.entries.len(),
                entries_map(self.entries@.subrange(0, i as int)).contains_key(name@)
                    == self@.contains_key(name@),
                self@.contains_key(name@) ==> entries_map(
                    self.entries@.subrange(0, i as int),
                )[name@] == self@[name@],
            decreases i,
        {
            let ghost prefix = self.entries@.subrange(0, i as int);
            assert(prefix.drop_last() =~= self.entries@.subrange(0, i - 1));
            assert(prefix.last() == self.entries@[i - 1]);
            i -= 1;
            if self.entries[i].0 == *name {
                return Some(self.entries[i].1);
            }
        }
        None
    }
}

impl Clone for Environment {
    fn clone(&self) -> (copy: Environment)
        ensures
            copy@ == self@,
    {
        let mut entries: Vec<(String, i32)> = Vec::new();
        let mut i: usize = 0;
        while i < self.entries.len()
            invariant
                i <= self.entries.len(),
                entries@ == self.entries@.subrange(0, i as int),
            decreases self.entries.len() - i,
        {
            let name = self.entries[i].0.clone();
            entries.push((name, self.entries[i].1));
            assert(entries@ =~= self.entries@.subrange(0, i + 1));
            i += 1;
        }
        assert(entries@ =~= self.entries@);
        Environment { entries }
    }
}

} // verus!
