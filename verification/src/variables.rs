use vstd::prelude::*;

use crate::model::{assoc, lemma_assoc_skip, pair_seq_view, Value, ValueV};

verus! {

/// Named storage for script variables.  The interpreter reads it for
/// `PushVariable` and writes it for `StoreVariable`; any mapping-like
/// backing satisfies the contract.
pub trait VariableStore {
    /// The value currently bound to a name, if any.
    spec fn lookup(&self, name: Seq<char>) -> Option<ValueV>;

    /// Get the current value of the variable named by `name`.
    fn get(&self, name: &str) -> (r: Option<&Value>)
        ensures
            match r {
                Some(v) => self.lookup(name@) == Some(v@),
                None => self.lookup(name@) is None,
            },
    ;

    /// Set the current value of the variable named by `name` and return
    /// the old value, if any.
    fn set(&mut self, name: &str, value: Value) -> (r: Option<Value>)
        ensures
            forall|k: Seq<char>|
                #[trigger] final(self).lookup(k) == if k == name@ {
                    Some(value@)
                } else {
                    old(self).lookup(k)
                },
            match r {
                Some(v) => old(self).lookup(name@) == Some(v@),
                None => old(self).lookup(name@) is None,
            },
    ;
}

/// A variable store backed by an association list; the newest entry for a
/// name shadows older ones, so setting a variable prepends.
pub struct MapVariableStore {
    entries: Vec<(String, Value)>,
}

impl MapVariableStore {
    pub closed spec fn entries_view(&self) -> Seq<(Seq<char>, ValueV)> {
        pair_seq_view(self.entries@)
    }

    /// An empty store.
    pub fn new() -> (r: Self)
        ensures
            forall|k: Seq<char>| #[trigger] r.lookup(k) is None,
    {
        MapVariableStore { entries: Vec::new() }
    }
}

impl VariableStore for MapVariableStore {
    closed spec fn lookup(&self, name: Seq<char>) -> Option<ValueV> {
        assoc(self.entries_view(), name)
    }

    fn get(&self, name: &str) -> (r: Option<&Value>) {
        let key: String = name.to_owned();
        let n = self.entries.len();
        let mut i: usize = 0;
        while i < n
            invariant
                n == self.entries.len(),
                i <= n,
                key@ == name@,
                forall|j: int| 0 <= j < i ==> (#[trigger] self.entries_view()[j]).0 != name@,
            decreases n - i,
        {
            if self.entries[i].0 == key {
                proof {
                    lemma_assoc_skip(self.entries_view(), name@, i as int);
                    assert(self.entries_view().skip(i as int)[0] == self.entries_view()[i as int]);
                }
                return Some(&self.entries[i].1);
            }
            i += 1;
        }
        proof {
            lemma_assoc_skip(self.entries_view(), name@, n as int);
            assert(self.entries_view().skip(n as int) =~= Seq::<(Seq<char>, ValueV)>::empty());
        }
        None
    }

    fn set(&mut self, name: &str, value: Value) -> (r: Option<Value>) {
        let previous = match self.get(name) {
            Some(v) => Some(v.clone()),
            None => None,
        };
        let key: String = name.to_owned();
        self.entries.insert(0, (key, value));
        proof {
            assert(self.entries_view() =~= seq![(name@, value@)] + old(self).entries_view());
            assert(self.entries_view().drop_first() =~= old(self).entries_view());
        }
        previous
    }
}

} // verus!
