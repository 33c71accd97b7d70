use vstd::prelude::*;

use crate::model::{
    assoc, assoc_find, duplicated_key, has_duplicate_key, pair_seq_view, Node, NodeV, Program,
    ProgramV, Value, ValueV,
};
use crate::runner::StoryCheckpoint;

verus! {

/// The views of a list of programs.
pub open spec fn programs_view(s: Seq<Program>) -> Seq<ProgramV> {
    Seq::new(s.len(), |i: int| s[i]@)
}

/// A loaded story: the merged program, queried by the interpreter for
/// nodes and initial variable values.
#[derive(Debug)]
pub struct Story {
    program: Program,
}

impl View for Story {
    type V = ProgramV;

    closed spec fn view(&self) -> ProgramV {
        self.program@
    }
}

impl Story {
    /// The initial value a program declares for this variable, if any.
    pub fn initial_value(&self, name: &str) -> (r: Option<&Value>)
        ensures
            match r {
                Some(v) => assoc(self@.initial_values, name@) == Some(v@),
                None => assoc(self@.initial_values, name@) is None,
            },
    {
        let key: String = name.to_owned();
        assoc_find(&self.program.initial_values, &key)
    }

    /// The node of this name, if the program has one.
    pub fn node(&self, name: &str) -> (r: Option<&Node>)
        ensures
            match r {
                Some(n) => assoc(self@.nodes, name@) == Some(n@),
                None => assoc(self@.nodes, name@) is None,
            },
    {
        let key: String = name.to_owned();
        assoc_find(&self.program.nodes, &key)
    }

    /// A fresh checkpoint at the start of the named node, with an empty
    /// stack; nothing when the node does not exist.
    pub fn checkpoint_at(&self, name: &str) -> (r: Option<StoryCheckpoint<'_>>)
        ensures
            match r {
                Some(cp) => {
                    &&& assoc(self@.nodes, name@) == Some(cp@.node)
                    &&& cp@.offset == 0
                    &&& cp@.stack == Seq::<ValueV>::empty()
                },
                None => assoc(self@.nodes, name@) is None,
            },
    {
        match self.node(name) {
            Some(node) => Some(StoryCheckpoint::new(node)),
            None => None,
        }
    }
}

/// What made a set of programs impossible to merge: two nodes, or two
/// initial values, under one name.
#[derive(Clone, Copy, PartialEq, Eq, Structural, Debug)]
pub enum AmbiguityReason {
    InitialValueName,
    NodeName,
}

/// Failure to combine the added programs into one story.
#[derive(Debug, PartialEq)]
pub enum BuilderError {
    /// A node name or initial-value name occurs in more than one place
    /// across the added programs; carries the offending key.
    Ambiguity(AmbiguityReason, String),
}

/// Collects compiled programs and merges them into a [`Story`], rejecting
/// duplicate node names and duplicate initial-value names.
pub struct Builder {
    programs: Vec<Program>,
}

/// The node entries of a sequence of programs, concatenated in order.
pub open spec fn all_nodes(programs: Seq<ProgramV>) -> Seq<(Seq<char>, NodeV)>
    decreases programs.len(),
{
    if programs.len() == 0 {
        Seq::empty()
    } else {
        programs.first().nodes + all_nodes(programs.drop_first())
    }
}

/// The initial-value entries of a sequence of programs, concatenated in
/// order.
pub open spec fn all_initial_values(programs: Seq<ProgramV>) -> Seq<(Seq<char>, ValueV)>
    decreases programs.len(),
{
    if programs.len() == 0 {
        Seq::empty()
    } else {
        programs.first().initial_values + all_initial_values(programs.drop_first())
    }
}

/// Scan a list of named entries for two that share a key; the key of the
/// first collision is returned.
fn find_duplicate_key<T: View>(entries: &Vec<(String, T)>) -> (r: Option<String>)
    ensures
        match r {
            Some(key) => has_duplicate_key(pair_seq_view(entries@)) && duplicated_key(
                pair_seq_view(entries@),
                key@,
            ),
            None => !has_duplicate_key(pair_seq_view(entries@)),
        },
{
    let n = entries.len();
    let mut j: usize = 1;
    while j < n
        invariant
            n == entries.len(),
            1 <= j,
            forall|a: int, b: int|
                0 <= a < b < j ==> (#[trigger] pair_seq_view(entries@)[a]).0 != (
                #[trigger] pair_seq_view(entries@)[b]).0,
        decreases n - j,
    {
        let mut i: usize = 0;
        while i < j
            invariant
                n == entries.len(),
                i <= j < n,
                forall|a: int|
                    0 <= a < i ==> (#[trigger] pair_seq_view(entries@)[a]).0 != pair_seq_view(
                        entries@,
                    )[j as int].0,
            decreases j - i,
        {
            if entries[i].0 == entries[j].0 {
                let key = entries[j].0.clone();
                proof {
                    let s = pair_seq_view(entries@);
                    assert(s[i as int].0 == key@ && s[j as int].0 == key@);
                    assert(has_duplicate_key(s));
                    assert(duplicated_key(s, key@));
                }
                return Some(key);
            }
            i += 1;
        }
        j += 1;
    }
    None
}

impl Builder {
    /// A builder with no programs.
    pub fn new() -> (r: Self)
        ensures
            r@ =~= Seq::<ProgramV>::empty(),
    {
        Builder { programs: Vec::new() }
    }

    /// Add an in-memory program to the story under construction.
    pub fn add_program(self, program: Program) -> (r: Self)
        ensures
            r@ =~= self@.push(program@),
    {
        let mut this = self;
        this.programs.push(program);
        this
    }

    /// Create a [`Story`] from the programs added to this builder.
    ///
    /// Fails with `Ambiguity` when two programs declare a node or an
    /// initial value under one name; succeeds exactly when all names are
    /// distinct, and the story then holds every node and initial value of
    /// every added program.
    pub fn build(self) -> (r: Result<Story, BuilderError>)
        ensures
            match r {
                Ok(story) => {
                    &&& story@.nodes == all_nodes(self@)
                    &&& story@.initial_values == all_initial_values(self@)
                    &&& !has_duplicate_key(all_nodes(self@))
                    &&& !has_duplicate_key(all_initial_values(self@))
                },
                Err(e) => {
                    &&& e matches BuilderError::Ambiguity(reason, key)
                    &&& reason == AmbiguityReason::NodeName ==> duplicated_key(
                        all_nodes(self@),
                        key@,
                    )
                    &&& reason == AmbiguityReason::InitialValueName ==> duplicated_key(
                        all_initial_values(self@),
                        key@,
                    )
                },
            },
    {
        let ghost all = self@;
        let mut nodes: Vec<(String, Node)> = Vec::new();
        let mut initial_values: Vec<(String, Value)> = Vec::new();
        let mut programs = self.programs;

        // Move every entry over, front to back, so the flattened lists are
        // the concatenation of all programs in order.
        while programs.len() > 0
            invariant
                all_nodes(all) =~= pair_seq_view(nodes@) + all_nodes(
                    programs_view(programs@),
                ),
                all_initial_values(all) =~= pair_seq_view(initial_values@) + all_initial_values(
                    programs_view(programs@),
                ),
            decreases programs@.len(),
        {
            let ghost rem_pre = programs_view(programs@);
            let mut p = programs.remove(0);
            proof {
                assert(programs_view(programs@) =~= rem_pre.drop_first());
                assert(rem_pre.first() == p@);
            }
            let ghost p_nodes = p@.nodes;
            let ghost p_inits = p@.initial_values;
            let mut moved: usize = 0;
            let total = p.nodes.len();
            while moved < total
                invariant
                    moved <= total,
                    total - moved == p.nodes@.len(),
                    pair_seq_view(p.nodes@) =~= p_nodes.skip(moved as int),
                    p_nodes.len() == total,
                    all_nodes(all) =~= pair_seq_view(nodes@) + p_nodes.skip(moved as int)
                        + all_nodes(programs_view(programs@)),
                    all_initial_values(all) =~= pair_seq_view(initial_values@)
                        + p_inits + all_initial_values(programs_view(programs@)),
                    p@.initial_values == p_inits,
                decreases total - moved,
            {
                let ghost nodes_pre = nodes@;
                let ghost pn_pre = p.nodes@;
                let entry = p.nodes.remove(0);
                proof {
                    assert(pair_seq_view(pn_pre)[0] == p_nodes.skip(moved as int)[0]);
                    assert((entry.0@, entry.1@) == p_nodes.skip(moved as int).first());
                    assert(p.nodes@ =~= pn_pre.drop_first());
                    assert forall|x: int| 0 <= x < p.nodes@.len() implies pair_seq_view(
                        p.nodes@,
                    )[x] == p_nodes.skip(moved as int + 1)[x] by {
                        assert(p.nodes@[x] == pn_pre[x + 1]);
                        assert(pair_seq_view(pn_pre)[x + 1] == p_nodes.skip(moved as int)[x + 1]);
                    }
                    assert(pair_seq_view(p.nodes@) =~= p_nodes.skip(moved as int + 1));
                }
                nodes.push(entry);
                proof {
                    assert(pair_seq_view(nodes@) =~= pair_seq_view(nodes_pre).push(
                        p_nodes.skip(moved as int).first(),
                    ));
                    assert(pair_seq_view(nodes@) + p_nodes.skip(moved as int + 1)
                        =~= pair_seq_view(nodes_pre) + p_nodes.skip(moved as int));
                }
                moved += 1;
            }
            let mut moved_iv: usize = 0;
            let total_iv = p.initial_values.len();
            while moved_iv < total_iv
                invariant
                    moved_iv <= total_iv,
                    total_iv - moved_iv == p.initial_values@.len(),
                    pair_seq_view(p.initial_values@) =~= p_inits.skip(moved_iv as int),
                    p_inits.len() == total_iv,
                    all_nodes(all) =~= pair_seq_view(nodes@) + all_nodes(
                        programs_view(programs@),
                    ),
                    all_initial_values(all) =~= pair_seq_view(initial_values@)
                        + p_inits.skip(moved_iv as int) + all_initial_values(
                        programs_view(programs@),
                    ),
                decreases total_iv - moved_iv,
            {
                let ghost inits_pre = initial_values@;
                let ghost pv_pre = p.initial_values@;
                let entry = p.initial_values.remove(0);
                proof {
                    assert(pair_seq_view(pv_pre)[0] == p_inits.skip(moved_iv as int)[0]);
                    assert((entry.0@, entry.1@) == p_inits.skip(moved_iv as int).first());
                    assert(p.initial_values@ =~= pv_pre.drop_first());
                    assert forall|x: int| 0 <= x < p.initial_values@.len() implies pair_seq_view(
                        p.initial_values@,
                    )[x] == p_inits.skip(moved_iv as int + 1)[x] by {
                        assert(p.initial_values@[x] == pv_pre[x + 1]);
                        assert(pair_seq_view(pv_pre)[x + 1] == p_inits.skip(moved_iv as int)[
                            x + 1
                        ]);
                    }
                    assert(pair_seq_view(p.initial_values@) =~= p_inits.skip(
                        moved_iv as int + 1,
                    ));
                }
                initial_values.push(entry);
                proof {
                    assert(pair_seq_view(initial_values@) =~= pair_seq_view(inits_pre).push(
                        p_inits.skip(moved_iv as int).first(),
                    ));
                    assert(pair_seq_view(initial_values@) + p_inits.skip(moved_iv as int + 1)
                        =~= pair_seq_view(inits_pre) + p_inits.skip(moved_iv as int));
                }
                moved_iv += 1;
            }
        }
        proof {
            assert(programs_view(programs@) =~= Seq::<ProgramV>::empty());
            assert(all_nodes(all) =~= pair_seq_view(nodes@));
            assert(all_initial_values(all) =~= pair_seq_view(initial_values@));
        }
        if let Some(key) = find_duplicate_key(&nodes) {
            return Err(BuilderError::Ambiguity(AmbiguityReason::NodeName, key));
        }
        if let Some(key) = find_duplicate_key(&initial_values) {
            return Err(BuilderError::Ambiguity(AmbiguityReason::InitialValueName, key));
        }
        let story = Story { program: Program { nodes, initial_values } };
        proof {
            assert(story@.nodes =~= all_nodes(all));
            assert(story@.initial_values =~= all_initial_values(all));
        }
        Ok(story)
    }
}

impl View for Builder {
    type V = Seq<ProgramV>;

    closed spec fn view(&self) -> Seq<ProgramV> {
        programs_view(self.programs@)
    }
}

} // verus!
