//! The staging area: the names of the outputs that one invocation has
//! stored so far. It takes the outputs of an object only as a whole, and
//! only where none of their names is taken.

use vstd::prelude::*;
use crate::error::{PipelineError, StorageError};
use crate::mp3_encode_i16::{output_names, EncodedOutput};
use crate::naming::{distinct, is_listed, lemma_distinct_push, views_of};

verus! {

/// The names staged so far, in the order they were accepted. No name occurs
/// twice.
pub struct StagingArea {
    names: Vec<String>,
}

impl View for StagingArea {
    type V = Seq<Seq<char>>;

    closed spec fn view(&self) -> Seq<Seq<char>> {
        views_of(self.names@)
    }
}

impl StagingArea {
    #[verifier::type_invariant]
    spec fn inv(self) -> bool {
        distinct(views_of(self.names@))
    }

    /// A staging area that holds nothing.
    pub fn new() -> (area: Self)
        ensures
            area@ == Seq::<Seq<char>>::empty(),
    {
        StagingArea { names: Vec::new() }
    }

    /// How many outputs are staged.
    pub fn len(&self) -> (n: usize)
        ensures
            n == self@.len(),
            distinct(self@),
    {
        proof {
            use_type_invariant(self);
        }
        self.names.len()
    }

    /// Whether an output of this name is staged.
    pub fn contains(&self, name: &str) -> (found: bool)
        ensures
            found == self@.contains(name@),
    {
        is_listed(&self.names, name)
    }

    /// Takes in the outputs of one object, in their order. They are refused as
    /// a whole where one of their names is staged already or occurs twice
    /// among them.
    pub fn accept(self, outputs: &Vec<EncodedOutput>) -> (r: Result<Self, PipelineError>)
        ensures
            match r {
                Ok(area) => area@ == self@ + output_names(outputs@) && distinct(area@),
                Err(e) => e == PipelineError::Io(StorageError::NameCollision) && !distinct(
                    self@ + output_names(outputs@),
                ),
            },
    {
        proof {
            use_type_invariant(&self);
        }
        let ghost start = self@;
        let ghost added = output_names(outputs@);
        let mut names = self.names;
        let mut i: usize = 0;
        while i < outputs.len()
            invariant
                i <= outputs.len(),
                start == self@,
                added == output_names(outputs@),
                views_of(names@) == start + added.take(i as int),
                distinct(views_of(names@)),
            decreases outputs.len() - i,
        {
            let ghost held = views_of(names@);
            if is_listed(&names, outputs[i].name.as_str()) {
                proof {
                    let whole = start + added;
                    let k = choose|k: int| 0 <= k < held.len() && held[k] == added[i as int];
                    assert(whole[k] == whole[start.len() + i]);
                }
                return Err(PipelineError::Io(StorageError::NameCollision));
            }
            names.push(outputs[i].name.clone());
            proof {
                lemma_distinct_push(held, added[i as int]);
                assert(added.take(i + 1) =~= added.take(i as int).push(added[i as int]));
                assert(views_of(names@) =~= start + added.take(i + 1));
            }
            i = i + 1;
        }
        Ok(StagingArea { names })
    }
}

} // verus!
