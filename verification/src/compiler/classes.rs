//! The loaded classes, each kept under the name it was loaded by.
use crate::classfile::class_file::{ClassFile, SpecClassFile};
use crate::lookup::{first_index, lemma_first_index, lemma_first_index_at};
use crate::text::str_eq;
use vstd::prelude::*;

verus! {

/// Why no class could be found for a name.
#[derive(Clone, Copy, Debug, PartialEq, Eq, Structural)]
pub enum ClassLookupError {
    /// No class of that name was loaded.
    ClassNotFound,
    /// The name is that of an array class, which has no class file.
    ArrayClass,
}

/// The mathematical value of a list of loaded classes.
pub open spec fn loaded_classes(classes: Seq<(String, ClassFile)>) -> Seq<(Seq<char>, SpecClassFile)> {
    classes.map_values(|e: (String, ClassFile)| (e.0@, e.1@))
}

/// A name starts with `[` when it names an array class.
pub open spec fn names_array(name: Seq<char>) -> bool {
    name.len() > 0 && name[0] == '['
}

/// The names under which the classes were loaded.
pub open spec fn loaded_names(cs: Seq<(Seq<char>, SpecClassFile)>) -> Seq<Seq<char>> {
    cs.map_values(|e: (Seq<char>, SpecClassFile)| e.0)
}

/// The position of the first class loaded as `name`, if there is one.
pub fn find_class(classes: &Vec<(String, ClassFile)>, name: &str) -> (r: Option<usize>)
    ensures
        r is None <==> first_index(loaded_names(loaded_classes(classes@)), name@) < 0,
        r matches Some(i) ==> i == first_index(loaded_names(loaded_classes(classes@)), name@),
{
    let ghost ns = loaded_names(loaded_classes(classes@));
    proof {
        lemma_first_index(ns, name@);
    }
    let mut i: usize = 0;
    while i < classes.len()
        invariant
            i <= classes@.len(),
            ns == loaded_names(loaded_classes(classes@)),
            ns.len() == classes@.len(),
            forall|j: int| 0 <= j < i ==> ns[j] != name@,
        decreases classes@.len() - i,
    {
        assert(ns[i as int] == classes@[i as int].0@);
        if str_eq(classes[i].0.as_str(), name) {
            proof {
                lemma_first_index_at(ns, name@, i as int);
            }
            return Some(i);
        }
        i = i + 1;
    }
    None
}

} // verus!
