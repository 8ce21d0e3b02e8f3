//! Looking things up by their names.
use vstd::prelude::*;

verus! {

/// How many of the names stand in front of the first `name`; all of them where there is none.
pub open spec fn first_named(names: Seq<Seq<char>>, name: Seq<char>) -> nat
    decreases names.len(),
{
    if names.len() == 0 || names[0] == name {
        0
    } else {
        1 + first_named(names.skip(1), name)
    }
}

/// The place of the first `name`, and the first place of all where there is none.
pub open spec fn chosen(names: Seq<Seq<char>>, name: Seq<char>) -> int {
    if first_named(names, name) < names.len() {
        first_named(names, name) as int
    } else {
        0
    }
}

/// `first_named` is the first place of the name, or the number of names.
pub proof fn first_named_is_first(names: Seq<Seq<char>>, name: Seq<char>)
    ensures
        first_named(names, name) <= names.len(),
        first_named(names, name) < names.len() ==> names[first_named(names, name) as int] == name,
        forall|j: int| 0 <= j < first_named(names, name) ==> names[j] != name,
    decreases names.len(),
{
    if names.len() > 0 && names[0] != name {
        first_named_is_first(names.skip(1), name);
        assert forall|j: int| 0 <= j < first_named(names, name) implies names[j] != name by {
            if j > 0 {
                assert(names[j] == names.skip(1)[j - 1]);
            }
        }
    }
}

/// A place with the name on it and none before it is where `first_named` points.
pub proof fn first_is_first_named(names: Seq<Seq<char>>, name: Seq<char>, i: int)
    requires
        0 <= i <= names.len(),
        i < names.len() ==> names[i] == name,
        forall|j: int| 0 <= j < i ==> names[j] != name,
    ensures
        first_named(names, name) == i,
{
    first_named_is_first(names, name);
    if first_named(names, name) < i {
        assert(names[first_named(names, name) as int] != name);
    }
}

/// The chosen place is that of the first such name, and the first of all where there is none.
pub proof fn chosen_is_the_first_of_the_name(names: Seq<Seq<char>>, name: Seq<char>, i: int)
    requires
        0 <= i < names.len(),
        forall|j: int| 0 <= j < i ==> names[j] != name,
    ensures
        names[i] == name ==> chosen(names, name) == i,
        i == names.len() - 1 && names[i] != name ==> chosen(names, name) == 0,
{
    first_named_is_first(names, name);
    if names[i] == name {
        first_is_first_named(names, name, i);
    } else if i == names.len() - 1 {
        first_is_first_named(names, name, names.len() as int);
    }
}

} // verus!
