//! Choosing among the outputs of a model.

use vstd::prelude::*;

verus! {

/// Where `name` first stands in `names`.
pub open spec fn position(names: Seq<String>, name: Seq<char>) -> Option<int>
    decreases names.len(),
{
    if names.len() == 0 {
        None
    } else if names[0]@ == name {
        Some(0)
    } else {
        match position(names.skip(1), name) {
            Some(i) => Some(i + 1),
            None => None,
        }
    }
}

/// The output that holds the predictions, among outputs with these names.
#[derive(Debug, Clone, Copy, PartialEq, Eq, Structural)]
pub enum Choice {
    /// The output with this index, chosen by its name.
    Named(usize),
    /// The first output, as none has a name that is looked for.
    First,
    /// There is no output.
    Nothing,
}

/// The predictions are the output `variable`, else `values`, else `output`, else the first one.
pub open spec fn choice(names: Seq<String>) -> Choice {
    if position(names, "variable"@) is Some {
        Choice::Named(position(names, "variable"@)->0 as usize)
    } else if position(names, "values"@) is Some {
        Choice::Named(position(names, "values"@)->0 as usize)
    } else if position(names, "output"@) is Some {
        Choice::Named(position(names, "output"@)->0 as usize)
    } else if names.len() > 0 {
        Choice::First
    } else {
        Choice::Nothing
    }
}

/// Where `name` first stands in `names`.
fn find(names: &Vec<String>, name: &str) -> (found: Option<usize>)
    ensures
        found is Some <==> position(names@, name@) is Some,
        found matches Some(i) ==> position(names@, name@) == Some(i as int),
{
    let wanted: String = name.to_owned();
    let mut i: usize = 0;
    assert(names@.skip(0) =~= names@);
    while i < names.len()
        invariant
            i <= names@.len(),
            wanted@ == name@,
            match position(names@.skip(i as int), name@) {
                Some(j) => position(names@, name@) == Some(i + j),
                None => position(names@, name@) is None,
            },
        decreases names.len() - i,
    {
        assert(names@.skip(i as int).skip(1) =~= names@.skip(i + 1));
        if names[i] == wanted {
            return Some(i);
        }
        i += 1;
    }
    None
}

/// The output that holds the predictions, among outputs with these names.
pub fn choose_output(names: &Vec<String>) -> (chosen: Choice)
    ensures
        chosen == choice(names@),
{
    if let Some(i) = find(names, "variable") {
        Choice::Named(i)
    } else if let Some(i) = find(names, "values") {
        Choice::Named(i)
    } else if let Some(i) = find(names, "output") {
        Choice::Named(i)
    } else if names.len() > 0 {
        Choice::First
    } else {
        Choice::Nothing
    }
}

/// A position that was found is one, and it has the name that was looked for.
proof fn lemma_position_has_name(names: Seq<String>, name: Seq<char>)
    ensures
        position(names, name) matches Some(i) ==> 0 <= i < names.len() && names[i]@ == name,
    decreases names.len(),
{
    if names.len() > 0 && names[0]@ != name {
        lemma_position_has_name(names.skip(1), name);
    }
}

/// A chosen output is one that the model gave; chosen by name, it has a name that is looked for.
pub proof fn chosen_outputs_exist(names: Seq<String>)
    requires
        names.len() <= usize::MAX,
    ensures
        match choice(names) {
            Choice::Named(i) => i < names.len() && (names[i as int]@ == "variable"@
                || names[i as int]@ == "values"@ || names[i as int]@ == "output"@),
            Choice::First => names.len() > 0,
            Choice::Nothing => names.len() == 0,
        },
{
    lemma_position_has_name(names, "variable"@);
    lemma_position_has_name(names, "values"@);
    lemma_position_has_name(names, "output"@);
}

/// A position is the first one with its name, and there is none exactly if the name is missing.
proof fn lemma_position_is_first(names: Seq<String>, name: Seq<char>)
    ensures
        match position(names, name) {
            Some(i) => 0 <= i < names.len() && names[i]@ == name && forall|j: int|
                0 <= j < i ==> (#[trigger] names[j])@ != name,
            None => forall|j: int| 0 <= j < names.len() ==> (#[trigger] names[j])@ != name,
        },
    decreases names.len(),
{
    if names.len() > 0 && names[0]@ != name {
        let rest = names.skip(1);
        lemma_position_is_first(rest, name);
        assert forall|j: int| 1 <= j < names.len() implies names[j] == rest[j - 1] by {}
        if let Some(i) = position(rest, name) {
            assert forall|j: int| 0 <= j < i + 1 implies (#[trigger] names[j])@ != name by {
                if j > 0 {
                    assert(rest[j - 1]@ != name);
                }
            }
        } else {
            assert forall|j: int| 0 <= j < names.len() implies (#[trigger] names[j])@ != name by {
                if j > 0 {
                    assert(rest[j - 1]@ != name);
                }
            }
        }
    }
}

/// Some output has this name.
pub open spec fn has_output(names: Seq<String>, name: Seq<char>) -> bool {
    exists|j: int| 0 <= j < names.len() && (#[trigger] names[j])@ == name
}

/// Output number `i` is the first one with this name.
pub open spec fn is_first_output(names: Seq<String>, name: Seq<char>, i: int) -> bool {
    &&& 0 <= i < names.len()
    &&& names[i]@ == name
    &&& forall|j: int| 0 <= j < i ==> (#[trigger] names[j])@ != name
}

/// If some output is named `variable`, the chosen one is; else if some is named `values`, the
/// chosen one is; else if some is named `output`, the chosen one is. Of several with that name it
/// is the first. The first output of all is chosen exactly if there is one and none has any of
/// these names, and nothing exactly if there is no output.
pub proof fn outputs_are_chosen_by_name(names: Seq<String>)
    requires
        names.len() <= usize::MAX,
    ensures
        has_output(names, "variable"@) ==> (choice(names) matches Choice::Named(i)
            && is_first_output(names, "variable"@, i as int)),
        !has_output(names, "variable"@) && has_output(names, "values"@) ==> (choice(
            names,
        ) matches Choice::Named(i) && is_first_output(names, "values"@, i as int)),
        !has_output(names, "variable"@) && !has_output(names, "values"@) && has_output(
            names,
            "output"@,
        ) ==> (choice(names) matches Choice::Named(i) && is_first_output(
            names,
            "output"@,
            i as int,
        )),
        choice(names) == Choice::First <==> names.len() > 0 && !has_output(names, "variable"@)
            && !has_output(names, "values"@) && !has_output(names, "output"@),
        choice(names) == Choice::Nothing <==> names.len() == 0,
{
    lemma_position_is_first(names, "variable"@);
    lemma_position_is_first(names, "values"@);
    lemma_position_is_first(names, "output"@);
}

} // verus!
