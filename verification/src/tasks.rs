//! The task runner's registry: choosing a task by name, and listing the names.

use crate::text::texts;
use vstd::prelude::*;

verus! {

/// What the task runner does for a command line.
#[derive(Debug, Clone, Copy, PartialEq, Eq)]
pub enum TaskChoice {
    /// Run the task at this index of the registry.
    Run(usize),
    /// Print the names of the registered tasks.
    Help,
}

/// Whether `index` is the first place at which `names` holds `wanted`.
pub open spec fn is_first_match(names: Seq<Seq<char>>, wanted: Seq<char>, index: int) -> bool {
    &&& 0 <= index < names.len()
    &&& names[index] == wanted
    &&& forall|j: int| 0 <= j < index ==> names[j] != wanted
}

/// One line of the help for each name: two spaces, the name, a line feed.
pub open spec fn task_lines(names: Seq<Seq<char>>) -> Seq<char>
    decreases names.len(),
{
    if names.len() == 0 {
        Seq::empty()
    } else {
        task_lines(names.drop_last()) + "  "@ + names.last() + "\n"@
    }
}

/// The help for a registry with the given names.
pub open spec fn help(names: Seq<Seq<char>>) -> Seq<char> {
    "Available tasks:\n"@ + task_lines(names)
}

/// Chooses what to do: the first registered task named like the one
/// requested, or the help where none was requested or none is named so.
pub fn select_task(names: &Vec<String>, requested: Option<&str>) -> (choice: TaskChoice)
    ensures
        match choice {
            TaskChoice::Run(index) => requested matches Some(wanted) && is_first_match(
                texts(names@),
                wanted@,
                index as int,
            ),
            TaskChoice::Help => requested matches Some(wanted) ==> !texts(names@).contains(
                wanted@,
            ),
        },
{
    match requested {
        None => TaskChoice::Help,
        Some(wanted) => {
            let name = wanted.to_owned();
            let mut i: usize = 0;
            while i < names.len()
                invariant
                    i <= names.len(),
                    requested == Some(wanted),
                    name@ == wanted@,
                    forall|j: int| 0 <= j < i ==> texts(names@)[j] != wanted@,
                decreases names.len() - i,
            {
                if names[i] == name {
                    return TaskChoice::Run(i);
                }
                i += 1;
            }
            TaskChoice::Help
        },
    }
}

/// The text of the help: a heading, then the registered names, one a line.
pub fn help_text(names: &Vec<String>) -> (text: String)
    ensures
        text@ == help(texts(names@)),
{
    let mut text = "Available tasks:\n".to_owned();
    let mut i: usize = 0;
    assert(texts(names@).take(0) == Seq::<Seq<char>>::empty());
    while i < names.len()
        invariant
            i <= names.len(),
            text@ == help(texts(names@).take(i as int)),
        decreases names.len() - i,
    {
        let ghost before = texts(names@).take(i as int);
        let ghost next = texts(names@).take(i + 1);
        assert(next.drop_last() == before);
        assert(next.last() == names@[i as int]@);
        text.append("  ");
        text.append(names[i].as_str());
        text.append("\n");
        i += 1;
    }
    assert(texts(names@).take(names.len() as int) == texts(names@));
    text
}

} // verus!
