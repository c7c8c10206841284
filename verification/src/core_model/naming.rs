//! The name that a Space gets when nobody has chosen one.

use crate::sequences::{first_index, lemma_first_index_none, lemma_first_index_some};
use vstd::prelude::*;
use vstd::string::*;

verus! {

/// What is known of a directory: whether it holds a `.git` entry, and the last
/// component of its path where that is UTF-8.
pub struct DirectoryFacts {
    pub holds_repository: bool,
    pub file_name: Option<String>,
}

pub open spec fn holds_repository() -> spec_fn(DirectoryFacts) -> bool {
    |directory: DirectoryFacts| directory.holds_repository
}

/// The directory that a Space is named after: the nearest that holds a
/// repository, or else the first.
pub open spec fn naming_index(ancestors: Seq<DirectoryFacts>) -> int {
    match first_index(ancestors, holds_repository()) {
        Some(index) => index,
        None => 0,
    }
}

pub open spec fn spec_default_space_name(ancestors: Seq<DirectoryFacts>) -> Seq<char> {
    let index = naming_index(ancestors);
    if index < ancestors.len() && ancestors[index].file_name is Some
        && ancestors[index].file_name->0@.len() > 0 {
        ancestors[index].file_name->0@
    } else {
        "Terminal"@
    }
}

/// The name for a Space in the first of `ancestors`, which go on with its
/// parent, its parent's parent and so on.
pub fn default_space_name(ancestors: &Vec<DirectoryFacts>) -> (name: String)
    ensures
        name@ == spec_default_space_name(ancestors@),
{
    let mut index: usize = 0;
    while index < ancestors.len() && !ancestors[index].holds_repository
        invariant
            index <= ancestors@.len(),
            forall|i: int| 0 <= i < index ==> !holds_repository()(#[trigger] ancestors@[i]),
        decreases ancestors@.len() - index,
    {
        index += 1;
    }
    if index == ancestors.len() {
        proof {
            lemma_first_index_none(ancestors@, holds_repository());
        }
        index = 0;
    } else {
        proof {
            lemma_first_index_some(ancestors@, holds_repository(), index as int);
        }
    }
    if index < ancestors.len() {
        if let Some(name) = &ancestors[index].file_name {
            if name.as_str().unicode_len() > 0 {
                return name.clone();
            }
        }
    }
    "Terminal".to_owned()
}

/// A Space is named after the nearest directory above it that holds a repository,
/// and after its own where none does; where that has no name, it is a terminal.
pub proof fn law_spaces_are_named_after_their_repository(
    ancestors: Seq<DirectoryFacts>,
    index: int,
)
    requires
        0 <= index < ancestors.len(),
        forall|i: int| 0 <= i < index ==> !(#[trigger] ancestors[i]).holds_repository,
        ancestors[index].holds_repository || (index == 0 && forall|i: int|
            0 <= i < ancestors.len() ==> !(#[trigger] ancestors[i]).holds_repository),
    ensures
        spec_default_space_name(ancestors) == match ancestors[index].file_name {
            Some(name) => if name@ == Seq::<char>::empty() {
                "Terminal"@
            } else {
                name@
            },
            None => "Terminal"@,
        },
{
    if ancestors[index].holds_repository {
        lemma_first_index_some(ancestors, holds_repository(), index);
    } else {
        lemma_first_index_none(ancestors, holds_repository());
    }
    if let Some(name) = ancestors[index].file_name {
        if name@.len() == 0 {
            assert(name@ =~= Seq::empty());
        }
    }
}

} // verus!
