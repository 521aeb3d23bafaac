//! The prompt files that every worker reads: where the bundled ones lie, and
//! which files of a directory are prompts.

use vstd::prelude::*;
use vstd::string::*;
use crate::error::OrchestratorError;
use crate::text::{ends_with, has_suffix};

verus! {

/// The index of the first `true` in `found`, or its length.
pub open spec fn first_found(found: Seq<bool>) -> int
    decreases found.len(),
{
    if found.len() == 0 {
        0
    } else if found[0] {
        0
    } else {
        1 + first_found(found.drop_first())
    }
}

/// `first_found` is the least index that holds `true`.
pub proof fn lemma_first_found(found: Seq<bool>)
    ensures
        0 <= first_found(found) <= found.len(),
        forall|i: int| 0 <= i < first_found(found) ==> !found[i],
        first_found(found) < found.len() ==> found[first_found(found)],
    decreases found.len(),
{
    if found.len() > 0 && !found[0] {
        let rest = found.drop_first();
        lemma_first_found(rest);
        assert forall|i: int| 0 <= i < first_found(found) implies !found[i] by {
            if i > 0 {
                assert(found[i] == rest[i - 1]);
            }
        }
    }
}

/// Picks the directory of the bundled prompts among the places where it may
/// lie, given for each whether a directory is there: the first that is, in
/// the order of the places.
pub fn resolve_prompts_dir(is_dir: &Vec<bool>) -> (r: Result<usize, OrchestratorError>)
    ensures
        match r {
            Ok(i) => i == first_found(is_dir@) && i < is_dir@.len(),
            Err(e) => first_found(is_dir@) == is_dir@.len() && (e
                matches OrchestratorError::OperationRefused { reason } && reason@
                == "Could not find bundled prompts directory"@),
        },
{
    proof {
        lemma_first_found(is_dir@);
    }
    let mut i: usize = 0;
    while i < is_dir.len()
        invariant
            i <= is_dir.len(),
            forall|k: int| 0 <= k < i ==> !is_dir@[k],
            0 <= first_found(is_dir@) <= is_dir@.len(),
            forall|k: int| 0 <= k < first_found(is_dir@) ==> !is_dir@[k],
            first_found(is_dir@) < is_dir@.len() ==> is_dir@[first_found(is_dir@)],
        decreases is_dir.len() - i,
    {
        if is_dir[i] {
            assert(first_found(is_dir@) == i);
            return Ok(i);
        }
        i = i + 1;
    }
    assert(first_found(is_dir@) == is_dir@.len());
    Err(
        OrchestratorError::OperationRefused {
            reason: String::from_str("Could not find bundled prompts directory"),
        },
    )
}

/// A file is a prompt where its name has the extension `md`: it ends in
/// `.md` and has something before that.
pub open spec fn is_prompt_name(file_name: Seq<char>) -> bool {
    file_name.len() > 3 && has_suffix(file_name, ".md"@)
}

/// Whether a file of the bundled directory is copied into the workspace.
pub fn copy_prompts_from(file_name: &str) -> (r: bool)
    ensures
        r == is_prompt_name(file_name@),
{
    file_name.unicode_len() > 3 && ends_with(file_name, ".md")
}

} // verus!
