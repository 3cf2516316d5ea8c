//! Project-base discovery: given the chain of ancestor directories of the
//! starting directory and, for each, whether it holds the configuration
//! file, pick the first one that does.
use vstd::prelude::*;
use crate::DeployError;

verus! {

/// Least index `>= i` at which `flags` holds `true`, or `flags.len()` if none.
pub open spec fn first_true_from(flags: Seq<bool>, i: int) -> int
    decreases flags.len() - i,
{
    if i < 0 || i >= flags.len() {
        flags.len() as int
    } else if flags[i] {
        i
    } else {
        first_true_from(flags, i + 1)
    }
}

proof fn lemma_first_true_step(flags: Seq<bool>, i: int)
    requires
        0 <= i <= flags.len(),
        forall|j: int| 0 <= j < i ==> !flags[j],
    ensures
        first_true_from(flags, 0) == first_true_from(flags, i),
    decreases i,
{
    if i > 0 {
        lemma_first_true_step(flags, i - 1);
        lemma_first_true_step_once(flags, i - 1);
    }
}

proof fn lemma_first_true_step_once(flags: Seq<bool>, i: int)
    requires
        0 <= i < flags.len(),
        !flags[i],
    ensures
        first_true_from(flags, i) == first_true_from(flags, i + 1),
{
}

/// Returns the first ancestor that holds the configuration file, or
/// `ConfigNotFound` when none does. `ancestors[i]` holds the configuration
/// file iff `has_config[i]`.
pub fn locate_project_base(ancestors: &Vec<String>, has_config: &Vec<bool>) -> (r: Result<
    String,
    DeployError,
>)
    requires
        ancestors@.len() == has_config@.len(),
    ensures
        (r is Ok) <==> exists|i: int| 0 <= i < has_config@.len() && has_config@[i],
        r matches Ok(base) ==> {
            let first = first_true_from(has_config@, 0);
            &&& 0 <= first < ancestors@.len()
            &&& base@ == ancestors@[first]@
        },
        r matches Err(e) ==> e matches DeployError::ConfigNotFound,
{
    let n = ancestors.len();
    let mut i: usize = 0;
    while i < n
        invariant
            ancestors@.len() == has_config@.len(),
            n == ancestors@.len(),
            0 <= i <= n,
            forall|j: int| 0 <= j < i ==> !has_config@[j],
        decreases n - i,
    {
        if has_config[i] {
            proof {
                lemma_first_true_step(has_config@, i as int);
            }
            return Ok(ancestors[i].clone());
        }
        i = i + 1;
    }
    Err(DeployError::ConfigNotFound)
}

} // verus!
