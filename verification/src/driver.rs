//! The fixpoint driver: passes over a program until one changes nothing.

use crate::inliner::Inliner;
use crate::laws::law_inert_pass_keeps_program;
use crate::pass::pass;
use crate::syntax::{ItemView, Program};
use vstd::prelude::*;

verus! {

/// The outcome of at most `passes` passes over `items`: each pass works on
/// what the one before it left, and the first pass that changes nothing ends
/// the run. The program is the one that the last pass left; the flag says
/// whether the run ended on a pass that changed nothing.
pub open spec fn run(items: Seq<ItemView>, passes: nat) -> (Seq<ItemView>, bool)
    decreases passes,
{
    if passes == 0 {
        (items, false)
    } else {
        let (next, changed) = pass(items);
        if changed {
            run(next, (passes - 1) as nat)
        } else {
            (next, true)
        }
    }
}

/// Runs passes over `program`, each with a fresh inliner, until one changes
/// nothing or `max_passes` of them have run. Returns the program that the
/// last pass left, and whether the run ended on a pass that changed nothing.
/// On a program that a settled run returns, the next pass changes nothing.
pub fn process_within(program: Program, max_passes: u64) -> (out: (Program, bool))
    ensures
        (out.0@, out.1) == run(program@, max_passes as nat),
        out.1 ==> pass(out.0@) == (out.0@, false),
{
    let mut current = program;
    let mut left: u64 = max_passes;
    while left > 0
        invariant
            run(program@, max_passes as nat) == run(current@, left as nat),
        decreases left,
    {
        let ghost found = current@;
        let mut inliner = Inliner::new();
        let next = inliner.inline(current);
        if !inliner.inlined() {
            proof {
                law_inert_pass_keeps_program(found);
            }
            return (next, true);
        }
        current = next;
        left -= 1;
    }
    (current, false)
}

/// Runs passes over `program` until one changes nothing. The count of passes
/// is held in a `u64`, so a run that has not settled after `u64::MAX` passes
/// is given up, and the flag is then `false`.
pub fn process_recursive(program: Program) -> (out: (Program, bool))
    ensures
        (out.0@, out.1) == run(program@, u64::MAX as nat),
        out.1 ==> pass(out.0@) == (out.0@, false),
{
    process_within(program, u64::MAX)
}

} // verus!
