use vstd::prelude::*;
use crate::test_registry::{run_test, TestOutcome, TestRegistry};

verus! {

/// The `test <name>` command: runs the named test from `tests`.
pub fn execute<T: Copy>(tests: &TestRegistry<T>, args: &str) -> (r: TestOutcome<T>)
    requires
        tests.wf(),
    ensures
        tests.view().contains_key(args@) ==> (r matches TestOutcome::Run(t, m) && t
            == tests.view()[args@] && m@ == "Test "@ + args@ + " [ok]"@),
        !tests.view().contains_key(args@) ==> (r matches TestOutcome::NotFound(m) && m@ == "Test "@
            + args@ + " not found"@),
{
    run_test(tests, args)
}

} // verus!
