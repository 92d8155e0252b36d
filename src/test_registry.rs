use vstd::prelude::*;
use vstd::string::*;
use crate::registry::Registry;

verus! {

/// The tests that can be run by name from the console.
pub struct TestRegistry<T> {
    tests: Registry<T>,
}

impl<T> TestRegistry<T> {
    pub closed spec fn view(&self) -> Map<Seq<char>, T> {
        self.tests.view()
    }

    pub closed spec fn wf(&self) -> bool {
        self.tests.wf()
    }

    pub fn new() -> (r: TestRegistry<T>)
        ensures
            r.wf(),
            r.view() == Map::<Seq<char>, T>::empty(),
    {
        TestRegistry { tests: Registry::new() }
    }
}

/// Registers a test under `name`, replacing any test of the same name.
pub fn register_test<T>(registry: &mut TestRegistry<T>, name: &str, test: T)
    requires
        old(registry).wf(),
    ensures
        final(registry).wf(),
        final(registry).view() == old(registry).view().insert(name@, test),
{
    registry.tests.insert(name, test);
}

/// How a request to run a test was resolved.
#[derive(Debug)]
pub enum TestOutcome<T> {
    /// Run this test; once it returns, report the line given here.
    Run(T, String),
    /// No test has this name: report the line given here.
    NotFound(String),
}

/// Looks a test up by name. A found test is handed back with its success
/// report, "Test <name> [ok]", to print once it has returned; otherwise the
/// report is "Test <name> not found".
pub fn run_test<T: Copy>(registry: &TestRegistry<T>, name: &str) -> (r: TestOutcome<T>)
    requires
        registry.wf(),
    ensures
        registry.view().contains_key(name@) ==> (r matches TestOutcome::Run(t, m) && t
            == registry.view()[name@] && m@ == "Test "@ + name@ + " [ok]"@),
        !registry.view().contains_key(name@) ==> (r matches TestOutcome::NotFound(m) && m@
            == "Test "@ + name@ + " not found"@),
{
    let mut report = "Test ".to_owned();
    report.append(name);
    match registry.tests.get(name) {
        Some(test) => {
            report.append(" [ok]");
            TestOutcome::Run(*test, report)
        },
        None => {
            report.append(" not found");
            TestOutcome::NotFound(report)
        },
    }
}

} // verus!
