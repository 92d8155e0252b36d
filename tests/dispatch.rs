use std::cell::RefCell;

use kernel::command_registry::{
    register_command, register_command_with_args, run_command, split_command, CommandOutcome,
    CommandRegistry,
};
use kernel::commands::handle_command;
use kernel::commands::test::execute;
use kernel::test_registry::{register_test, run_test, TestOutcome, TestRegistry};

fn noop_args(_: &str) {}

fn noop() {}

fn trivial_assertion() {
    assert_eq!(1, 1);
}

type Registry = CommandRegistry<fn(&str), fn()>;

#[test]
fn echo_runs_once_with_its_arguments() {
    let calls = RefCell::new(Vec::<String>::new());
    let echo = |args: &str| calls.borrow_mut().push(args.to_string());
    let mut registry: CommandRegistry<_, fn()> = CommandRegistry::new();
    register_command_with_args(&mut registry, "echo", echo);
    match run_command(&registry, "echo hello world") {
        CommandOutcome::Run(f, args) => {
            assert_eq!(args, "hello world");
            f(&args);
        }
        other => panic!("unexpected outcome {:?}", other.message()),
    }
    assert_eq!(*calls.borrow(), vec!["hello world".to_string()]);
}

#[test]
fn niladic_command_rejects_arguments() {
    let calls = RefCell::new(0u32);
    let bsod = || *calls.borrow_mut() += 1;
    let mut registry: CommandRegistry<fn(&str), _> = CommandRegistry::new();
    register_command(&mut registry, "bsod", bsod);
    let outcome = run_command(&registry, "bsod now");
    assert!(matches!(&outcome, CommandOutcome::ArgumentsNotAccepted(n) if n == "bsod"));
    assert_eq!(outcome.message(), Some("bsod does not accept arguments".to_string()));
    assert_eq!(*calls.borrow(), 0);
    match run_command(&registry, "bsod") {
        CommandOutcome::RunNoArgs(f) => f(),
        other => panic!("unexpected outcome {:?}", other.message()),
    }
    assert_eq!(*calls.borrow(), 1);
}

#[test]
fn unknown_command_is_reported() {
    let mut registry: Registry = CommandRegistry::new();
    register_command_with_args(&mut registry, "echo", noop_args);
    let outcome = run_command(&registry, "zzz");
    assert!(matches!(&outcome, CommandOutcome::NotFound(n) if n == "zzz"));
    assert_eq!(outcome.message(), Some("zzz not found".to_string()));
}

#[test]
fn command_with_arguments_requires_them() {
    let mut registry: Registry = CommandRegistry::new();
    register_command_with_args(&mut registry, "echo", noop_args);
    let outcome = run_command(&registry, "  echo \n");
    assert!(matches!(&outcome, CommandOutcome::ArgumentsRequired(n) if n == "echo"));
    assert_eq!(outcome.message(), Some("echo requires arguments".to_string()));
}

#[test]
fn later_registration_replaces_earlier() {
    let mut registry: Registry = CommandRegistry::new();
    register_command(&mut registry, "x", noop);
    register_command_with_args(&mut registry, "x", noop_args);
    assert!(matches!(run_command(&registry, "x"), CommandOutcome::ArgumentsRequired(_)));
    assert!(matches!(run_command(&registry, "x 1"), CommandOutcome::Run(_, ref a) if a == "1"));
}

#[test]
fn empty_line_names_no_command() {
    let registry: Registry = CommandRegistry::new();
    let outcome = run_command(&registry, "   ");
    assert!(matches!(&outcome, CommandOutcome::NotFound(n) if n.is_empty()));
    assert_eq!(outcome.message(), Some(" not found".to_string()));
}

#[test]
fn split_trims_and_cuts_at_the_first_space() {
    assert_eq!(split_command("  echo   hello world \t"), ("echo".to_string(), Some("  hello world".to_string())));
    assert_eq!(split_command("\techo\u{3000}"), ("echo".to_string(), None));
    assert_eq!(split_command("a\tb c"), ("a\tb".to_string(), Some("c".to_string())));
    assert_eq!(split_command(""), (String::new(), None));
    assert_eq!(split_command("ping "), ("ping".to_string(), None));
}

#[test]
fn handle_command_reads_utf8_bytes() {
    let mut registry: Registry = CommandRegistry::new();
    register_command_with_args(&mut registry, "echo", noop_args);
    assert!(handle_command(&registry, &[0xff, 0x20]).is_none());
    match handle_command(&registry, b"echo hi") {
        Some(CommandOutcome::Run(_, args)) => assert_eq!(args, "hi"),
        _ => panic!("expected the echo command to run"),
    }
    assert!(matches!(handle_command(&registry, b"nope"), Some(CommandOutcome::NotFound(_))));
}

#[test]
fn test_command_runs_a_registered_test() {
    let mut tests: TestRegistry<fn()> = TestRegistry::new();
    register_test(&mut tests, "equal_test", trivial_assertion);
    let mut registry: Registry = CommandRegistry::new();
    register_command_with_args(&mut registry, "test", noop_args);
    let args = match run_command(&registry, "test equal_test") {
        CommandOutcome::Run(_, args) => args,
        other => panic!("unexpected outcome {:?}", other.message()),
    };
    match execute(&tests, &args) {
        TestOutcome::Run(test, report) => {
            test();
            assert_eq!(report, "Test equal_test [ok]");
        }
        TestOutcome::NotFound(report) => panic!("{}", report),
    }
}

#[test]
fn test_command_reports_a_missing_test() {
    let tests: TestRegistry<fn()> = TestRegistry::new();
    match execute(&tests, "missing") {
        TestOutcome::NotFound(report) => assert_eq!(report, "Test missing not found"),
        TestOutcome::Run(_, _) => panic!("no test was registered"),
    }
}

#[test]
fn run_test_uses_the_latest_registration() {
    let mut tests: TestRegistry<u32> = TestRegistry::new();
    register_test(&mut tests, "t", 1);
    register_test(&mut tests, "t", 2);
    register_test(&mut tests, "u", 3);
    assert!(matches!(run_test(&tests, "t"), TestOutcome::Run(2, _)));
    assert!(matches!(run_test(&tests, "u"), TestOutcome::Run(3, _)));
}
