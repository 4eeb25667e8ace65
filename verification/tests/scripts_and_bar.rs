use mandwm::bar::{run_cycle, BarAction, BarCycle};
use mandwm::command::{strip_newlines, CommandRun, MandwmCommand};
use mandwm::dmenu::{create_dmenu_commands, DmenuError};
use mandwm::error::{MandwmError, MandwmErrorLevel};
use mandwm::ffi::gen_libs;

fn script(name: &str) -> MandwmCommand {
    MandwmCommand { name: name.to_string(), path: String::from("/scripts/") }
}

#[test]
fn set_name_renames_only() {
    let mut s = script("a");
    s.set_name("b");
    assert_eq!(s.name, "b");
    assert_eq!(s.path, "/scripts/");
}

#[test]
fn strip_newlines_removes_every_newline() {
    assert_eq!(strip_newlines("12:00\n"), "12:00");
    assert_eq!(strip_newlines("a\nb\n\nc"), "abc");
    assert_eq!(strip_newlines(""), "");
    assert_eq!(strip_newlines("\n\n"), "");
    assert_eq!(strip_newlines("ü\nß"), "üß");
}

#[test]
fn successful_run_gives_its_output() {
    let run = CommandRun::Finished {
        stdout: String::from("Mon 12:00\n"),
        stderr: String::from("ignored"),
        success: true,
        status: String::from("exit status: 0"),
    };
    assert_eq!(script("date.sh").output(run).unwrap(), "Mon 12:00");
}

#[test]
fn failed_run_gives_a_warning() {
    let run = CommandRun::Finished {
        stdout: String::from("out"),
        stderr: String::from("err"),
        success: false,
        status: String::from("exit status: 1"),
    };
    let e = script("bad.sh").output(run).unwrap_err();
    assert_eq!(e.level(), MandwmErrorLevel::WARN);
    assert_eq!(
        e.message(),
        "Error executing command.\nName: \"bad.sh\"\nSTDERR: err\nSTDOUT: out\nSTATUS: exit status: 1"
    );
}

#[test]
fn unstartable_run_gives_a_warning() {
    let run = CommandRun::NotStarted { error: String::from("No such file or directory") };
    let e = script("say \"hi\".sh").output(run).unwrap_err();
    assert_eq!(e.level(), MandwmErrorLevel::WARN);
    assert_eq!(
        e.message(),
        "Unable to execute command.\nName: \"say \\\"hi\\\".sh\"\nExecution error: No such file or directory"
    );
}

#[test]
fn cycle_collects_outputs_in_first_report_order() {
    let mut cycle = BarCycle::new();
    assert!(cycle.record(String::from("a"), Ok(String::from("1"))).is_none());
    assert!(cycle.record(String::from("b"), Ok(String::from("22"))).is_none());
    assert!(cycle.record(String::from("a"), Ok(String::from("3"))).is_none());
    let entries = cycle.entries();
    assert_eq!(entries.len(), 2);
    assert_eq!(entries[0].name, "a");
    assert_eq!(entries[0].output, "3");
    assert_eq!(entries[1].name, "b");
    assert_eq!(entries[1].output, "22");
    match cycle.render(false, " | ", 50) {
        BarAction::SetRoot(text) => assert_eq!(text, "3 | 22"),
        BarAction::PrintOutputs(_) => panic!("expected the root text"),
    }
    match cycle.render(true, " | ", 50) {
        BarAction::PrintOutputs(outputs) => assert_eq!(outputs, vec![String::from("3"), String::from("22")]),
        BarAction::SetRoot(_) => panic!("expected outputs"),
    }
}

#[test]
fn cycle_hands_back_failures_unchanged() {
    let mut cycle = BarCycle::new();
    cycle.record(String::from("a"), Ok(String::from("1")));
    let failure = cycle.record(String::from("b"), Err(MandwmError::warn(String::from("no"))));
    let failure = failure.unwrap();
    assert_eq!(failure.message(), "no");
    assert_eq!(failure.level(), MandwmErrorLevel::WARN);
    assert_eq!(cycle.entries().len(), 1);
    match cycle.render(false, " | ", 50) {
        BarAction::SetRoot(text) => assert_eq!(text, "1"),
        BarAction::PrintOutputs(_) => panic!("expected the root text"),
    }
}

#[test]
fn empty_cycle_renders_nothing() {
    let cycle = BarCycle::new();
    match cycle.render(false, " | ", 50) {
        BarAction::SetRoot(text) => assert_eq!(text, ""),
        BarAction::PrintOutputs(_) => panic!("expected the root text"),
    }
    match cycle.render(true, " | ", 50) {
        BarAction::PrintOutputs(outputs) => assert!(outputs.is_empty()),
        BarAction::SetRoot(_) => panic!("expected outputs"),
    }
}

#[test]
fn root_text_is_cut_at_max_length() {
    let mut cycle = BarCycle::new();
    cycle.record(String::from("a"), Ok(String::from("abcdef")));
    cycle.record(String::from("b"), Ok(String::from("äö")));
    match cycle.render(false, "|", 8) {
        BarAction::SetRoot(text) => assert_eq!(text, "abcdef|ä"),
        BarAction::PrintOutputs(_) => panic!("expected the root text"),
    }
    match cycle.render(false, "|", 9) {
        BarAction::SetRoot(text) => assert_eq!(text, "abcdef|äö"),
        BarAction::PrintOutputs(_) => panic!("expected the root text"),
    }
    match cycle.render(false, " | ", 50) {
        BarAction::SetRoot(text) => assert_eq!(text, "abcdef | äö"),
        BarAction::PrintOutputs(_) => panic!("expected the root text"),
    }
    match cycle.render(false, "|", 0) {
        BarAction::SetRoot(text) => assert_eq!(text, ""),
        BarAction::PrintOutputs(_) => panic!("expected the root text"),
    }
}

#[test]
fn dmenu_buffers_are_refused() {
    assert_eq!(create_dmenu_commands(b"pipe a b c").err(), Some(DmenuError::CouldNotParse));
    assert_eq!(create_dmenu_commands(b"").err(), Some(DmenuError::CouldNotParse));
    assert_eq!(DmenuError::CouldNotParse.message(), "Could not parse commands.");
}

#[test]
fn ffi_generation_is_refused() {
    assert_eq!(gen_libs().unwrap_err(), "Please read the crate description before using the ffi.");
}

#[test]
fn single_output_has_no_delimiter() {
    let mut cycle = BarCycle::new();
    cycle.record(String::from("a"), Ok(String::from("x")));
    match cycle.render(false, " | ", 50) {
        BarAction::SetRoot(text) => assert_eq!(text, "x"),
        BarAction::PrintOutputs(_) => panic!("expected the root text"),
    }
}

#[test]
fn script_names_are_quoted_as_os_strings() {
    let run = CommandRun::NotStarted { error: String::from("denied") };
    let e = script("it's.sh").output(run).unwrap_err();
    assert_eq!(e.message(), "Unable to execute command.\nName: \"it's.sh\"\nExecution error: denied");
}

#[test]
fn one_cycle_collects_successes_and_reports_failures() {
    let scripts = vec![script("a"), script("b"), script("a")];
    let runs = vec![
        CommandRun::Finished {
            stdout: String::from("1\n"),
            stderr: String::new(),
            success: true,
            status: String::from("exit status: 0"),
        },
        CommandRun::NotStarted { error: String::from("missing") },
        CommandRun::Finished {
            stdout: String::from("2\n"),
            stderr: String::new(),
            success: true,
            status: String::from("exit status: 0"),
        },
    ];
    let (cycle, failures) = run_cycle(&scripts, runs);
    let entries = cycle.entries();
    assert_eq!(entries.len(), 1);
    assert_eq!(entries[0].name, "a");
    assert_eq!(entries[0].output, "2");
    assert_eq!(failures.len(), 1);
    assert_eq!(failures[0].0, "b");
    assert_eq!(failures[0].1.message(), "Unable to execute command.\nName: \"b\"\nExecution error: missing");
    assert_eq!(failures[0].1.level(), MandwmErrorLevel::WARN);
}

#[test]
fn empty_cycle_collects_nothing() {
    let (cycle, failures) = run_cycle(&Vec::new(), Vec::new());
    assert!(cycle.entries().is_empty());
    assert!(failures.is_empty());
}
