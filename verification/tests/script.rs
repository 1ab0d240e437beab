use openlogi_inject::binding::{Action, Effect, Platform, Script, WorkflowStep};
use openlogi_inject::chord::parse_shortcut;
use openlogi_inject::inject::{execute, Execution};
use openlogi_inject::script::{dispatch_script, run_workflow, ScriptCall};

fn steps() -> Vec<WorkflowStep> {
    vec![
        WorkflowStep::TypeText("hi".to_string()),
        WorkflowStep::TypeText("".to_string()),
        WorkflowStep::Delay { millis: 250 },
        WorkflowStep::PressKey(parse_shortcut("Cmd+A")),
        WorkflowStep::RunAppleScript("beep".to_string()),
        WorkflowStep::RunShellCommand("true".to_string()),
    ]
}

fn calls() -> Vec<ScriptCall> {
    vec![
        ScriptCall::TypeText("hi".to_string()),
        ScriptCall::TypeText("".to_string()),
        ScriptCall::Sleep { millis: 250 },
        ScriptCall::PressCombo(parse_shortcut("Cmd+A")),
        ScriptCall::RunAppleScript("beep".to_string()),
        ScriptCall::RunShellCommand("true".to_string()),
    ]
}

#[test]
fn workflows_make_one_call_for_each_step_in_order() {
    assert_eq!(run_workflow(&steps()), calls());
    assert!(run_workflow(&[]).is_empty());
}

#[test]
fn workflows_concatenate() {
    let steps = steps();
    for i in 0..=steps.len() {
        let mut joined = run_workflow(&steps[..i]);
        joined.extend(run_workflow(&steps[i..]));
        assert_eq!(joined, calls());
    }
}

#[test]
fn scripts_make_the_calls_they_hold() {
    assert_eq!(
        dispatch_script(&Script::AppleScript("beep".to_string())),
        vec![ScriptCall::RunAppleScript("beep".to_string())]
    );
    assert_eq!(
        dispatch_script(&Script::ShellCommand("true".to_string())),
        vec![ScriptCall::RunShellCommand("true".to_string())]
    );
    assert_eq!(dispatch_script(&Script::Workflow(steps())), calls());
}

#[test]
fn every_backend_is_called_alike() {
    for platform in [Platform::MacOs, Platform::Linux, Platform::Windows] {
        let action = Action::Input {
            label: "Workflow".to_string(),
            effect: Effect::Script(Script::Workflow(steps())),
        };
        assert_eq!(execute(platform, &action), Execution::Script(calls()));
    }
}
