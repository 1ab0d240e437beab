//! Scripts: which calls into a backend they come to.

use vstd::prelude::*;

use crate::binding::{KeyCombo, Script, WorkflowStep};

verus! {

/// One call into a platform's backend, made on a worker thread. A backend that
/// cannot perform a call logs and moves on to the next.
#[derive(Debug, PartialEq, Eq)]
pub enum ScriptCall {
    TypeText(String),
    PressCombo(KeyCombo),
    /// Let the worker sleep. The backend is not asked for this one.
    Sleep { millis: u64 },
    RunAppleScript(String),
    RunShellCommand(String),
}

/// The one call a workflow step makes.
pub open spec fn step_call(step: WorkflowStep) -> ScriptCall {
    match step {
        WorkflowStep::TypeText(text) => ScriptCall::TypeText(text),
        WorkflowStep::PressKey(combo) => ScriptCall::PressCombo(combo),
        WorkflowStep::Delay { millis } => ScriptCall::Sleep { millis },
        WorkflowStep::RunAppleScript(src) => ScriptCall::RunAppleScript(src),
        WorkflowStep::RunShellCommand(cmd) => ScriptCall::RunShellCommand(cmd),
    }
}

/// The calls of a workflow: one for each step, in the order of the steps.
pub open spec fn workflow_calls(steps: Seq<WorkflowStep>) -> Seq<ScriptCall> {
    Seq::new(steps.len(), |i: int| step_call(steps[i]))
}

/// The calls of a script.
pub open spec fn script_calls(script: Script) -> Seq<ScriptCall> {
    match script {
        Script::AppleScript(src) => seq![ScriptCall::RunAppleScript(src)],
        Script::ShellCommand(cmd) => seq![ScriptCall::RunShellCommand(cmd)],
        Script::Workflow(steps) => workflow_calls(steps@),
    }
}

fn run_step(step: &WorkflowStep) -> (call: ScriptCall)
    ensures
        call == step_call(*step),
{
    match step {
        WorkflowStep::TypeText(text) => ScriptCall::TypeText(text.clone()),
        WorkflowStep::PressKey(combo) => ScriptCall::PressCombo(*combo),
        WorkflowStep::Delay { millis } => ScriptCall::Sleep { millis: *millis },
        WorkflowStep::RunAppleScript(src) => ScriptCall::RunAppleScript(src.clone()),
        WorkflowStep::RunShellCommand(cmd) => ScriptCall::RunShellCommand(cmd.clone()),
    }
}

/// The calls of a workflow's steps in order. They run on a worker thread, so a
/// delay never stalls the event tap.
pub fn run_workflow(steps: &[WorkflowStep]) -> (calls: Vec<ScriptCall>)
    ensures
        calls@ == workflow_calls(steps@),
{
    let mut calls: Vec<ScriptCall> = Vec::new();
    let mut i: usize = 0;
    while i < steps.len()
        invariant
            i <= steps@.len(),
            calls@.len() == i,
            forall|j: int| 0 <= j < i ==> #[trigger] calls@[j] == step_call(steps@[j]),
        decreases steps@.len() - i,
    {
        calls.push(run_step(&steps[i]));
        i = i + 1;
    }
    assert(calls@ =~= workflow_calls(steps@));
    calls
}

/// The calls of a script, for a worker thread: a shell command, an AppleScript
/// or a workflow can take seconds, and the caller is the input hook.
pub fn dispatch_script(script: &Script) -> (calls: Vec<ScriptCall>)
    ensures
        calls@ == script_calls(*script),
{
    let call = match script {
        Script::AppleScript(src) => ScriptCall::RunAppleScript(src.clone()),
        Script::ShellCommand(cmd) => ScriptCall::RunShellCommand(cmd.clone()),
        Script::Workflow(steps) => {
            return run_workflow(steps);
        },
    };
    let mut calls: Vec<ScriptCall> = Vec::new();
    calls.push(call);
    assert(calls@ =~= script_calls(*script));
    calls
}

/// A workflow makes exactly one call for each of its steps.
pub proof fn law_one_call_for_each_step(steps: Seq<WorkflowStep>, i: int)
    requires
        0 <= i < steps.len(),
    ensures
        workflow_calls(steps).len() == steps.len(),
        workflow_calls(steps)[i] == step_call(steps[i]),
{
}

/// Two workflows run one after the other make the calls of the joined
/// workflow.
pub proof fn law_workflows_concatenate(first: Seq<WorkflowStep>, second: Seq<WorkflowStep>)
    ensures
        workflow_calls(first + second) == workflow_calls(first) + workflow_calls(second),
{
    assert(workflow_calls(first + second) =~= workflow_calls(first) + workflow_calls(second));
}

/// Each step's call carries all that the step does: the text, every modifier
/// and the key of a chord, the time, the source, the command.
pub proof fn law_calls_carry_their_steps(steps: Seq<WorkflowStep>, i: int)
    requires
        0 <= i < steps.len(),
    ensures
        ({
            let call = workflow_calls(steps)[i];
            match steps[i] {
                WorkflowStep::TypeText(text) => call matches ScriptCall::TypeText(t) && t@ == text@,
                WorkflowStep::PressKey(chord) => call matches ScriptCall::PressCombo(c)
                    && c.command == chord.command && c.control == chord.control && c.shift
                    == chord.shift && c.option == chord.option && c.key.code == chord.key.code,
                WorkflowStep::Delay { millis } => call matches ScriptCall::Sleep { millis: m } && m
                    == millis,
                WorkflowStep::RunAppleScript(src) => call matches ScriptCall::RunAppleScript(s)
                    && s@ == src@,
                WorkflowStep::RunShellCommand(cmd) => call matches ScriptCall::RunShellCommand(c)
                    && c@ == cmd@,
            }
        }),
{
}

/// Two workflows that make the same calls have the same steps.
pub proof fn law_workflows_distinct(a: Seq<WorkflowStep>, b: Seq<WorkflowStep>)
    requires
        workflow_calls(a) == workflow_calls(b),
    ensures
        a == b,
{
    assert(workflow_calls(a).len() == a.len());
    assert(workflow_calls(b).len() == b.len());
    assert forall|i: int| 0 <= i < a.len() implies a[i] == b[i] by {
        assert(workflow_calls(a)[i] == step_call(a[i]));
        assert(workflow_calls(b)[i] == step_call(b[i]));
    }
    assert(a =~= b);
}

/// A script makes the one call it holds, or one for each step of its workflow,
/// in the order of the steps.
pub proof fn law_scripts_make_their_calls(script: Script)
    ensures
        ({
            let calls = script_calls(script);
            match script {
                Script::AppleScript(src) => calls.len() == 1
                    && (calls[0] matches ScriptCall::RunAppleScript(s) && s@ == src@),
                Script::ShellCommand(cmd) => calls.len() == 1
                    && (calls[0] matches ScriptCall::RunShellCommand(c) && c@ == cmd@),
                Script::Workflow(steps) => calls.len() == steps@.len() && forall|i: int|
                    0 <= i < calls.len() ==> #[trigger] calls[i] == workflow_calls(
                        seq![steps@[i]],
                    )[0],
            }
        }),
{
}

} // verus!
