use libtenx::config::Config;
use libtenx::error::{ErrorKind, TenxError};
use libtenx::events::{Event, LogLevel};
use libtenx::files::FileMap;
use libtenx::patch::{Change, Patch};
use libtenx::replace::Replace;
use libtenx::session::{Session, StepState, StepType};
use libtenx::tenx::Tenx;
use libtenx::write::WriteFile;

fn read(m: &FileMap, p: &str) -> String {
    m.get(&p.to_string()).unwrap().clone()
}

fn write_patch(path: &str, content: &str) -> Patch {
    let mut p = Patch::new();
    p.changes.push(Change::Write(WriteFile { path: path.to_string(), content: content.to_string() }));
    p
}

#[test]
fn reset_reverts_later_steps_and_truncates() {
    let mut disk = FileMap::new();
    disk.insert("a.txt".to_string(), "a0".to_string());
    disk.insert("b.txt".to_string(), "b0".to_string());
    let mut session = Session::new();

    session.add_prompt("m".to_string(), "S0".to_string(), StepType::Code);
    session.complete_step(Ok(write_patch("a.txt", "a1")), &mut disk).unwrap();
    session.add_prompt("m".to_string(), "S1".to_string(), StepType::Code);
    session.complete_step(Ok(write_patch("b.txt", "b1")), &mut disk).unwrap();
    session.add_prompt("m".to_string(), "S2".to_string(), StepType::Code);
    let mut bad = Patch::new();
    bad.changes.push(Change::Replace(Replace {
        path: "a.txt".to_string(),
        old: "zzz".to_string(),
        new: "y".to_string(),
    }));
    assert!(session.complete_step(Ok(bad), &mut disk).is_err());
    assert_eq!(session.steps()[2].step_state(), StepState::Failed);
    assert_eq!(read(&disk, "b.txt"), "b1");

    let tenx = Tenx::new(Config::new());
    tenx.reset(&mut session, 1, &mut disk).unwrap();
    assert_eq!(session.steps().len(), 1);
    assert_eq!(session.steps()[0].prompt, "S0");
    assert_eq!(read(&disk, "b.txt"), "b0");
    assert_eq!(read(&disk, "a.txt"), "a1");
}

#[test]
fn model_failure_marks_the_step_failed() {
    let mut disk = FileMap::new();
    let mut session = Session::new();
    session.add_prompt("m".to_string(), "do it".to_string(), StepType::Code);
    assert_eq!(session.steps()[0].step_state(), StepState::Pending);
    let err = TenxError::new(ErrorKind::ModelFailure, "timeout".to_string());
    let r = session.complete_step(Err(err.clone()), &mut disk);
    assert_eq!(r.unwrap_err(), err);
    assert_eq!(session.steps()[0].step_state(), StepState::Failed);
    assert_eq!(session.steps()[0].err, Some(err));
}

#[test]
fn retry_of_a_failed_step_is_a_fix_with_the_error() {
    let mut disk = FileMap::new();
    let mut session = Session::new();
    session.add_prompt("m".to_string(), "do it".to_string(), StepType::Code);
    let err = TenxError::new(ErrorKind::ModelFailure, "timeout".to_string());
    let _ = session.complete_step(Err(err), &mut disk);
    session.retry("m".to_string(), None).unwrap();
    assert_eq!(session.steps().len(), 2);
    assert_eq!(session.steps()[0].step_state(), StepState::Failed);
    assert_eq!(session.steps()[1].step_type, StepType::Fix);
    assert_eq!(
        session.steps()[1].prompt,
        "do it\n\nThe previous attempt failed: model failure: timeout"
    );
    assert_eq!(session.steps()[1].step_state(), StepState::Pending);
}

#[test]
fn retry_needs_a_step() {
    let mut session = Session::new();
    let err = session.retry("m".to_string(), None).unwrap_err();
    assert_eq!(err.kind, ErrorKind::NoSteps);
}

#[test]
fn editables_are_added_once() {
    let mut session = Session::new();
    assert_eq!(session.add_editable("a.rs".to_string()), 1);
    assert_eq!(session.add_editable("a.rs".to_string()), 0);
    assert_eq!(session.editables().len(), 1);
}

#[test]
fn event_names_and_text() {
    assert_eq!(Event::Snippet("x".to_string()).name(), "snippet");
    assert_eq!(Event::PreflightEnd.name(), "preflight_end");
    assert_eq!(Event::Log(LogLevel::Info, "hello".to_string()).display(), "hello");
    assert_eq!(Event::ValidationStart.display(), "");
}

#[test]
fn config_builders() {
    let c = Config::new().with_anthropic_key("k".to_string()).with_session_store_dir("/s".to_string());
    assert_eq!(c.anthropic_key, "k");
    assert_eq!(c.session_store_dir, Some("/s".to_string()));
}

#[test]
fn error_message() {
    let e = TenxError::new(ErrorKind::NoMatch, "x.txt".to_string());
    assert_eq!(e.message(), "no match: x.txt");
}

#[test]
fn tenx_retry_uses_the_given_prompt() {
    let mut session = Session::new();
    session.add_prompt("m".to_string(), "first".to_string(), StepType::Auto);
    let tenx = Tenx::new(Config::new());
    tenx.retry(&mut session, "m".to_string(), Some("second".to_string())).unwrap();
    assert_eq!(session.steps().len(), 2);
    assert_eq!(session.steps()[1].prompt, "second");
    assert_eq!(session.steps()[1].step_type, StepType::Auto);
}

#[test]
fn reset_past_the_end_changes_nothing() {
    let mut disk = FileMap::new();
    disk.insert("a.txt".to_string(), "a0".to_string());
    let mut session = Session::new();
    session.add_prompt("m".to_string(), "S0".to_string(), StepType::Code);
    session.complete_step(Ok(write_patch("a.txt", "a1")), &mut disk).unwrap();
    session.reset(5, &mut disk);
    assert_eq!(session.steps().len(), 1);
    assert_eq!(read(&disk, "a.txt"), "a1");
    session.reset(0, &mut disk);
    assert_eq!(session.steps().len(), 0);
    assert_eq!(read(&disk, "a.txt"), "a0");
}

#[test]
fn applied_patch_keeps_its_preimages_on_the_step() {
    let mut disk = FileMap::new();
    disk.insert("a.txt".to_string(), "a0".to_string());
    let mut session = Session::new();
    session.apply_patch(write_patch("a.txt", "a1"), &mut disk).unwrap();
    assert_eq!(session.steps().len(), 1);
    let step = &session.steps()[0];
    assert_eq!(step.step_state(), StepState::Applied);
    let patch = step.model_response.as_ref().unwrap().patch.as_ref().unwrap();
    assert_eq!(patch.cache.get(&"a.txt".to_string()).unwrap(), "a0");
}

#[test]
fn completing_a_step_keeps_the_turn() {
    let mut disk = FileMap::new();
    disk.insert("a.txt".to_string(), "a0".to_string());
    let mut session = Session::new();
    session.set_model("sonnet".to_string());
    session.add_prompt("sonnet".to_string(), "edit a".to_string(), StepType::Fix);
    session.complete_step(Ok(write_patch("a.txt", "a1")), &mut disk).unwrap();
    let step = &session.steps()[0];
    assert_eq!(step.prompt, "edit a");
    assert_eq!(step.model, "sonnet");
    assert_eq!(step.step_type, StepType::Fix);
    assert_eq!(session.model(), &Some("sonnet".to_string()));

    session.add_prompt("sonnet".to_string(), "edit b".to_string(), StepType::Code);
    let mut bad = Patch::new();
    bad.changes.push(Change::Replace(Replace {
        path: "missing.txt".to_string(),
        old: "x".to_string(),
        new: "y".to_string(),
    }));
    assert!(session.complete_step(Ok(bad), &mut disk).is_err());
    let failed = &session.steps()[1];
    assert_eq!(failed.prompt, "edit b");
    assert!(failed.model_response.is_none());
    assert_eq!(failed.step_state(), StepState::Failed);
}
