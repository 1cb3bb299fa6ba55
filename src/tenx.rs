use vstd::prelude::*;

use crate::config::Config;
use crate::error::ErrorKind;
use crate::error::TenxError;
use crate::files::FileMap;
use crate::rust::Validator;
use crate::session::Session;
use crate::session::StepState;
use crate::session::StepType;
use crate::session::retry_prompt;
use crate::session::reverted;

verus! {

/// The model binding that prompts are sent to.
pub struct Claude;

impl Claude {
    pub fn new() -> (r: Claude) {
        Claude
    }
}

/// The assistant: settings, and the session operations callers use.
pub struct Tenx {
    pub config: Config,
}

impl Tenx {
    /// An assistant with the given settings.
    pub fn new(config: Config) -> (r: Tenx)
        ensures
            r.config == config,
    {
        Tenx { config }
    }

    /// Resets the session to step `offset`: the patches of the later steps are reverted, last
    /// first, and those steps dropped.
    pub fn reset(&self, session: &mut Session, offset: usize, disk: &mut FileMap) -> (r: Result<(), TenxError>)
        requires
            old(session).wf(),
            old(disk).wf(),
        ensures
            r is Ok,
            final(session).wf(),
            final(disk).wf(),
            offset < old(session).steps_view().len() ==> final(session).steps_view() == old(
                session,
            ).steps_view().subrange(0, offset as int),
            offset >= old(session).steps_view().len() ==> final(session).steps_view() == old(
                session,
            ).steps_view(),
            final(disk)@ == reverted(
                old(disk)@,
                old(session).steps_view(),
                offset as int,
                old(session).steps_view().len() as int,
            ),
            final(session).contexts_view() == old(session).contexts_view(),
            final(session).editables_view() == old(session).editables_view(),
            final(session).model_view() == old(session).model_view(),
    {
        session.reset(offset, disk);
        Ok(())
    }

    /// Starts a new step that retries the last one: with `prompt` when given, else with the
    /// last prompt, followed by the last error when the last step failed. The model call for
    /// the new step is the caller's to make.
    pub fn retry(&self, session: &mut Session, model: String, prompt: Option<String>) -> (r: Result<
        (),
        TenxError,
    >)
        requires
            old(session).wf(),
        ensures
            final(session).wf(),
            old(session).steps_view().len() == 0 <==> r is Err,
            r is Err ==> final(session).steps_view() == old(session).steps_view() && r->Err_0.kind
                == ErrorKind::NoSteps,
            r is Ok ==> {
                let last = old(session).steps_view().last();
                &&& final(session).steps_view().len() == old(session).steps_view().len() + 1
                &&& final(session).steps_view().drop_last() == old(session).steps_view()
                &&& final(session).steps_view().last().state() == StepState::Pending
                &&& final(session).steps_view().last().model == model
                &&& final(session).steps_view().last().step_type == (if last.err is Some {
                    StepType::Fix
                } else {
                    last.step_type
                })
                &&& final(session).steps_view().last().prompt@ == match prompt {
                    Some(p) => p@,
                    None => match last.err {
                        Some(e) => retry_prompt(last.prompt@, e),
                        None => last.prompt@,
                    },
                }
            },
            final(session).contexts_view() == old(session).contexts_view(),
            final(session).editables_view() == old(session).editables_view(),
            final(session).model_view() == old(session).model_view(),
    {
        session.retry(model, prompt)
    }
}

/// The checks to run before a prompt is sent. None is run.
pub fn preflight(_config: &Config, _session: &Session) -> (r: Vec<Box<dyn Validator>>)
    ensures
        r@.len() == 0,
{
    Vec::new()
}

} // verus!
