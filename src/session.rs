use vstd::prelude::*;

use crate::context::ContextSpec;
use crate::error::ErrorKind;
use crate::error::TenxError;
use crate::files::FileMap;
use crate::patch::Patch;
use crate::patch::applied;
use crate::patch::changed_paths;
use crate::patch::restored;

verus! {

/// What a step asks of the model.
#[derive(Clone, Copy, Debug, PartialEq, Eq, Structural)]
pub enum StepType {
    Code,
    Fix,
    Auto,
    Error,
}

/// An operation the model asked for besides its patch.
#[derive(Clone, Debug, PartialEq, Eq)]
pub enum Operation {
    /// Make a file editable.
    Edit(String),
}

/// Token counts reported by the model.
#[derive(Clone, Copy, Debug, PartialEq, Eq, Structural)]
pub struct Usage {
    pub input_tokens: u64,
    pub output_tokens: u64,
}

/// The model's answer to a step.
pub struct ModelResponse {
    pub operations: Vec<Operation>,
    pub patch: Option<Patch>,
    pub usage: Option<Usage>,
    pub comment: Option<String>,
    pub response_text: Option<String>,
}

/// One turn: a prompt, the model's response once its patch is applied, or the error that
/// ended it.
pub struct Step {
    pub model: String,
    pub prompt: String,
    pub step_type: StepType,
    pub model_response: Option<ModelResponse>,
    pub err: Option<TenxError>,
}

/// Where a step stands.
#[derive(Clone, Copy, Debug, PartialEq, Eq, Structural)]
pub enum StepState {
    /// The prompt is sent; no answer yet.
    Pending,
    /// The model answered and its patch, if any, is applied.
    Applied,
    /// The model call or the patch failed.
    Failed,
}

impl Step {
    /// A new pending step.
    pub fn new(model: String, prompt: String, step_type: StepType) -> (r: Step)
        ensures
            r.model == model,
            r.prompt == prompt,
            r.step_type == step_type,
            r.model_response is None,
            r.err is None,
    {
        Step { model, prompt, step_type, model_response: None, err: None }
    }

    pub open spec fn state(&self) -> StepState {
        if self.err is Some {
            StepState::Failed
        } else if self.model_response is Some {
            StepState::Applied
        } else {
            StepState::Pending
        }
    }

    /// Where the step stands.
    pub fn step_state(&self) -> (r: StepState)
        ensures
            r == self.state(),
    {
        if self.err.is_some() {
            StepState::Failed
        } else if self.model_response.is_some() {
            StepState::Applied
        } else {
            StepState::Pending
        }
    }

    /// The patch of the step's response, if any.
    pub open spec fn patch_of(&self) -> Option<Patch> {
        match self.model_response {
            Some(resp) => resp.patch,
            None => None,
        }
    }

    /// Every cached pre-image map of the step is well formed.
    pub open spec fn wf(&self) -> bool {
        match self.patch_of() {
            Some(p) => p.cache.wf(),
            None => true,
        }
    }
}

/// The disk after reverting the patch of `step`, if it has one.
pub open spec fn step_reverted(disk: Map<Seq<char>, Seq<char>>, step: Step) -> Map<
    Seq<char>,
    Seq<char>,
> {
    match step.patch_of() {
        Some(p) => restored(disk, p.pre(), changed_paths(p.changes@)),
        None => disk,
    }
}

/// The disk after reverting the steps from `n - 1` down to `offset`, last first.
pub open spec fn reverted(disk: Map<Seq<char>, Seq<char>>, steps: Seq<Step>, offset: int, n: int) -> Map<
    Seq<char>,
    Seq<char>,
>
    decreases n - offset,
{
    if n <= offset || n > steps.len() || offset < 0 {
        disk
    } else {
        reverted(step_reverted(disk, steps[n - 1]), steps, offset, n - 1)
    }
}

/// The prompt of a retry of a failed step: the step's prompt followed by the error's kind and
/// its detail for the model.
pub open spec fn retry_prompt(prompt: Seq<char>, err: TenxError) -> Seq<char> {
    prompt + "\n\nThe previous attempt failed: "@ + err.kind_name_spec()@ + ": "@ + err.detail@
}

/// The last step of `b` is the turn the last step of `a` was: the same prompt, model and
/// step type.
pub open spec fn same_last_turn(a: Seq<Step>, b: Seq<Step>) -> bool {
    &&& b.last().prompt == a.last().prompt
    &&& b.last().model == a.last().model
    &&& b.last().step_type == a.last().step_type
}

/// The ordered history of steps over one working tree, with the contexts and editable
/// files of the conversation and the model the session is bound to.
pub struct Session {
    steps: Vec<Step>,
    contexts: Vec<ContextSpec>,
    editables: Vec<String>,
    model: Option<String>,
}

impl Session {
    pub closed spec fn model_view(&self) -> Option<String> {
        self.model
    }

    /// The model the session is bound to, if any.
    pub fn model(&self) -> (r: &Option<String>)
        ensures
            *r == self.model_view(),
    {
        &self.model
    }

    /// Binds the session to `model`.
    pub fn set_model(&mut self, model: String)
        ensures
            final(self).model_view() == Some(model),
            final(self).steps_view() == old(self).steps_view(),
            final(self).contexts_view() == old(self).contexts_view(),
            final(self).editables_view() == old(self).editables_view(),
    {
        self.model = Some(model);
    }

    pub closed spec fn steps_view(&self) -> Seq<Step> {
        self.steps@
    }

    pub closed spec fn contexts_view(&self) -> Seq<ContextSpec> {
        self.contexts@
    }

    pub closed spec fn editables_view(&self) -> Seq<Seq<char>> {
        self.editables@.map_values(|p: String| p@)
    }

    /// Every step is well formed.
    pub open spec fn wf(&self) -> bool {
        forall|i: int| 0 <= i < self.steps_view().len() ==> #[trigger] self.steps_view()[i].wf()
    }

    /// An empty session.
    pub fn new() -> (r: Session)
        ensures
            r.wf(),
            r.steps_view().len() == 0,
            r.contexts_view().len() == 0,
            r.editables_view().len() == 0,
            r.model_view() is None,
    {
        let r = Session { steps: Vec::new(), contexts: Vec::new(), editables: Vec::new(), model: None };
        assert(r.editables_view() =~= Seq::<Seq<char>>::empty());
        r
    }

    /// The steps, in order.
    pub fn steps(&self) -> (r: &Vec<Step>)
        ensures
            r@ == self.steps_view(),
    {
        &self.steps
    }

    /// The context specifications.
    pub fn contexts(&self) -> (r: &Vec<ContextSpec>)
        ensures
            r@ == self.contexts_view(),
    {
        &self.contexts
    }

    /// The editable files.
    pub fn editables(&self) -> (r: &Vec<String>)
        ensures
            r@.map_values(|p: String| p@) == self.editables_view(),
    {
        &self.editables
    }

    /// Adds a context specification.
    pub fn add_context(&mut self, context: ContextSpec)
        ensures
            final(self).contexts_view() == old(self).contexts_view().push(context),
            final(self).steps_view() == old(self).steps_view(),
            final(self).editables_view() == old(self).editables_view(),
    {
        self.contexts.push(context);
    }

    /// Adds an editable file, unless it is already there. Returns the number added.
    pub fn add_editable(&mut self, path: String) -> (r: usize)
        ensures
            old(self).editables_view().contains(path@) ==> r == 0 && final(self).editables_view()
                == old(self).editables_view(),
            !old(self).editables_view().contains(path@) ==> r == 1 && final(self).editables_view()
                == old(self).editables_view().push(path@),
            final(self).steps_view() == old(self).steps_view(),
            final(self).contexts_view() == old(self).contexts_view(),
            final(self).model_view() == old(self).model_view(),
    {
        if crate::udiff::contains_path(&self.editables, &path) {
            return 0;
        }
        let ghost before = self.editables@;
        self.editables.push(path);
        assert(self.editables@.map_values(|p: String| p@) =~= before.map_values(|p: String| p@).push(
            path@,
        ));
        1
    }

    /// Appends a pending step.
    pub fn add_prompt(&mut self, model: String, prompt: String, step_type: StepType)
        requires
            old(self).wf(),
        ensures
            final(self).wf(),
            final(self).steps_view().len() == old(self).steps_view().len() + 1,
            final(self).steps_view().drop_last() == old(self).steps_view(),
            final(self).steps_view().last().model == model,
            final(self).steps_view().last().prompt == prompt,
            final(self).steps_view().last().step_type == step_type,
            final(self).steps_view().last().state() == StepState::Pending,
            final(self).contexts_view() == old(self).contexts_view(),
            final(self).model_view() == old(self).model_view(),
            final(self).editables_view() == old(self).editables_view(),
    {
        self.steps.push(Step::new(model, prompt, step_type));
        assert(self.steps@.drop_last() =~= old(self).steps@);
        assert forall|i: int| 0 <= i < self.steps_view().len() implies #[trigger] self.steps_view()[i].wf() by {
            if i < old(self).steps@.len() {
                assert(self.steps_view()[i] == old(self).steps_view()[i]);
            }
        }
    }

    /// Drops every step, leaving the files as they are.
    pub fn clear(&mut self)
        ensures
            final(self).wf(),
            final(self).steps_view().len() == 0,
            final(self).contexts_view() == old(self).contexts_view(),
            final(self).model_view() == old(self).model_view(),
            final(self).editables_view() == old(self).editables_view(),
    {
        self.steps = Vec::new();
    }

    /// Applies `patch` to `disk` by the patch protocol. On success the patch, with its
    /// pre-images, becomes the response of the last step (of a new step with an empty prompt
    /// when there is none). On failure the session is left as it was.
    pub fn apply_patch(&mut self, patch: Patch, disk: &mut FileMap) -> (r: Result<(), TenxError>)
        requires
            old(self).wf(),
            patch.cache.wf(),
            old(disk).wf(),
        ensures
            final(self).wf(),
            final(disk).wf(),
            exists|cache2: Map<Seq<char>, Option<Seq<char>>>|
                applied(r, patch.changes@, patch.pre(), cache2, old(disk)@, final(disk)@) && (r is Ok
                    ==> (final(self).steps_view().last().patch_of() matches Some(p) && p.pre()
                    == cache2 && p.changes@ == patch.changes@)),
            r is Err ==> final(self).steps_view() == old(self).steps_view() && final(disk)@ == old(
                disk,
            )@,
            r is Ok && old(self).steps_view().len() > 0 ==> same_last_turn(old(self).steps_view(), final(self).steps_view()),
            r is Ok ==> final(self).steps_view().len() == (if old(self).steps_view().len() == 0 {
                1
            } else {
                old(self).steps_view().len()
            }) && (old(self).steps_view().len() > 0 ==> final(self).steps_view().drop_last() == old(
                self,
            ).steps_view().drop_last()) && final(self).steps_view().last().state()
                == StepState::Applied,
            final(self).contexts_view() == old(self).contexts_view(),
            final(self).model_view() == old(self).model_view(),
            final(self).editables_view() == old(self).editables_view(),
    {
        let mut patch = patch;
        let ghost p0 = patch;
        let r = patch.apply(disk);
        let ghost cache2 = patch.pre();
        match r {
            Ok(()) => {
                let response = ModelResponse {
                    operations: Vec::new(),
                    patch: Some(patch),
                    usage: None,
                    comment: None,
                    response_text: None,
                };
                self.set_last_response(response);
                let r: Result<(), TenxError> = Ok(());
                assert(self.steps_view().last().patch_of() matches Some(q) && q.pre() == cache2
                    && q.changes@ == p0.changes@);
                assert(applied(r, p0.changes@, p0.pre(), cache2, old(disk)@, disk@));
                r
            },
            Err(e) => {
                assert(applied(r, p0.changes@, p0.pre(), cache2, old(disk)@, disk@));
                Err(e)
            },
        }
    }

    /// Makes `response` the response of the last step, clearing its error; appends a step
    /// with an empty prompt when there is none.
    fn set_last_response(&mut self, response: ModelResponse)
        requires
            old(self).wf(),
            match response.patch {
                Some(p) => p.cache.wf(),
                None => true,
            },
        ensures
            final(self).wf(),
            final(self).steps_view().len() == (if old(self).steps_view().len() == 0 {
                1
            } else {
                old(self).steps_view().len()
            }),
            old(self).steps_view().len() > 0 ==> final(self).steps_view().drop_last() == old(
                self,
            ).steps_view().drop_last(),
            final(self).steps_view().last().model_response == Some(response),
            final(self).steps_view().last().err is None,
            old(self).steps_view().len() > 0 ==> same_last_turn(old(self).steps_view(), final(self).steps_view()),
            final(self).contexts_view() == old(self).contexts_view(),
            final(self).model_view() == old(self).model_view(),
            final(self).editables_view() == old(self).editables_view(),
    {
        if self.steps.len() == 0 {
            self.steps.push(Step::new(String::new(), String::new(), StepType::Code));
        }
        let ghost mid = self.steps@;
        assert(forall|i: int| 0 <= i < mid.len() ==> #[trigger] mid[i].wf());
        let n = self.steps.len();
        let mut last = self.steps.pop().unwrap();
        last.model_response = Some(response);
        last.err = None;
        self.steps.push(last);
        proof {
            assert forall|i: int| 0 <= i < self.steps_view().len() implies #[trigger] self.steps_view()[i].wf() by {
                if i < n - 1 {
                    assert(self.steps_view()[i] == mid[i]);
                }
            }
            assert(self.steps@.drop_last() =~= mid.drop_last());
            if old(self).steps@.len() > 0 {
                assert(mid == old(self).steps@);
            }
        }
    }

    /// Records `err` on the last step, which then counts as failed; appends a step with an
    /// empty prompt when there is none.
    pub fn record_error(&mut self, err: TenxError)
        requires
            old(self).wf(),
        ensures
            final(self).wf(),
            final(self).steps_view().len() == (if old(self).steps_view().len() == 0 {
                1
            } else {
                old(self).steps_view().len()
            }),
            old(self).steps_view().len() > 0 ==> final(self).steps_view().drop_last() == old(
                self,
            ).steps_view().drop_last(),
            final(self).steps_view().last().err == Some(err),
            final(self).steps_view().last().state() == StepState::Failed,
            old(self).steps_view().len() > 0 ==> same_last_turn(old(self).steps_view(), final(self).steps_view())
                && final(self).steps_view().last().patch_of() == old(self).steps_view().last().patch_of(),
            final(self).contexts_view() == old(self).contexts_view(),
            final(self).model_view() == old(self).model_view(),
            final(self).editables_view() == old(self).editables_view(),
    {
        if self.steps.len() == 0 {
            self.steps.push(Step::new(String::new(), String::new(), StepType::Code));
        }
        let ghost mid = self.steps@;
        assert(forall|i: int| 0 <= i < mid.len() ==> #[trigger] mid[i].wf());
        let n = self.steps.len();
        assert(mid[n - 1].wf());
        let mut last = self.steps.pop().unwrap();
        last.err = Some(err);
        self.steps.push(last);
        proof {
            assert forall|i: int| 0 <= i < self.steps_view().len() implies #[trigger] self.steps_view()[i].wf() by {
                if i < n - 1 {
                    assert(self.steps_view()[i] == mid[i]);
                }
            }
            assert(self.steps@.drop_last() =~= mid.drop_last());
            if old(self).steps@.len() > 0 {
                assert(mid == old(self).steps@);
            }
        }
    }

    /// Ends the last step with what the model call gave: its patch is applied to `disk`, or
    /// the error of the call or of the patch is recorded on the step.
    pub fn complete_step(&mut self, outcome: Result<Patch, TenxError>, disk: &mut FileMap) -> (r: Result<
        (),
        TenxError,
    >)
        requires
            old(self).wf(),
            old(disk).wf(),
            match outcome {
                Ok(p) => p.cache.wf(),
                Err(_) => true,
            },
        ensures
            final(self).wf(),
            final(disk).wf(),
            r is Err ==> final(disk)@ == old(disk)@ && final(self).steps_view().last().err == Some(
                r->Err_0,
            ),
            outcome is Err ==> r is Err && r->Err_0 == outcome->Err_0,
            outcome matches Ok(p) ==> exists|cache2: Map<Seq<char>, Option<Seq<char>>>|
                applied(r, p.changes@, p.pre(), cache2, old(disk)@, final(disk)@) && (r is Ok
                    ==> (final(self).steps_view().last().patch_of() matches Some(q) && q.pre()
                    == cache2 && q.changes@ == p.changes@)),
            r is Ok ==> final(self).steps_view().last().state() == StepState::Applied,
            old(self).steps_view().len() > 0 ==> same_last_turn(old(self).steps_view(), final(self).steps_view()),
            r is Err && old(self).steps_view().len() > 0 ==> final(self).steps_view().last().patch_of()
                == old(self).steps_view().last().patch_of(),
            final(self).contexts_view() == old(self).contexts_view(),
            final(self).editables_view() == old(self).editables_view(),
            final(self).model_view() == old(self).model_view(),
            final(self).steps_view().len() == (if old(self).steps_view().len() == 0 {
                1
            } else {
                old(self).steps_view().len()
            }),
            old(self).steps_view().len() > 0 ==> final(self).steps_view().drop_last() == old(
                self,
            ).steps_view().drop_last(),
    {
        match outcome {
            Ok(patch) => {
                let r = self.apply_patch(patch, disk);
                if let Err(e) = &r {
                    self.record_error(e.clone_error());
                }
                r
            },
            Err(e) => {
                self.record_error(e.clone_error());
                Err(e)
            },
        }
    }

    /// Reverts the patches of the steps from `offset` on, last first, and drops those steps.
    /// An offset at or past the end changes nothing.
    pub fn reset(&mut self, offset: usize, disk: &mut FileMap)
        requires
            old(self).wf(),
            old(disk).wf(),
        ensures
            final(self).wf(),
            final(disk).wf(),
            offset < old(self).steps_view().len() ==> final(self).steps_view() == old(
                self,
            ).steps_view().subrange(0, offset as int),
            offset >= old(self).steps_view().len() ==> final(self).steps_view() == old(
                self,
            ).steps_view(),
            final(disk)@ == reverted(
                old(disk)@,
                old(self).steps_view(),
                offset as int,
                old(self).steps_view().len() as int,
            ),
            final(self).contexts_view() == old(self).contexts_view(),
            final(self).model_view() == old(self).model_view(),
            final(self).editables_view() == old(self).editables_view(),
    {
        let ghost steps0 = self.steps@;
        let ghost d0 = disk@;
        while self.steps.len() > offset
            invariant
                self.wf(),
                disk.wf(),
                self.steps@.len() <= steps0.len(),
                self.steps@ == steps0.subrange(0, self.steps@.len() as int),
                self.steps@.len() >= offset || self.steps@ == steps0,
                self.contexts_view() == old(self).contexts_view(),
                self.editables_view() == old(self).editables_view(),
                self.model_view() == old(self).model_view(),
                reverted(d0, steps0, offset as int, steps0.len() as int) == reverted(
                    disk@,
                    steps0,
                    offset as int,
                    self.steps@.len() as int,
                ),
            decreases self.steps@.len(),
        {
            let n = self.steps.len();
            let ghost cur = self.steps@;
            assert(self.steps_view()[n - 1].wf());
            assert(forall|i: int| 0 <= i < cur.len() ==> #[trigger] cur[i].wf());
            let step = self.steps.pop().unwrap();
            assert(step == cur[n - 1]);
            assert(step == steps0[n - 1]);
            match &step.model_response {
                Some(resp) => match &resp.patch {
                    Some(p) => p.revert(disk),
                    None => {},
                },
                None => {},
            }
            assert(self.steps@ =~= steps0.subrange(0, self.steps@.len() as int));
            assert forall|i: int| 0 <= i < self.steps_view().len() implies #[trigger] self.steps_view()[i].wf() by {
                assert(self.steps_view()[i] == cur[i]);
            }
        }
        proof {
            if offset < steps0.len() {
                assert(self.steps@.len() == offset);
            } else {
                assert(self.steps@ =~= steps0);
            }
        }
    }

    /// Starts a new step that retries the last one, which is left as it is: with `prompt`
    /// when given, else with the last prompt, followed by the last error when the last step
    /// failed. A retry of a failed step is a fix. With no step there is nothing to retry.
    pub fn retry(&mut self, model: String, prompt: Option<String>) -> (r: Result<(), TenxError>)
        requires
            old(self).wf(),
        ensures
            final(self).wf(),
            old(self).steps_view().len() == 0 <==> r is Err,
            r is Err ==> final(self).steps_view() == old(self).steps_view() && r->Err_0.kind
                == ErrorKind::NoSteps,
            r is Ok ==> {
                let last = old(self).steps_view().last();
                &&& final(self).steps_view().len() == old(self).steps_view().len() + 1
                &&& final(self).steps_view().drop_last() == old(self).steps_view()
                &&& final(self).steps_view().last().state() == StepState::Pending
                &&& final(self).steps_view().last().model == model
                &&& final(self).steps_view().last().step_type == (if last.err is Some {
                    StepType::Fix
                } else {
                    last.step_type
                })
                &&& final(self).steps_view().last().prompt@ == match prompt {
                    Some(p) => p@,
                    None => match last.err {
                        Some(e) => retry_prompt(last.prompt@, e),
                        None => last.prompt@,
                    },
                }
            },
            final(self).contexts_view() == old(self).contexts_view(),
            final(self).model_view() == old(self).model_view(),
            final(self).editables_view() == old(self).editables_view(),
    {
        if self.steps.len() == 0 {
            return Err(TenxError::new(ErrorKind::NoSteps, String::from_str("no step to retry")));
        }
        let last = &self.steps[self.steps.len() - 1];
        let step_type = if last.err.is_some() {
            StepType::Fix
        } else {
            last.step_type
        };
        let text = match prompt {
            Some(p) => p,
            None => match &last.err {
                Some(e) => {
                    let mut t = last.prompt.clone();
                    t.append("\n\nThe previous attempt failed: ");
                    t.append(e.kind_name());
                    t.append(": ");
                    t.append(e.detail.as_str());
                    t
                },
                None => last.prompt.clone(),
            },
        };
        self.add_prompt(model, text, step_type);
        Ok(())
    }
}

} // verus!
