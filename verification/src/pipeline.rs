//! The submission pipeline: the state machine that turns a member's
//! trigger into a published result.
//!
//! The machine itself is pure: every outside effect — reading the cooldown
//! tracker, loading the form, checking the destination, showing the prompt,
//! dispatching the composed result — is an action the machine hands back to
//! its driver, and every outcome re-enters it as a plain value. Each step
//! method pins down the next state and the action for every outcome, so
//! the ordering rules of the flow — no cooldown consumed on a blocked,
//! missing, or misconfigured form, a cooldown written only after a
//! dispatch that succeeded — are part of the contracts.
//!
//! A form with no fields can never be prompted: the well-formedness
//! invariant [`Submission::wf`] keeps the prompting and later states out of
//! reach for such a form, which
//! [`lemma_empty_form_never_dispatched`] states as a law.

use vstd::prelude::*;

use vstd::string::StringExecFns;

use crate::field::{is_prompt_of, ResultEntry};
use crate::form::{Form, FormRef, PromptSpec};
use crate::mention::SerializableMention;

verus! {

/// Where the pipeline stands between two outside effects.
#[derive(Debug, Clone, Copy, PartialEq, Eq, Structural)]
pub enum PipelineState {
    /// Waiting for the cooldown tracker's answer.
    CheckingCooldown,
    /// Terminal: the user is still on cooldown; only they are told.
    Blocked,
    /// Waiting for the form to load, then for the destination check.
    CheckingForm,
    /// Terminal: the form no longer exists.
    NotFound,
    /// Terminal: the destination refuses sub-conversations, or the form
    /// has no fields.
    Misconfigured,
    /// The prompt is shown; waiting for a submission, a dismissal, or the
    /// timeout.
    Prompting,
    /// Terminal: the user dismissed the prompt or the timeout elapsed; no
    /// message is sent and no cooldown is set.
    Cancelled,
    /// A submission arrived; waiting for the dispatch outcome.
    Collected,
    /// Terminal: the result was published and the cooldown issued.
    Dispatched,
    /// Terminal: publishing failed; the failure is surfaced and no
    /// cooldown is set.
    Failed,
}

/// What the driver must do next on the pipeline's behalf.
pub enum PipelineAction {
    /// Read the cooldown tracker for (form, user) and report back.
    QueryCooldown,
    /// Tell the acting user, and only them, how long is left.
    ReportBlocked { remaining: u64 },
    /// Load the form from the store and report back.
    LoadForm,
    /// Tell the user the form no longer exists.
    ReportNotFound,
    /// Ask the platform whether the destination channel still allows
    /// creating private sub-conversations, and report back.
    CheckDestination { destination: u64 },
    /// Tell the user the form is not correctly configured.
    ReportMisconfigured,
    /// Present the interactive prompt and report its outcome.
    ShowPrompt { prompt: PromptSpec },
    /// Create the private sub-conversation under `destination`, post the
    /// composed message, grant the submitter access, and report back.
    Dispatch { destination: u64, message: ComposedMessage },
    /// Write the cooldown entry with the given duration in seconds.
    SetCooldown { duration: u64 },
    /// Surface the dispatch failure to the caller.
    ReportFailure,
    /// Nothing further to do.
    Finish,
}

/// The published result of a submission: who is announced, the form's
/// description, and one entry per field in original field order. Rendering
/// into the platform's message format is the driver's concern.
pub struct ComposedMessage {
    pub mention: Option<SerializableMention>,
    pub description: Option<String>,
    pub entries: Vec<ResultEntry>,
}

/// The message `m` is the composed result of `form` for the submitted
/// `answers`: the form's mention and description, then each field's label
/// and the corresponding answer, inline or block per the field's flag.
pub open spec fn is_composed_of(m: ComposedMessage, form: Form, answers: Seq<String>) -> bool {
    &&& m.mention == form@.mention
    &&& (match form@.description {
        Some(d) => m.description matches Some(t) && t@ == d,
        None => m.description is None,
    })
    &&& m.entries@.len() == (if form@.fields.len() <= answers.len() {
        form@.fields.len()
    } else {
        answers.len()
    })
    &&& (forall|i: int| 0 <= i < m.entries@.len() ==> {
        &&& (#[trigger] m.entries@[i]).label@ == form@.fields[i].name@
        &&& m.entries@[i].value@ == answers[i]@
        &&& m.entries@[i].inline == form@.fields[i].inline
    })
}

/// One in-flight submission: the reference and user it was triggered for,
/// where the machine stands, and what it has loaded and collected so far.
pub struct Submission {
    pub form_ref: FormRef,
    pub user_id: u64,
    state: PipelineState,
    form: Option<Form>,
    answers: Option<Vec<String>>,
}

impl Submission {
    /// The form reference the trigger named.
    pub closed spec fn spec_form_ref(&self) -> FormRef {
        self.form_ref
    }

    /// The user who triggered the submission.
    pub closed spec fn spec_user_id(&self) -> u64 {
        self.user_id
    }

    /// Where the machine stands.
    pub closed spec fn spec_state(&self) -> PipelineState {
        self.state
    }

    /// The form copy loaded when the store was read; later edits or
    /// deletion of the stored form do not touch it.
    pub closed spec fn spec_form(&self) -> Option<Form> {
        self.form
    }

    /// The answers collected from the prompt, once submitted.
    pub closed spec fn spec_answers(&self) -> Option<Seq<String>> {
        match self.answers {
            Some(a) => Some(a@),
            None => None,
        }
    }

    /// What each state guarantees about the loaded data: a well-formed
    /// form copy is present from the moment one was loaded, the prompting
    /// and later states hold a form with at least one field, and answers
    /// exist exactly from the moment a submission was collected.
    pub open spec fn wf(&self) -> bool {
        &&& (self.spec_form() matches Some(f) ==> f.wf())
        &&& ((self.spec_state() is Prompting || self.spec_state() is Collected
            || self.spec_state() is Dispatched || self.spec_state() is Failed) ==> (
        self.spec_form() matches Some(f) && f@.fields.len() >= 1))
        &&& ((self.spec_state() is Collected || self.spec_state() is Dispatched
            || self.spec_state() is Failed) ==> self.spec_answers() is Some)
        &&& ((self.spec_state() is CheckingCooldown || self.spec_state() is Blocked)
            ==> self.spec_form() is None)
    }

    /// Where the machine stands.
    pub fn state(&self) -> (s: PipelineState)
        ensures
            s == self.spec_state(),
    {
        self.state
    }

    /// A trigger was received: the machine starts by consulting the
    /// cooldown tracker.
    pub fn start(form_ref: FormRef, user_id: u64) -> (r: (Submission, PipelineAction))
        ensures
            r.0.wf(),
            r.0.spec_form_ref() == form_ref,
            r.0.spec_user_id() == user_id,
            r.0.spec_state() is CheckingCooldown,
            r.0.spec_form() is None,
            r.0.spec_answers() is None,
            r.1 is QueryCooldown,
    {
        (
            Submission {
                form_ref,
                user_id,
                state: PipelineState::CheckingCooldown,
                form: None,
                answers: None,
            },
            PipelineAction::QueryCooldown,
        )
    }

    /// The cooldown tracker answered. A positive remainder blocks the
    /// submission — the user is told, nothing else happens — and anything
    /// else moves on to loading the form. No cooldown is consumed here.
    pub fn on_cooldown(&mut self, remaining: Option<u64>) -> (a: PipelineAction)
        requires
            old(self).wf(),
            old(self).spec_state() is CheckingCooldown,
        ensures
            final(self).wf(),
            final(self).spec_form_ref() == old(self).spec_form_ref(),
            final(self).spec_user_id() == old(self).spec_user_id(),
            final(self).spec_form() == old(self).spec_form(),
            final(self).spec_answers() == old(self).spec_answers(),
            (remaining matches Some(t) && t > 0) ==> {
                &&& final(self).spec_state() is Blocked
                &&& a == (PipelineAction::ReportBlocked { remaining: remaining->Some_0 })
            },
            !(remaining matches Some(t) && t > 0) ==> {
                &&& final(self).spec_state() is CheckingForm
                &&& a is LoadForm
            },
    {
        match remaining {
            Some(t) if t > 0 => {
                self.state = PipelineState::Blocked;
                PipelineAction::ReportBlocked { remaining: t }
            },
            _ => {
                self.state = PipelineState::CheckingForm;
                PipelineAction::LoadForm
            },
        }
    }

    /// The store answered. A missing form ends the flow with its own
    /// message; a loaded form is kept — this very copy is used for the
    /// rest of the flow — and the destination is checked next.
    pub fn on_form(&mut self, form: Option<Form>) -> (a: PipelineAction)
        requires
            old(self).wf(),
            old(self).spec_state() is CheckingForm,
            old(self).spec_form() is None,
            form matches Some(f) ==> f.wf(),
        ensures
            final(self).wf(),
            final(self).spec_form_ref() == old(self).spec_form_ref(),
            final(self).spec_user_id() == old(self).spec_user_id(),
            final(self).spec_answers() == old(self).spec_answers(),
            form is None ==> {
                &&& final(self).spec_state() is NotFound
                &&& final(self).spec_form() is None
                &&& a is ReportNotFound
            },
            form matches Some(f) ==> {
                &&& final(self).spec_state() is CheckingForm
                &&& final(self).spec_form() == form
                &&& a == (PipelineAction::CheckDestination { destination: f@.destination })
            },
    {
        match form {
            None => {
                self.state = PipelineState::NotFound;
                PipelineAction::ReportNotFound
            },
            Some(f) => {
                let destination = f.destination();
                self.form = Some(f);
                PipelineAction::CheckDestination { destination }
            },
        }
    }

    /// The platform answered the destination check. A destination that
    /// refuses private sub-conversations, or a form with no fields, is a
    /// configuration problem with its own message — distinct from a
    /// missing form — and ends the flow with no cooldown consumed.
    /// Otherwise the prompt mirroring the form's fields is presented.
    pub fn on_destination(&mut self, can_create: bool) -> (a: PipelineAction)
        requires
            old(self).wf(),
            old(self).spec_state() is CheckingForm,
            old(self).spec_form() is Some,
        ensures
            final(self).wf(),
            final(self).spec_form_ref() == old(self).spec_form_ref(),
            final(self).spec_user_id() == old(self).spec_user_id(),
            final(self).spec_form() == old(self).spec_form(),
            final(self).spec_answers() == old(self).spec_answers(),
            (!can_create || old(self).spec_form()->Some_0@.fields.len() == 0) ==> {
                &&& final(self).spec_state() is Misconfigured
                &&& a is ReportMisconfigured
            },
            (can_create && old(self).spec_form()->Some_0@.fields.len() > 0) ==> {
                &&& final(self).spec_state() is Prompting
                &&& (a matches PipelineAction::ShowPrompt { prompt } && is_prompt_of_form(
                    prompt,
                    old(self).spec_form()->Some_0,
                ))
            },
    {
        let prompt = match &self.form {
            Some(f) => f.quick_modal(),
            None => None,
        };
        match prompt {
            Some(p) if can_create => {
                self.state = PipelineState::Prompting;
                PipelineAction::ShowPrompt { prompt: p }
            },
            _ => {
                self.state = PipelineState::Misconfigured;
                PipelineAction::ReportMisconfigured
            },
        }
    }

    /// The prompt resolved. A dismissal or timeout cancels the flow
    /// silently — no message, no cooldown. A submission is kept and the
    /// composed result is handed out for dispatch: mention, description,
    /// then each field's label with its answer in original field order.
    pub fn on_prompt(&mut self, submitted: Option<Vec<String>>) -> (a: PipelineAction)
        requires
            old(self).wf(),
            old(self).spec_state() is Prompting,
        ensures
            final(self).wf(),
            final(self).spec_form_ref() == old(self).spec_form_ref(),
            final(self).spec_user_id() == old(self).spec_user_id(),
            final(self).spec_form() == old(self).spec_form(),
            submitted is None ==> {
                &&& final(self).spec_state() is Cancelled
                &&& final(self).spec_answers() == old(self).spec_answers()
                &&& a is Finish
            },
            submitted matches Some(ans) ==> {
                &&& final(self).spec_state() is Collected
                &&& final(self).spec_answers() == Some(ans@)
                &&& (a matches PipelineAction::Dispatch { destination, message } && destination
                    == old(self).spec_form()->Some_0@.destination && is_composed_of(
                    message,
                    old(self).spec_form()->Some_0,
                    ans@,
                ))
            },
    {
        match submitted {
            None => {
                self.state = PipelineState::Cancelled;
                PipelineAction::Finish
            },
            Some(answers) => {
                let (destination, message) = match &self.form {
                    Some(f) => (f.destination(), compose_result(f, &answers)),
                    None => {
                        proof {
                            assert(false);
                        }
                        unreached()
                    },
                };
                self.answers = Some(answers);
                self.state = PipelineState::Collected;
                PipelineAction::Dispatch { destination, message }
            },
        }
    }

    /// The dispatch finished. Success issues the cooldown captured from
    /// the loaded form copy — not re-read from the store — or ends the
    /// flow when the form has none. Failure is surfaced and the cooldown
    /// is not set.
    pub fn on_dispatch(&mut self, delivered: bool) -> (a: PipelineAction)
        requires
            old(self).wf(),
            old(self).spec_state() is Collected,
        ensures
            final(self).wf(),
            final(self).spec_form_ref() == old(self).spec_form_ref(),
            final(self).spec_user_id() == old(self).spec_user_id(),
            final(self).spec_form() == old(self).spec_form(),
            final(self).spec_answers() == old(self).spec_answers(),
            !delivered ==> {
                &&& final(self).spec_state() is Failed
                &&& a is ReportFailure
            },
            delivered ==> {
                &&& final(self).spec_state() is Dispatched
                &&& (match old(self).spec_form()->Some_0@.cooldown {
                    Some(d) => a == (PipelineAction::SetCooldown { duration: d }),
                    None => a is Finish,
                })
            },
    {
        if !delivered {
            self.state = PipelineState::Failed;
            return PipelineAction::ReportFailure;
        }
        self.state = PipelineState::Dispatched;
        let cooldown = match &self.form {
            Some(f) => f.cooldown(),
            None => None,
        };
        match cooldown {
            Some(d) => PipelineAction::SetCooldown { duration: d },
            None => PipelineAction::Finish,
        }
    }
}

/// The prompt `p` mirrors `form`: its title, the fixed timeout, and one
/// prompt line per field in field order.
pub open spec fn is_prompt_of_form(p: PromptSpec, form: Form) -> bool {
    &&& p.title@ == form@.title
    &&& p.timeout_seconds == crate::form::PROMPT_TIMEOUT_SECONDS
    &&& p.fields@.len() == form@.fields.len()
    &&& (forall|i: int| 0 <= i < p.fields@.len() ==> is_prompt_of(
        #[trigger] p.fields@[i],
        form@.fields[i],
    ))
}

/// Composes the published result of `form` for the submitted answers:
/// mention and description as the form carries them, then each field's
/// label paired with the answer at its position.
pub fn compose_result(form: &Form, answers: &Vec<String>) -> (r: ComposedMessage)
    ensures
        is_composed_of(r, *form, answers@),
{
    let fields = form.fields();
    let n = if fields.len() <= answers.len() {
        fields.len()
    } else {
        answers.len()
    };
    let mut entries: Vec<ResultEntry> = Vec::new();
    let mut i: usize = 0;
    while i < n
        invariant
            n <= fields@.len(),
            n <= answers@.len(),
            fields@ == form@.fields,
            i <= n,
            entries@.len() == i,
            forall|j: int| 0 <= j < i ==> {
                &&& (#[trigger] entries@[j]).label@ == form@.fields[j].name@
                &&& entries@[j].value@ == answers@[j]@
                &&& entries@[j].inline == form@.fields[j].inline
            },
        decreases n - i,
    {
        let value = answers[i].clone();
        entries.push(fields[i].result_entry(value));
        i += 1;
    }
    ComposedMessage {
        mention: form.mention(),
        description: match form.description() {
            Some(d) => Some(String::from_str(d)),
            None => None,
        },
        entries,
    }
}

/// A form with no fields never reaches the prompt, a collected
/// submission, or a dispatched result: under the machine's invariant,
/// holding a loaded form without fields excludes those states, so the
/// dispatcher is never called for such a form — the flow ends at
/// `Misconfigured` instead.
pub proof fn lemma_empty_form_never_dispatched(m: Submission)
    requires
        m.wf(),
        m.spec_form() matches Some(f) && f@.fields.len() == 0,
    ensures
        !(m.spec_state() is Prompting),
        !(m.spec_state() is Collected),
        !(m.spec_state() is Dispatched),
{
}

} // verus!
