//! The pure session/checklist reducer: from a state and an action to the
//! next state and at most one effect. It owns the domain rules — at most
//! one active session, stop archives rather than deletes — and never
//! touches storage; the effect interpreter does.

use vstd::prelude::*;

use crate::session::{session_of_fm, Session, SessionModel};
use crate::storage::RealAethelStorage;
use crate::store::{doc_of, scan_active, session_pred, vault_contains};
use crate::StoreError;

verus! {

/// The reducer state: no session, or exactly one active session.
pub enum State {
    Idle,
    SessionActive { session: Session },
}

/// The mathematical form of the state.
pub enum StateModel {
    Idle,
    Active(SessionModel),
}

impl State {
    /// The state as a mathematical value.
    pub open spec fn model(self) -> StateModel {
        match self {
            State::Idle => StateModel::Idle,
            State::SessionActive { session } => StateModel::Active(session.model()),
        }
    }
}

/// One invocation's command.
pub enum Action {
    Start { goal: String, time: u64 },
    Stop,
    Analyze { path: String },
    CheckList,
    CheckToggle { id: String },
    GetSession,
}

/// The mathematical form of an action.
pub enum ActionModel {
    Start(Seq<char>, u64),
    Stop,
    Analyze(Seq<char>),
    CheckList,
    CheckToggle(Seq<char>),
    GetSession,
}

impl Action {
    /// The action as a mathematical value.
    pub open spec fn model(self) -> ActionModel {
        match self {
            Action::Start { goal, time } => ActionModel::Start(goal@, time),
            Action::Stop => ActionModel::Stop,
            Action::Analyze { path } => ActionModel::Analyze(path@),
            Action::CheckList => ActionModel::CheckList,
            Action::CheckToggle { id } => ActionModel::CheckToggle(id@),
            Action::GetSession => ActionModel::GetSession,
        }
    }
}

/// A side effect for the interpreter to run, decided but not performed.
pub enum Effect {
    CreateSession { session: Session },
    CreateReflection { session: Session },
    AnalyzeReflection { path: String },
    PrintError { message: String },
    LoadAndPrintChecklist,
    ToggleChecklistItem { id: String },
}

/// The mathematical form of an effect.
pub enum EffectModel {
    CreateSession(SessionModel),
    CreateReflection(SessionModel),
    Analyze(Seq<char>),
    PrintError(Seq<char>),
    LoadChecklist(),
    Toggle(Seq<char>),
}

impl Effect {
    /// The effect as a mathematical value.
    pub open spec fn model(self) -> EffectModel {
        match self {
            Effect::CreateSession { session } => EffectModel::CreateSession(session.model()),
            Effect::CreateReflection { session } => EffectModel::CreateReflection(session.model()),
            Effect::AnalyzeReflection { path } => EffectModel::Analyze(path@),
            Effect::PrintError { message } => EffectModel::PrintError(message@),
            Effect::LoadAndPrintChecklist => EffectModel::LoadChecklist(),
            Effect::ToggleChecklistItem { id } => EffectModel::Toggle(id@),
        }
    }
}

/// The model of an optional effect.
pub open spec fn opt_effect_model(e: Option<Effect>) -> Option<EffectModel> {
    match e {
        Some(eff) => Some(eff.model()),
        None => None,
    }
}

/// The full transition table. Starting from idle opens a session dated
/// `now` and asks for its creation; starting over an active session
/// changes nothing and reports the error. Stopping an active session
/// goes idle and asks for a reflection (which archives the session);
/// stopping idle reports the error. The remaining actions keep the
/// state and name their effect; reading the session has no effect.
pub open spec fn update_spec(s: StateModel, a: ActionModel, now: u64) -> (
    StateModel,
    Option<EffectModel>,
) {
    match a {
        ActionModel::Start(goal, time) => match s {
            StateModel::Idle => {
                let fresh = SessionModel {
                    goal: goal,
                    start_time: now,
                    time_expected: time,
                    reflection: None,
                };
                (StateModel::Active(fresh), Some(EffectModel::CreateSession(fresh)))
            },
            StateModel::Active(cur) => (
                StateModel::Active(cur),
                Some(EffectModel::PrintError("session already active"@)),
            ),
        },
        ActionModel::Stop => match s {
            StateModel::Active(cur) => (
                StateModel::Idle,
                Some(EffectModel::CreateReflection(cur)),
            ),
            StateModel::Idle => (
                StateModel::Idle,
                Some(EffectModel::PrintError("no active session"@)),
            ),
        },
        ActionModel::Analyze(path) => (s, Some(EffectModel::Analyze(path))),
        ActionModel::CheckList => (s, Some(EffectModel::LoadChecklist())),
        ActionModel::CheckToggle(id) => (s, Some(EffectModel::Toggle(id))),
        ActionModel::GetSession => (s, None),
    }
}

/// Apply one action: the executable reducer, equal to the transition
/// table on the models.
pub fn update(state: State, action: Action, now: u64) -> (r: (State, Option<Effect>))
    ensures
        (r.0.model(), opt_effect_model(r.1)) == update_spec(state.model(), action.model(), now),
{
    match action {
        Action::Start { goal, time } => match state {
            State::Idle => {
                let fresh = Session {
                    goal,
                    start_time: now,
                    time_expected: time,
                    reflection_file_path: None,
                };
                let copy = fresh.dup();
                (
                    State::SessionActive { session: fresh },
                    Some(Effect::CreateSession { session: copy }),
                )
            },
            State::SessionActive { session } => (
                State::SessionActive { session },
                Some(Effect::PrintError { message: "session already active".to_owned() }),
            ),
        },
        Action::Stop => match state {
            State::SessionActive { session } => (
                State::Idle,
                Some(Effect::CreateReflection { session }),
            ),
            State::Idle => (
                State::Idle,
                Some(Effect::PrintError { message: "no active session".to_owned() }),
            ),
        },
        Action::Analyze { path } => (state, Some(Effect::AnalyzeReflection { path })),
        Action::CheckList => (state, Some(Effect::LoadAndPrintChecklist)),
        Action::CheckToggle { id } => (state, Some(Effect::ToggleChecklistItem { id })),
        Action::GetSession => (state, None),
    }
}

impl RealAethelStorage {
    /// Reconstruct the reducer state at the start of an invocation: the
    /// active session document projected, or idle when none exists.
    pub fn load_state(&mut self) -> (r: Result<State, StoreError>)
        requires
            old(self).wf(),
        ensures
            final(self).wf(),
            final(self).vault == old(self).vault,
            match r {
                Ok(st) => match scan_active(old(self).vault.model()) {
                    None => st is Idle,
                    Some(id) => match st.model() {
                        StateModel::Active(sm) => session_of_fm(
                            doc_of(old(self).vault.model(), id).fm,
                        ) == Ok::<SessionModel, Seq<char>>(sm),
                        StateModel::Idle => false,
                    },
                },
                Err(e) => match scan_active(old(self).vault.model()) {
                    Some(id) => match e {
                        StoreError::MissingField { field } => session_of_fm(
                            doc_of(old(self).vault.model(), id).fm,
                        ) == Err::<SessionModel, Seq<char>>(field@),
                        _ => false,
                    },
                    None => false,
                },
            },
    {
        let found = self.find_active_session();
        match found {
            Some(id) => {
                proof {
                    crate::store::lemma_scan_min_char(self.vault.model(), session_pred());
                }
                match self.read_session(id) {
                    Ok(session) => Ok(State::SessionActive { session }),
                    Err(e) => {
                        proof {
                            assert(vault_contains(self.vault.model(), id));
                            assert(!(e is NotFound));
                        }
                        Err(e)
                    },
                }
            },
            None => Ok(State::Idle),
        }
    }
}

/// Starting from idle is the only transition that opens a session, and
/// it asks for exactly one `CreateSession` of exactly that session.
pub proof fn lemma_start_from_idle(goal: Seq<char>, time: u64, now: u64)
    ensures
        ({
            let (s, e) = update_spec(StateModel::Idle, ActionModel::Start(goal, time), now);
            let fresh = SessionModel { goal, start_time: now, time_expected: time, reflection: None };
            s == StateModel::Active(fresh) && e == Some(EffectModel::CreateSession(fresh))
        }),
{
}

} // verus!
