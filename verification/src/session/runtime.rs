//! The values that a session run exchanges, and its decisions: how a role
//! is prepared, how a reply concludes it, and how a run moves from the
//! primary role to its subtasks and to its result.

use std::sync::Arc;
use vstd::prelude::*;
use crate::agent::registry::{named, AgentRegistry};
use crate::agent::session::{Session, SessionId};
use crate::agent::spec::{
    names_of, resolve_model, resolve_tools, share, whole_secs, AgentBudgets, AgentSpec,
    AgentSpecView, ModelHandle,
};
use crate::session::prompt_builder::{build_prompt, prompt_text, ProjectContext};
use crate::tool::base::Tool;
use crate::util::error::{SessionError, SessionErrorView};
use crate::util::text::{
    clone_texts, decimal, from_chars, push_decimal, push_text, texts, trim, trimmed,
};
use crate::util::time::Duration;

verus! {

/// A step in the life of one role invocation, for observers.
#[derive(Debug)]
pub enum AgentEvent {
    Started { session_id: SessionId, agent: String, objective: String },
    Completed { session_id: SessionId, agent: String, summary: String },
}

/// The model of an `AgentEvent`.
pub enum AgentEventView {
    Started { session_id: SessionId, agent: Seq<char>, objective: Seq<char> },
    Completed { session_id: SessionId, agent: Seq<char>, summary: Seq<char> },
}

impl View for AgentEvent {
    type V = AgentEventView;

    open spec fn view(&self) -> AgentEventView {
        match self {
            AgentEvent::Started { session_id, agent, objective } => AgentEventView::Started {
                session_id: *session_id,
                agent: agent@,
                objective: objective@,
            },
            AgentEvent::Completed { session_id, agent, summary } => AgentEventView::Completed {
                session_id: *session_id,
                agent: agent@,
                summary: summary@,
            },
        }
    }
}

impl Clone for AgentEvent {
    fn clone(&self) -> (r: Self)
        ensures
            r@ == self@,
    {
        match self {
            AgentEvent::Started { session_id, agent, objective } => AgentEvent::Started {
                session_id: *session_id,
                agent: agent.clone(),
                objective: objective.clone(),
            },
            AgentEvent::Completed { session_id, agent, summary } => AgentEvent::Completed {
                session_id: *session_id,
                agent: agent.clone(),
                summary: summary.clone(),
            },
        }
    }
}

/// What the language model is asked for one role.
#[derive(Debug)]
pub struct CompletionRequest {
    pub agent: String,
    pub model: ModelHandle,
    pub prompt: String,
    pub objective: String,
    pub budgets: AgentBudgets,
    pub tool_names: Vec<String>,
}

/// The model of a `CompletionRequest`.
pub struct CompletionRequestView {
    pub agent: Seq<char>,
    pub model: Seq<char>,
    pub prompt: Seq<char>,
    pub objective: Seq<char>,
    pub budgets: AgentBudgets,
    pub tool_names: Seq<Seq<char>>,
}

impl View for CompletionRequest {
    type V = CompletionRequestView;

    open spec fn view(&self) -> CompletionRequestView {
        CompletionRequestView {
            agent: self.agent@,
            model: self.model@,
            prompt: self.prompt@,
            objective: self.objective@,
            budgets: self.budgets,
            tool_names: texts(self.tool_names@),
        }
    }
}

impl Clone for CompletionRequest {
    fn clone(&self) -> (r: Self)
        ensures
            r@ == self@,
    {
        CompletionRequest {
            agent: self.agent.clone(),
            model: self.model.clone(),
            prompt: self.prompt.clone(),
            objective: self.objective.clone(),
            budgets: self.budgets,
            tool_names: clone_texts(self.tool_names.as_slice()),
        }
    }
}

/// What the language model answers: a short summary, and the raw text.
#[derive(Debug)]
pub struct CompletionResponse {
    pub summary: String,
    pub raw_output: String,
}

impl Clone for CompletionResponse {
    fn clone(&self) -> (r: Self)
        ensures
            r.summary@ == self.summary@,
            r.raw_output@ == self.raw_output@,
    {
        CompletionResponse { summary: self.summary.clone(), raw_output: self.raw_output.clone() }
    }
}

/// The backend that completes requests. A failure carries its cause.
pub trait LanguageModel {
    fn complete(&self, request: CompletionRequest) -> Result<CompletionResponse, String>;
}

/// A backend that answers at once, from the request alone.
#[derive(Debug, Clone, Copy, Default)]
pub struct LocalModel;

impl LocalModel {
    /// The summary of the answer: who completed what, then each of the
    /// token limit and the tool timeout that is set.
    pub open spec fn summary(request: CompletionRequestView) -> Seq<char> {
        request.agent + " completed objective: "@ + trimmed(request.objective) + match request.budgets.max_tokens {
            Some(t) => " (limit "@ + decimal(t as nat) + " tokens)"@,
            None => Seq::empty(),
        } + match request.budgets.tool_timeout {
            Some(d) => " (tool timeout "@ + decimal(whole_secs(d)) + "s)"@,
            None => Seq::empty(),
        }
    }

    /// The answer to a request: the summary, and the prompt as raw output.
    pub fn respond(&self, request: CompletionRequest) -> (r: CompletionResponse)
        ensures
            r.summary@ == Self::summary(request@),
            r.raw_output@ == request@.prompt,
    {
        let mut out: Vec<char> = Vec::new();
        push_text(&mut out, request.agent.as_str());
        push_text(&mut out, " completed objective: ");
        let goal = trim(request.objective.as_str());
        push_text(&mut out, goal.as_str());
        if let Some(max_tokens) = request.budgets.max_tokens {
            push_text(&mut out, " (limit ");
            push_decimal(&mut out, max_tokens as u64);
            push_text(&mut out, " tokens)");
        }
        if let Some(timeout) = request.budgets.tool_timeout {
            push_text(&mut out, " (tool timeout ");
            push_decimal(&mut out, timeout.as_secs());
            push_text(&mut out, "s)");
        }
        assert(out@ =~= Self::summary(request@));
        CompletionResponse { summary: from_chars(out.as_slice()), raw_output: request.prompt }
    }
}

impl LanguageModel for LocalModel {
    fn complete(&self, request: CompletionRequest) -> (r: Result<CompletionResponse, String>)
        ensures
            r matches Ok(response) && response.summary@ == LocalModel::summary(request@)
                && response.raw_output@ == request@.prompt,
    {
        Ok(self.respond(request))
    }
}

/// A subtask of a session: the role to run and its objective.
#[derive(Debug)]
pub struct SubagentInvocation {
    pub agent: String,
    pub objective: String,
}

/// The model of a `SubagentInvocation`.
pub struct SubagentInvocationView {
    pub agent: Seq<char>,
    pub objective: Seq<char>,
}

impl View for SubagentInvocation {
    type V = SubagentInvocationView;

    open spec fn view(&self) -> SubagentInvocationView {
        SubagentInvocationView { agent: self.agent@, objective: self.objective@ }
    }
}

impl Clone for SubagentInvocation {
    fn clone(&self) -> (r: Self)
        ensures
            r@ == self@,
    {
        SubagentInvocation { agent: self.agent.clone(), objective: self.objective.clone() }
    }
}

impl SubagentInvocation {
    /// The subtask that runs `agent` on `objective`.
    pub fn new(agent: &str, objective: &str) -> (r: Self)
        ensures
            r@ == (SubagentInvocationView { agent: agent@, objective: objective@ }),
    {
        SubagentInvocation { agent: agent.to_owned(), objective: objective.to_owned() }
    }
}

/// The result of one completed role invocation.
#[derive(Debug)]
pub struct SubagentOutcome {
    pub agent: String,
    pub objective: String,
    pub session_id: SessionId,
    pub summary: String,
    pub model: ModelHandle,
    pub raw_output: String,
}

/// The model of a `SubagentOutcome`.
pub struct SubagentOutcomeView {
    pub agent: Seq<char>,
    pub objective: Seq<char>,
    pub session_id: SessionId,
    pub summary: Seq<char>,
    pub model: Seq<char>,
    pub raw_output: Seq<char>,
}

impl View for SubagentOutcome {
    type V = SubagentOutcomeView;

    open spec fn view(&self) -> SubagentOutcomeView {
        SubagentOutcomeView {
            agent: self.agent@,
            objective: self.objective@,
            session_id: self.session_id,
            summary: self.summary@,
            model: self.model@,
            raw_output: self.raw_output@,
        }
    }
}

impl Clone for SubagentOutcome {
    fn clone(&self) -> (r: Self)
        ensures
            r@ == self@,
    {
        SubagentOutcome {
            agent: self.agent.clone(),
            objective: self.objective.clone(),
            session_id: self.session_id,
            summary: self.summary.clone(),
            model: self.model.clone(),
            raw_output: self.raw_output.clone(),
        }
    }
}

/// The views of a sequence of outcomes.
pub open spec fn outcome_views(outcomes: Seq<SubagentOutcome>) -> Seq<SubagentOutcomeView> {
    outcomes.map_values(|o: SubagentOutcome| o@)
}

/// The views of a sequence of subtasks.
pub open spec fn invocation_views(subtasks: Seq<SubagentInvocation>) -> Seq<SubagentInvocationView> {
    subtasks.map_values(|s: SubagentInvocation| s@)
}

/// One objective for a primary role, with the subtasks to run after it.
#[derive(Debug)]
pub struct SessionRequest {
    pub agent: Option<String>,
    pub objective: String,
    pub subtasks: Vec<SubagentInvocation>,
}

impl SessionRequest {
    /// A request for the default role, without subtasks.
    pub fn new(objective: &str) -> (r: Self)
        ensures
            r.agent is None,
            r.objective@ == objective@,
            r.subtasks@.len() == 0,
    {
        SessionRequest { agent: None, objective: objective.to_owned(), subtasks: Vec::new() }
    }
}

/// The outcome of the primary role and those of the subtasks, in the order
/// in which they completed.
#[derive(Debug)]
pub struct SessionResult {
    pub primary: SubagentOutcome,
    pub subtasks: Vec<SubagentOutcome>,
}

/// The model of a `SessionResult`.
pub struct SessionResultView {
    pub primary: SubagentOutcomeView,
    pub subtasks: Seq<SubagentOutcomeView>,
}

impl View for SessionResult {
    type V = SessionResultView;

    open spec fn view(&self) -> SessionResultView {
        SessionResultView { primary: self.primary@, subtasks: outcome_views(self.subtasks@) }
    }
}


/// A role that has been prepared and whose reply is awaited.
pub struct RoleStep {
    pub session_id: SessionId,
    pub agent: String,
    pub objective: String,
    pub model: ModelHandle,
    pub tools: Vec<Arc<dyn Tool>>,
}

/// The model of a `RoleStep`.
pub struct RoleStepView {
    pub session_id: SessionId,
    pub agent: Seq<char>,
    pub objective: Seq<char>,
    pub model: Seq<char>,
    pub tools: Seq<Arc<dyn Tool>>,
}

impl View for RoleStep {
    type V = RoleStepView;

    open spec fn view(&self) -> RoleStepView {
        RoleStepView {
            session_id: self.session_id,
            agent: self.agent@,
            objective: self.objective@,
            model: self.model@,
            tools: self.tools@,
        }
    }
}

/// What the caller does for one prepared role: emit `started`, best
/// effort, then ask the backend for `request` and wait for at most
/// `deadline`. `slot` tells the reply's place: 0 for the primary role,
/// the subtask's position otherwise.
#[derive(Debug)]
pub struct RoleCall {
    pub slot: usize,
    pub started: AgentEvent,
    pub request: CompletionRequest,
    pub deadline: Duration,
}

/// The model of a `RoleCall`.
pub struct RoleCallView {
    pub slot: usize,
    pub started: AgentEventView,
    pub request: CompletionRequestView,
    pub deadline: Duration,
}

impl View for RoleCall {
    type V = RoleCallView;

    open spec fn view(&self) -> RoleCallView {
        RoleCallView {
            slot: self.slot,
            started: self.started@,
            request: self.request@,
            deadline: self.deadline,
        }
    }
}

/// How the wait for the backend ended.
#[derive(Debug)]
pub enum BackendReply {
    /// The backend answered in time.
    Completed(CompletionResponse),
    /// The backend failed; the text is the cause.
    Failed(String),
    /// The deadline elapsed first; the call was abandoned.
    TimedOut,
}

/// The deadline of a role without a wall-clock budget: sixty seconds.
pub open spec fn default_deadline() -> Duration {
    Duration::of_secs(60)
}

/// The names of the tools, in order.
pub open spec fn tool_names(tools: Seq<Arc<dyn Tool>>) -> Seq<Seq<char>> {
    tools.map_values(|t: Arc<dyn Tool>| t.spec_name())
}

/// The parent's tools that the role may use.
pub open spec fn permitted_tools(spec: AgentSpecView, parent_tools: Seq<Arc<dyn Tool>>) -> Seq<
    Arc<dyn Tool>,
> {
    parent_tools.filter(|t: Arc<dyn Tool>| spec.tool_rules.permits(t.spec_name()))
}

/// The prepared state of a role: its resolved model and tools, under the
/// session's identifier.
pub open spec fn planned_step(
    spec: AgentSpecView,
    objective: Seq<char>,
    parent_model: Seq<char>,
    parent_tools: Seq<Arc<dyn Tool>>,
    id: SessionId,
) -> RoleStepView {
    RoleStepView {
        session_id: id,
        agent: spec.name,
        objective,
        model: spec.resolved_model(parent_model),
        tools: permitted_tools(spec, parent_tools),
    }
}

/// The call for a role: the event that announces it, the request built
/// from its resolved model, its prompt, its budgets and the names of its
/// permitted tools, and its wall-clock budget or the default as deadline.
pub open spec fn planned_call(
    slot: usize,
    spec: AgentSpecView,
    rules: Seq<char>,
    objective: Seq<char>,
    parent_model: Seq<char>,
    parent_tools: Seq<Arc<dyn Tool>>,
    id: SessionId,
) -> RoleCallView {
    RoleCallView {
        slot,
        started: AgentEventView::Started { session_id: id, agent: spec.name, objective },
        request: CompletionRequestView {
            agent: spec.name,
            model: spec.resolved_model(parent_model),
            prompt: prompt_text(spec, rules, objective),
            objective,
            budgets: spec.budgets,
            tool_names: tool_names(permitted_tools(spec, parent_tools)),
        },
        deadline: match spec.budgets.wall_clock {
            Some(d) => d,
            None => default_deadline(),
        },
    }
}

/// The outcome of a role whose backend answered.
pub open spec fn outcome_of(step: RoleStepView, response: CompletionResponse) -> SubagentOutcomeView {
    SubagentOutcomeView {
        agent: step.agent,
        objective: step.objective,
        session_id: step.session_id,
        summary: response.summary@,
        model: step.model,
        raw_output: response.raw_output@,
    }
}

/// The event that reports a role's completion.
pub open spec fn completed_event(step: RoleStepView, response: CompletionResponse) -> AgentEventView {
    AgentEventView::Completed {
        session_id: step.session_id,
        agent: step.agent,
        summary: response.summary@,
    }
}

/// How a reply concludes a role: an answer gives its outcome, a failure
/// the `Backend` error with its cause, an elapsed deadline `Timeout`.
pub open spec fn concluded(step: RoleStepView, reply: BackendReply) -> Result<
    SubagentOutcomeView,
    SessionErrorView,
> {
    match reply {
        BackendReply::Completed(response) => Ok(outcome_of(step, response)),
        BackendReply::Failed(cause) => Err(SessionErrorView::Backend(cause@)),
        BackendReply::TimedOut => Err(SessionErrorView::Timeout),
    }
}

/// What a runtime shares between the roles of its runs: the project's
/// context, the registry, the base tools and the default model.
pub struct SessionRuntime {
    context: Arc<ProjectContext>,
    registry: Arc<AgentRegistry>,
    tools: Arc<Vec<Arc<dyn Tool>>>,
    default_model: ModelHandle,
}

impl Clone for SessionRuntime {
    fn clone(&self) -> (r: Self)
        ensures
            r.rules() == self.rules(),
            r.roles() == self.roles(),
            r.base_tools() == self.base_tools(),
            r.base_model() == self.base_model(),
    {
        SessionRuntime {
            context: share(&self.context),
            registry: share(&self.registry),
            tools: share(&self.tools),
            default_model: self.default_model.clone(),
        }
    }
}

impl SessionRuntime {
    /// The project rules that every prompt carries.
    pub closed spec fn rules(&self) -> Seq<char> {
        self.context.spec_rules()
    }

    /// The roles of the registry.
    pub closed spec fn roles(&self) -> Seq<AgentSpecView> {
        self.registry@
    }

    /// The tools that the primary role inherits.
    pub closed spec fn base_tools(&self) -> Seq<Arc<dyn Tool>> {
        self.tools@
    }

    /// The model that the primary role inherits.
    pub closed spec fn base_model(&self) -> Seq<char> {
        self.default_model@
    }

    /// A runtime over the given context, registry, base tools and model.
    pub fn new(
        context: Arc<ProjectContext>,
        registry: Arc<AgentRegistry>,
        tools: Vec<Arc<dyn Tool>>,
        default_model: ModelHandle,
    ) -> (r: Self)
        ensures
            r.rules() == context.spec_rules(),
            r.roles() == registry@,
            r.base_tools() == tools@,
            r.base_model() == default_model@,
    {
        SessionRuntime { context, registry, tools: Arc::new(tools), default_model }
    }

    /// Prepares one role: resolves its model and tools against the parent,
    /// builds its prompt and request, and fixes its deadline.
    pub fn prepare(
        &self,
        slot: usize,
        spec: &AgentSpec,
        objective: &str,
        parent_model: &ModelHandle,
        parent_tools: &[Arc<dyn Tool>],
        session: &Session,
    ) -> (r: (RoleStep, RoleCall))
        ensures
            r.0@ == planned_step(spec@, objective@, parent_model@, parent_tools@, session.spec_id()),
            r.1@ == planned_call(
                slot,
                spec@,
                self.rules(),
                objective@,
                parent_model@,
                parent_tools@,
                session.spec_id(),
            ),
    {
        let session_id = session.id();
        let model = resolve_model(spec, parent_model);
        let tools = resolve_tools(spec, parent_tools);
        let tool_names = names_of::<dyn Tool>(tools.as_slice());
        let prompt = build_prompt(spec, self.context.rules(), objective);
        let deadline = spec.budgets.wall_clock_or(Duration::from_secs(60));
        let started = AgentEvent::Started {
            session_id,
            agent: spec.name.clone(),
            objective: objective.to_owned(),
        };
        let request = CompletionRequest {
            agent: spec.name.clone(),
            model: model.clone(),
            prompt,
            objective: objective.to_owned(),
            budgets: spec.budgets,
            tool_names,
        };
        let step = RoleStep {
            session_id,
            agent: spec.name.clone(),
            objective: objective.to_owned(),
            model,
            tools,
        };
        (step, RoleCall { slot, started, request, deadline })
    }

    /// Concludes one role with the reply to its call. On an answer, the
    /// outcome comes with the event that reports it and with the role's
    /// tools, which its subtasks inherit.
    pub fn conclude(step: RoleStep, reply: BackendReply) -> (r: Result<
        (SubagentOutcome, AgentEvent, Vec<Arc<dyn Tool>>),
        SessionError,
    >)
        ensures
            match r {
                Ok((outcome, event, tools)) => concluded(step@, reply) == Ok::<
                    SubagentOutcomeView,
                    SessionErrorView,
                >(outcome@) && (reply matches BackendReply::Completed(response) && event@
                    == completed_event(step@, response)) && tools@ == step@.tools,
                Err(e) => concluded(step@, reply) == Err::<SubagentOutcomeView, SessionErrorView>(e@),
            },
    {
        match reply {
            BackendReply::Completed(response) => {
                let event = AgentEvent::Completed {
                    session_id: step.session_id,
                    agent: step.agent.clone(),
                    summary: response.summary.clone(),
                };
                let outcome = SubagentOutcome {
                    agent: step.agent,
                    objective: step.objective,
                    session_id: step.session_id,
                    summary: response.summary,
                    model: step.model,
                    raw_output: response.raw_output,
                };
                Ok((outcome, event, step.tools))
            },
            BackendReply::Failed(cause) => Err(SessionError::Backend(cause)),
            BackendReply::TimedOut => Err(SessionError::Timeout),
        }
    }
}


/// Where a run stands.
pub enum SessionState {
    /// The primary role was called; the subtasks wait for its outcome.
    AwaitingPrimary { subtasks: Vec<SubagentInvocation>, step: RoleStep },
    /// The primary role completed and every subtask was called. `steps`
    /// holds, by slot, the subtasks whose reply is still awaited; `done`
    /// holds the outcomes of the others, in the order of their completion.
    AwaitingSubtasks { primary: SubagentOutcome, steps: Vec<Option<RoleStep>>, done: Vec<SubagentOutcome> },
    /// The run ended, with its result or with the first failure.
    Finished(Result<SessionResult, SessionError>),
}

/// The model of a `SessionState`.
pub enum SessionStateView {
    AwaitingPrimary { subtasks: Seq<SubagentInvocationView>, step: RoleStepView },
    AwaitingSubtasks {
        primary: SubagentOutcomeView,
        steps: Seq<Option<RoleStepView>>,
        done: Seq<SubagentOutcomeView>,
    },
    Finished(Result<SessionResultView, SessionErrorView>),
}

/// The view of a slot.
pub open spec fn slot_view(slot: Option<RoleStep>) -> Option<RoleStepView> {
    match slot {
        Some(step) => Some(step@),
        None => None,
    }
}

/// The views of the slots.
pub open spec fn slot_views(steps: Seq<Option<RoleStep>>) -> Seq<Option<RoleStepView>> {
    steps.map_values(|slot: Option<RoleStep>| slot_view(slot))
}

/// The view of a run's end.
pub open spec fn end_view(end: Result<SessionResult, SessionError>) -> Result<
    SessionResultView,
    SessionErrorView,
> {
    match end {
        Ok(result) => Ok(result@),
        Err(e) => Err(e@),
    }
}

impl View for SessionState {
    type V = SessionStateView;

    open spec fn view(&self) -> SessionStateView {
        match self {
            SessionState::AwaitingPrimary { subtasks, step } => SessionStateView::AwaitingPrimary {
                subtasks: invocation_views(subtasks@),
                step: step@,
            },
            SessionState::AwaitingSubtasks { primary, steps, done } => SessionStateView::AwaitingSubtasks {
                primary: primary@,
                steps: slot_views(steps@),
                done: outcome_views(done@),
            },
            SessionState::Finished(end) => SessionStateView::Finished(end_view(*end)),
        }
    }
}

/// A reply that reaches a run.
#[derive(Debug)]
pub enum SessionEvent {
    /// The reply to the primary role's call.
    PrimaryReplied(BackendReply),
    /// The reply to the call of the subtask in this slot.
    SubtaskReplied { slot: usize, reply: BackendReply },
}

/// What a reply leads to: the next state, the calls to make now, and the
/// events to emit, best effort.
pub struct Transition {
    pub state: SessionState,
    pub calls: Vec<RoleCall>,
    pub events: Vec<AgentEvent>,
}

/// The model of a `Transition`.
pub struct TransitionView {
    pub state: SessionStateView,
    pub calls: Seq<RoleCallView>,
    pub events: Seq<AgentEventView>,
}

/// The views of a sequence of calls.
pub open spec fn call_views(calls: Seq<RoleCall>) -> Seq<RoleCallView> {
    calls.map_values(|c: RoleCall| c@)
}

/// The views of a sequence of events.
pub open spec fn event_views(events: Seq<AgentEvent>) -> Seq<AgentEventView> {
    events.map_values(|e: AgentEvent| e@)
}

impl View for Transition {
    type V = TransitionView;

    open spec fn view(&self) -> TransitionView {
        TransitionView {
            state: self.state@,
            calls: call_views(self.calls@),
            events: event_views(self.events@),
        }
    }
}

/// The position of the first subtask whose role the registry lacks.
pub open spec fn first_unknown(roles: Seq<AgentSpecView>, subtasks: Seq<SubagentInvocationView>) -> Option<
    int,
>
    decreases subtasks.len(),
{
    if subtasks.len() == 0 {
        None
    } else {
        match first_unknown(roles, subtasks.drop_last()) {
            Some(k) => Some(k),
            None => if named(roles, subtasks.last().agent) is None {
                Some(subtasks.len() - 1)
            } else {
                None
            },
        }
    }
}

/// The state that a reply leaves as it is, with nothing to do.
pub open spec fn stay(state: SessionStateView) -> TransitionView {
    TransitionView { state, calls: Seq::empty(), events: Seq::empty() }
}

/// The end of a run by a failure.
pub open spec fn fail(error: SessionErrorView) -> TransitionView {
    TransitionView {
        state: SessionStateView::Finished(Err(error)),
        calls: Seq::empty(),
        events: Seq::empty(),
    }
}

/// What the primary role's reply leads to. A failure ends the run. An
/// answer gives the primary outcome; then a subtask of an unknown role
/// ends the run with `UnknownAgent` before any subtask is called, no
/// subtask at all ends it with the result, and otherwise every subtask is
/// called, each under its own identifier, with the primary's resolved
/// model and tools as its parent context.
pub open spec fn after_primary(
    roles: Seq<AgentSpecView>,
    rules: Seq<char>,
    subtasks: Seq<SubagentInvocationView>,
    step: RoleStepView,
    reply: BackendReply,
    ids: Seq<SessionId>,
) -> TransitionView {
    match reply {
        BackendReply::Failed(cause) => fail(SessionErrorView::Backend(cause@)),
        BackendReply::TimedOut => fail(SessionErrorView::Timeout),
        BackendReply::Completed(response) => {
            let outcome = outcome_of(step, response);
            let events = seq![completed_event(step, response)];
            match first_unknown(roles, subtasks) {
                Some(k) => TransitionView {
                    state: SessionStateView::Finished(
                        Err(SessionErrorView::UnknownAgent(subtasks[k].agent)),
                    ),
                    calls: Seq::empty(),
                    events,
                },
                None => if subtasks.len() == 0 {
                    TransitionView {
                        state: SessionStateView::Finished(
                            Ok(SessionResultView { primary: outcome, subtasks: Seq::empty() }),
                        ),
                        calls: Seq::empty(),
                        events,
                    }
                } else {
                    TransitionView {
                        state: SessionStateView::AwaitingSubtasks {
                            primary: outcome,
                            steps: Seq::new(
                                subtasks.len(),
                                |k: int|
                                    Some(
                                        planned_step(
                                            named(roles, subtasks[k].agent)->0,
                                            subtasks[k].objective,
                                            step.model,
                                            step.tools,
                                            ids[k],
                                        ),
                                    ),
                            ),
                            done: Seq::empty(),
                        },
                        calls: Seq::new(
                            subtasks.len(),
                            |k: int|
                                planned_call(
                                    k as usize,
                                    named(roles, subtasks[k].agent)->0,
                                    rules,
                                    subtasks[k].objective,
                                    step.model,
                                    step.tools,
                                    ids[k],
                                ),
                        ),
                        events,
                    }
                },
            }
        },
    }
}

/// Whether no slot awaits a reply.
pub open spec fn all_collected(steps: Seq<Option<RoleStepView>>) -> bool {
    forall|k: int| 0 <= k < steps.len() ==> (#[trigger] steps[k]) is None
}

/// What a subtask's reply leads to. A reply for a slot that awaits none
/// changes nothing. A failure ends the run at once, and with it the wait
/// for the other subtasks, whose outcomes are dropped. An answer adds the
/// outcome behind those that completed before; the last one ends the run
/// with the result.
pub open spec fn after_subtask(
    primary: SubagentOutcomeView,
    steps: Seq<Option<RoleStepView>>,
    done: Seq<SubagentOutcomeView>,
    slot: usize,
    reply: BackendReply,
) -> TransitionView {
    if slot >= steps.len() || steps[slot as int] is None {
        stay(SessionStateView::AwaitingSubtasks { primary, steps, done })
    } else {
        let step = steps[slot as int]->0;
        match reply {
            BackendReply::Failed(cause) => fail(SessionErrorView::Backend(cause@)),
            BackendReply::TimedOut => fail(SessionErrorView::Timeout),
            BackendReply::Completed(response) => {
                let left = steps.update(slot as int, None);
                let collected = done.push(outcome_of(step, response));
                TransitionView {
                    state: if all_collected(left) {
                        SessionStateView::Finished(
                            Ok(SessionResultView { primary, subtasks: collected }),
                        )
                    } else {
                        SessionStateView::AwaitingSubtasks { primary, steps: left, done: collected }
                    },
                    calls: Seq::empty(),
                    events: seq![completed_event(step, response)],
                }
            },
        }
    }
}

/// What a reply leads to in a state. A reply that the state does not
/// await (one for the primary role once it has replied, one for a subtask
/// before it was called, any reply after the end) changes nothing.
pub open spec fn next(
    roles: Seq<AgentSpecView>,
    rules: Seq<char>,
    state: SessionStateView,
    event: SessionEvent,
    ids: Seq<SessionId>,
) -> TransitionView {
    match (state, event) {
        (
            SessionStateView::AwaitingPrimary { subtasks, step },
            SessionEvent::PrimaryReplied(reply),
        ) => after_primary(roles, rules, subtasks, step, reply, ids),
        (
            SessionStateView::AwaitingSubtasks { primary, steps, done },
            SessionEvent::SubtaskReplied { slot, reply },
        ) => after_subtask(primary, steps, done, slot, reply),
        _ => stay(state),
    }
}

/// The number of fresh identifiers that a reply may need in a state: one
/// for each subtask while the primary role is awaited.
pub open spec fn ids_needed(state: SessionStateView) -> nat {
    match state {
        SessionStateView::AwaitingPrimary { subtasks, step } => subtasks.len(),
        _ => 0,
    }
}

/// The identifiers of the sessions.
pub open spec fn session_ids(sessions: Seq<Session>) -> Seq<SessionId> {
    sessions.map_values(|s: Session| s.spec_id())
}

/// The name of the role that a request asks for: its own, or the default.
pub open spec fn requested_agent(agent: Option<String>) -> Seq<char> {
    match agent {
        Some(name) => name@,
        None => "primary"@,
    }
}


/// Where no subtask of a prefix is unknown and the next one is, that one
/// is the first unknown subtask of the whole.
pub proof fn lemma_first_unknown_at(
    roles: Seq<AgentSpecView>,
    subtasks: Seq<SubagentInvocationView>,
    k: int,
)
    requires
        0 <= k < subtasks.len(),
        first_unknown(roles, subtasks.subrange(0, k)) is None,
        named(roles, subtasks[k].agent) is None,
    ensures
        first_unknown(roles, subtasks) == Some(k),
    decreases subtasks.len(),
{
    if k == subtasks.len() - 1 {
        assert(subtasks.drop_last() =~= subtasks.subrange(0, k));
    } else {
        assert(subtasks.drop_last().subrange(0, k) =~= subtasks.subrange(0, k));
        lemma_first_unknown_at(roles, subtasks.drop_last(), k);
    }
}

/// Where no subtask of a prefix is unknown and the next one is known, no
/// subtask of the prefix that includes it is unknown.
pub proof fn lemma_first_unknown_grow(
    roles: Seq<AgentSpecView>,
    subtasks: Seq<SubagentInvocationView>,
    k: int,
)
    requires
        0 <= k < subtasks.len(),
        first_unknown(roles, subtasks.subrange(0, k)) is None,
        named(roles, subtasks[k].agent) is Some,
    ensures
        first_unknown(roles, subtasks.subrange(0, k + 1)) is None,
{
    assert(subtasks.subrange(0, k + 1).drop_last() =~= subtasks.subrange(0, k));
}

impl SessionRuntime {
    /// Concludes one role from a reference to its prepared state.
    pub fn conclude_outcome(step: &RoleStep, reply: BackendReply) -> (r: Result<
        (SubagentOutcome, AgentEvent),
        SessionError,
    >)
        ensures
            match r {
                Ok((outcome, event)) => concluded(step@, reply) == Ok::<
                    SubagentOutcomeView,
                    SessionErrorView,
                >(outcome@) && (reply matches BackendReply::Completed(response) && event@
                    == completed_event(step@, response)),
                Err(e) => concluded(step@, reply) == Err::<SubagentOutcomeView, SessionErrorView>(e@),
            },
    {
        match reply {
            BackendReply::Completed(response) => {
                let event = AgentEvent::Completed {
                    session_id: step.session_id,
                    agent: step.agent.clone(),
                    summary: response.summary.clone(),
                };
                let outcome = SubagentOutcome {
                    agent: step.agent.clone(),
                    objective: step.objective.clone(),
                    session_id: step.session_id,
                    summary: response.summary,
                    model: step.model.clone(),
                    raw_output: response.raw_output,
                };
                Ok((outcome, event))
            },
            BackendReply::Failed(cause) => Err(SessionError::Backend(cause)),
            BackendReply::TimedOut => Err(SessionError::Timeout),
        }
    }

    /// Begins a run: resolves the requested role, or the default one, and
    /// prepares it as the primary role under the base model and tools.
    /// Fails with `UnknownAgent` where the registry lacks the role; a
    /// request that names no role always begins, since every registry
    /// holds the default role.
    pub fn start(&self, request: SessionRequest, session: &Session) -> (r: Result<
        (SessionState, RoleCall),
        SessionError,
    >)
        ensures
            match named(self.roles(), requested_agent(request.agent)) {
                Some(spec) => r matches Ok((state, call)) && state@
                    == (SessionStateView::AwaitingPrimary {
                    subtasks: invocation_views(request.subtasks@),
                    step: planned_step(
                        spec,
                        request.objective@,
                        self.base_model(),
                        self.base_tools(),
                        session.spec_id(),
                    ),
                }) && call@ == planned_call(
                    0,
                    spec,
                    self.rules(),
                    request.objective@,
                    self.base_model(),
                    self.base_tools(),
                    session.spec_id(),
                ),
                None => r matches Err(e) && e@ == SessionErrorView::UnknownAgent(
                    requested_agent(request.agent),
                ),
            },
            request.agent is None ==> r is Ok,
    {
        let found = match &request.agent {
            Some(name) => self.registry.require_spec(name.as_str()),
            None => self.registry.require_spec(self.registry.default_agent_name()),
        };
        match found {
            Ok(spec) => {
                let (step, call) = self.prepare(
                    0,
                    &spec,
                    request.objective.as_str(),
                    &self.default_model,
                    self.tools.as_slice(),
                    session,
                );
                Ok((SessionState::AwaitingPrimary { subtasks: request.subtasks, step }, call))
            },
            Err(e) => Err(e),
        }
    }

    fn primary_replied(
        &self,
        subtasks: Vec<SubagentInvocation>,
        step: RoleStep,
        reply: BackendReply,
        sessions: &[Session],
    ) -> (r: Transition)
        requires
            subtasks@.len() <= sessions@.len(),
        ensures
            r@ == after_primary(
                self.roles(),
                self.rules(),
                invocation_views(subtasks@),
                step@,
                reply,
                session_ids(sessions@),
            ),
    {
        let ghost before = step@;
        let ghost tasks = invocation_views(subtasks@);
        let ghost ids = session_ids(sessions@);
        match Self::conclude(step, reply) {
            Err(e) => {
                let r = Transition {
                    state: SessionState::Finished(Err(e)),
                    calls: Vec::new(),
                    events: Vec::new(),
                };
                assert(r@.calls =~= Seq::empty() && r@.events =~= Seq::empty());
                r
            },
            Ok((outcome, event, tools)) => {
                let mut events: Vec<AgentEvent> = Vec::new();
                events.push(event);
                assert(event_views(events@) =~= seq![event@]);
                let mut steps: Vec<Option<RoleStep>> = Vec::new();
                let mut calls: Vec<RoleCall> = Vec::new();
                let mut k: usize = 0;
                assert(tasks.subrange(0, 0) =~= Seq::empty());
                while k < subtasks.len()
                    invariant
                        k <= subtasks@.len(),
                        subtasks@.len() <= sessions@.len(),
                        tasks == invocation_views(subtasks@),
                        ids == session_ids(sessions@),
                        before == step@,
                        outcome@.model == before.model,
                        tools@ == before.tools,
                        reply matches BackendReply::Completed(response) && outcome@ == outcome_of(
                            before,
                            response,
                        ) && event_views(events@) == seq![completed_event(before, response)],
                        first_unknown(self.roles(), tasks.subrange(0, k as int)) is None,
                        slot_views(steps@) =~= Seq::new(
                            k as nat,
                            |j: int|
                                Some(
                                    planned_step(
                                        named(self.roles(), tasks[j].agent)->0,
                                        tasks[j].objective,
                                        before.model,
                                        before.tools,
                                        ids[j],
                                    ),
                                ),
                        ),
                        call_views(calls@) =~= Seq::new(
                            k as nat,
                            |j: int|
                                planned_call(
                                    j as usize,
                                    named(self.roles(), tasks[j].agent)->0,
                                    self.rules(),
                                    tasks[j].objective,
                                    before.model,
                                    before.tools,
                                    ids[j],
                                ),
                        ),
                    decreases subtasks@.len() - k,
                {
                    match self.registry.require_spec(subtasks[k].agent.as_str()) {
                        Err(e) => {
                            proof {
                                assert(tasks[k as int] == subtasks@[k as int]@);
                                lemma_first_unknown_at(self.roles(), tasks, k as int);
                            }
                            let r = Transition {
                                state: SessionState::Finished(Err(e)),
                                calls: Vec::new(),
                                events,
                            };
                            assert(r@.calls =~= Seq::empty());
                            return r;
                        },
                        Ok(spec) => {
                            proof {
                                assert(tasks[k as int] == subtasks@[k as int]@);
                                assert(ids[k as int] == sessions@[k as int].spec_id());
                                lemma_first_unknown_grow(self.roles(), tasks, k as int);
                            }
                            let ghost old_steps = slot_views(steps@);
                            let ghost old_calls = call_views(calls@);
                            let (next_step, call) = self.prepare(
                                k,
                                &spec,
                                subtasks[k].objective.as_str(),
                                &outcome.model,
                                tools.as_slice(),
                                &sessions[k],
                            );
                            steps.push(Some(next_step));
                            calls.push(call);
                            proof {
                                assert(slot_views(steps@) =~= old_steps.push(Some(next_step@)));
                                assert(call_views(calls@) =~= old_calls.push(call@));
                            }
                        },
                    }
                    k += 1;
                }
                assert(tasks.subrange(0, tasks.len() as int) =~= tasks);
                if subtasks.len() == 0 {
                    let r = Transition {
                        state: SessionState::Finished(
                            Ok(SessionResult { primary: outcome, subtasks: Vec::new() }),
                        ),
                        calls: Vec::new(),
                        events,
                    };
                    assert(r@.calls =~= Seq::empty());
                    assert(outcome_views(Seq::<SubagentOutcome>::empty()) =~= Seq::empty());
                    r
                } else {
                    let r = Transition {
                        state: SessionState::AwaitingSubtasks {
                            primary: outcome,
                            steps,
                            done: Vec::new(),
                        },
                        calls,
                        events,
                    };
                    assert(outcome_views(Seq::<SubagentOutcome>::empty()) =~= Seq::empty());
                    r
                }
            },
        }
    }

    fn subtask_replied(
        primary: SubagentOutcome,
        steps: Vec<Option<RoleStep>>,
        done: Vec<SubagentOutcome>,
        slot: usize,
        reply: BackendReply,
    ) -> (r: Transition)
        ensures
            r@ == after_subtask(primary@, slot_views(steps@), outcome_views(done@), slot, reply),
    {
        let mut steps = steps;
        let mut done = done;
        let ghost before = slot_views(steps@);
        let ghost collected = outcome_views(done@);
        let awaited = slot < steps.len() && steps[slot].is_some();
        if !awaited {
            let r = Transition {
                state: SessionState::AwaitingSubtasks { primary, steps, done },
                calls: Vec::new(),
                events: Vec::new(),
            };
            assert(r@.calls =~= Seq::empty() && r@.events =~= Seq::empty());
            return r;
        }
        let concluded = match &steps[slot] {
            Some(step) => Self::conclude_outcome(step, reply),
            None => Err(SessionError::Timeout),
        };
        match concluded {
            Err(e) => {
                let r = Transition {
                    state: SessionState::Finished(Err(e)),
                    calls: Vec::new(),
                    events: Vec::new(),
                };
                assert(r@.calls =~= Seq::empty() && r@.events =~= Seq::empty());
                r
            },
            Ok((outcome, event)) => {
                steps.set(slot, None);
                assert(slot_views(steps@) =~= before.update(slot as int, None));
                done.push(outcome);
                assert(outcome_views(done@) =~= collected.push(outcome@));
                let mut events: Vec<AgentEvent> = Vec::new();
                events.push(event);
                assert(event_views(events@) =~= seq![event@]);
                let mut k: usize = 0;
                let mut pending = false;
                while k < steps.len() && !pending
                    invariant
                        k <= steps@.len(),
                        pending ==> !all_collected(slot_views(steps@)),
                        !pending ==> forall|j: int|
                            0 <= j < k ==> (#[trigger] slot_views(steps@)[j]) is None,
                    decreases steps@.len() - k + if pending { 0int } else { 1int },
                {
                    if steps[k].is_some() {
                        assert(slot_views(steps@)[k as int] is Some);
                        pending = true;
                    } else {
                        k += 1;
                    }
                }
                let state = if pending {
                    SessionState::AwaitingSubtasks { primary, steps, done }
                } else {
                    SessionState::Finished(Ok(SessionResult { primary, subtasks: done }))
                };
                let r = Transition { state, calls: Vec::new(), events };
                assert(r@.calls =~= Seq::empty());
                r
            },
        }
    }

    /// Moves a run on by one reply; `sessions` supplies the identifiers
    /// under which subtasks are called, one for each.
    pub fn step_with(&self, state: SessionState, event: SessionEvent, sessions: &[Session]) -> (r:
        Transition)
        requires
            ids_needed(state@) <= sessions@.len(),
        ensures
            r@ == next(self.roles(), self.rules(), state@, event, session_ids(sessions@)),
    {
        match (state, event) {
            (SessionState::AwaitingPrimary { subtasks, step }, SessionEvent::PrimaryReplied(reply)) => {
                self.primary_replied(subtasks, step, reply, sessions)
            },
            (
                SessionState::AwaitingSubtasks { primary, steps, done },
                SessionEvent::SubtaskReplied { slot, reply },
            ) => Self::subtask_replied(primary, steps, done, slot, reply),
            (state, _) => {
                let r = Transition { state, calls: Vec::new(), events: Vec::new() };
                assert(r@.calls =~= Seq::empty() && r@.events =~= Seq::empty());
                r
            },
        }
    }

    /// Moves a run on by one reply, calling subtasks under freshly drawn
    /// random identifiers.
    pub fn step(&self, state: SessionState, event: SessionEvent) -> (r: Transition)
        ensures
            exists|ids: Seq<SessionId>|
                ids.len() == ids_needed(state@) && (forall|k: int|
                    0 <= k < ids.len() ==> (#[trigger] ids[k]).is_random()) && r@ == next(
                    self.roles(),
                    self.rules(),
                    state@,
                    event,
                    ids,
                ),
    {
        let needed = match &state {
            SessionState::AwaitingPrimary { subtasks, step } => subtasks.len(),
            _ => 0,
        };
        let mut sessions: Vec<Session> = Vec::new();
        while sessions.len() < needed
            invariant
                sessions@.len() <= needed,
                forall|k: int|
                    0 <= k < sessions@.len() ==> (#[trigger] sessions@[k]).spec_id().is_random(),
            decreases needed - sessions@.len(),
        {
            sessions.push(Session::new());
        }
        let r = self.step_with(state, event, sessions.as_slice());
        proof {
            let ids = session_ids(sessions@);
            assert(ids.len() == ids_needed(state@));
            assert forall|k: int| 0 <= k < ids.len() implies (#[trigger] ids[k]).is_random() by {
                assert(ids[k] == sessions@[k].spec_id());
            }
        }
        r
    }
}


/// The number of slots that await a reply.
pub open spec fn awaited(steps: Seq<Option<RoleStepView>>) -> nat
    decreases steps.len(),
{
    if steps.len() == 0 {
        0
    } else {
        awaited(steps.drop_last()) + if steps.last() is Some {
            1nat
        } else {
            0nat
        }
    }
}

/// Whether a state counts every subtask once: while subtasks are awaited,
/// each slot either awaits its reply or has given its outcome.
pub open spec fn counted_once(state: SessionStateView) -> bool {
    match state {
        SessionStateView::AwaitingSubtasks { primary, steps, done } => done.len() + awaited(steps)
            == steps.len(),
        _ => true,
    }
}

/// No slot awaits a reply exactly when the number of awaited slots is
/// zero, and taking the reply of an awaited slot lowers that number by one.
pub proof fn lemma_awaited(steps: Seq<Option<RoleStepView>>, slot: int)
    ensures
        all_collected(steps) <==> awaited(steps) == 0,
        0 <= slot < steps.len() && steps[slot] is Some ==> awaited(steps.update(slot, None)) + 1
            == awaited(steps),
        awaited(steps) <= steps.len(),
    decreases steps.len(),
{
    if steps.len() > 0 {
        let front = steps.drop_last();
        lemma_awaited(front, slot);
        assert(forall|k: int| 0 <= k < front.len() ==> front[k] == steps[k]);
        if 0 <= slot < steps.len() && steps[slot] is Some {
            let left = steps.update(slot, None);
            if slot == steps.len() - 1 {
                assert(left.drop_last() =~= front);
            } else {
                assert(left.drop_last() =~= front.update(slot, None));
            }
        }
        if awaited(steps) == 0 {
            assert forall|k: int| 0 <= k < steps.len() implies (#[trigger] steps[k]) is None by {
                if k < front.len() {
                    assert(front[k] is None);
                }
            }
        }
    }
}

/// The run counts every subtask once. After the primary role's reply
/// every declared subtask awaits its reply, or the run has ended; a run
/// that ends with a result then declared no subtask. A subtask's reply
/// keeps the count, and a run that it ends with a result holds exactly
/// one outcome for each subtask that was called: no reply is counted
/// twice, and none that came late is counted at all.
pub proof fn lemma_subtasks_counted_once(
    roles: Seq<AgentSpecView>,
    rules: Seq<char>,
    state: SessionStateView,
    event: SessionEvent,
    ids: Seq<SessionId>,
)
    requires
        counted_once(state),
    ensures
        counted_once(next(roles, rules, state, event, ids).state),
        state matches SessionStateView::AwaitingPrimary { subtasks, step } ==> match next(
            roles,
            rules,
            state,
            event,
            ids,
        ).state {
            SessionStateView::AwaitingSubtasks { primary, steps, done } => steps.len()
                == subtasks.len() && done.len() == 0,
            SessionStateView::Finished(Ok(result)) => subtasks.len() == 0 && result.subtasks.len()
                == 0,
            _ => true,
        },
        state matches SessionStateView::AwaitingSubtasks { primary, steps, done } ==> match next(
            roles,
            rules,
            state,
            event,
            ids,
        ).state {
            SessionStateView::AwaitingSubtasks { primary: p, steps: left, done: more } => left.len()
                == steps.len(),
            SessionStateView::Finished(Ok(result)) => result.subtasks.len() == steps.len(),
            _ => true,
        },
{
    match (state, event) {
        (
            SessionStateView::AwaitingPrimary { subtasks, step },
            SessionEvent::PrimaryReplied(reply),
        ) => {
            let after = after_primary(roles, rules, subtasks, step, reply, ids).state;
            if let SessionStateView::AwaitingSubtasks { primary, steps, done } = after {
                lemma_all_awaited(steps);
            }
        },
        (
            SessionStateView::AwaitingSubtasks { primary, steps, done },
            SessionEvent::SubtaskReplied { slot, reply },
        ) => {
            lemma_awaited(steps, slot as int);
            if slot < steps.len() && steps[slot as int] is Some {
                lemma_awaited(steps.update(slot as int, None), slot as int);
            }
        },
        _ => {},
    }
}

/// Where every slot awaits a reply, the number of awaited slots is the
/// number of slots.
pub proof fn lemma_all_awaited(steps: Seq<Option<RoleStepView>>)
    requires
        forall|k: int| 0 <= k < steps.len() ==> (#[trigger] steps[k]) is Some,
    ensures
        awaited(steps) == steps.len(),
    decreases steps.len(),
{
    if steps.len() > 0 {
        let front = steps.drop_last();
        assert(forall|k: int| 0 <= k < front.len() ==> front[k] == steps[k]);
        lemma_all_awaited(front);
    }
}


/// A role that does not answer within its deadline ends the run with
/// `Timeout`, be it the primary role or a subtask that is awaited: the
/// run is over, it holds no result, not even the outcomes of the roles
/// that had finished, no further call is made and no event reports the
/// role as completed.
pub proof fn lemma_timeout_ends_run(
    roles: Seq<AgentSpecView>,
    rules: Seq<char>,
    state: SessionStateView,
    slot: usize,
    ids: Seq<SessionId>,
)
    ensures
        state is AwaitingPrimary ==> next(
            roles,
            rules,
            state,
            SessionEvent::PrimaryReplied(BackendReply::TimedOut),
            ids,
        ) == fail(SessionErrorView::Timeout),
        state matches SessionStateView::AwaitingSubtasks { primary, steps, done } && slot
            < steps.len() && steps[slot as int] is Some ==> next(
            roles,
            rules,
            state,
            SessionEvent::SubtaskReplied { slot, reply: BackendReply::TimedOut },
            ids,
        ) == fail(SessionErrorView::Timeout),
        fail(SessionErrorView::Timeout).state == SessionStateView::Finished(
            Err(SessionErrorView::Timeout),
        ),
        fail(SessionErrorView::Timeout).calls.len() == 0,
        fail(SessionErrorView::Timeout).events.len() == 0,
{
}

/// The deadline of a role's call is the role's wall-clock budget, and
/// sixty seconds where it has none.
pub proof fn lemma_deadline_is_budget(
    slot: usize,
    spec: AgentSpecView,
    rules: Seq<char>,
    objective: Seq<char>,
    parent_model: Seq<char>,
    parent_tools: Seq<Arc<dyn Tool>>,
    id: SessionId,
)
    ensures
        spec.budgets.wall_clock matches Some(d) ==> planned_call(
            slot,
            spec,
            rules,
            objective,
            parent_model,
            parent_tools,
            id,
        ).deadline == d,
        spec.budgets.wall_clock is None ==> planned_call(
            slot,
            spec,
            rules,
            objective,
            parent_model,
            parent_tools,
            id,
        ).deadline == Duration::of_secs(60),
{
}

} // verus!
