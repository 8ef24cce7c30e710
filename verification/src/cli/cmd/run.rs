//! What the `run` command decides: the objective it hands to the session,
//! the model it falls back to, and the report it prints.

use std::sync::Arc;
use vstd::prelude::*;
use crate::agent::base::{find_tool, first_tool};
use crate::tool::base::Tool;
use crate::agent::session::{hyphenated, lemma_text_form_unique, SessionId};
use crate::agent::spec::ModelHandle;
use crate::session::prompts::SessionPrompts;
use crate::session::runtime::{
    outcome_views, SessionResult, SessionResultView, SubagentOutcome, SubagentOutcomeView,
};
use crate::util::config::Info;
use crate::util::json::{
    find, item_views, lemma_item_views, lemma_view_parts, lookup, read_required_text,
    required_text, JsonValue, JsonView,
};
use crate::util::text::{
    from_chars, join, joined, lemma_texts_push, opt_text, push_joined, push_text, same_text, texts,
    trim, trimmed,
};

verus! {

/// How the result of a run is printed.
#[derive(Debug, Clone, Copy, PartialEq, Eq, Structural)]
pub enum OutputFormat {
    Default,
    Json,
}

/// The arguments of the `run` command.
#[derive(Debug)]
pub struct Run {
    /// Message to send.
    pub message: Vec<String>,
    /// The command to run; the message gives its arguments.
    pub command: Option<String>,
    /// Continue the last session.
    pub continue_session: bool,
    /// Session id to continue.
    pub session: Option<String>,
    /// Share the session.
    pub share: bool,
    /// Model to use, in the form provider/model.
    pub model: Option<String>,
    /// Agent to use.
    pub agent: Option<String>,
    /// Format of the output.
    pub format: OutputFormat,
    /// Files to attach to the message, as paths.
    pub file: Vec<String>,
    /// Path or JSON text of agents to merge at runtime.
    pub agents_json: Option<String>,
}

/// The model of a session when neither the command nor the configuration
/// names one.
pub open spec fn fallback_model() -> Seq<char> {
    "openai/gpt-4o"@
}

/// `text` with `addition` behind it, after a blank line where `text` is
/// not empty.
pub open spec fn with_paragraph(text: Seq<char>, addition: Seq<char>) -> Seq<char> {
    if text.len() > 0 {
        text + "\n\n"@ + addition
    } else {
        addition
    }
}

/// The objective of a run: the command with the message behind ` -- `, or
/// the message alone; then the attachments in brackets; then the reminder
/// of the agent `plan`, or that of the agent `build` when it continues a
/// session.
pub open spec fn objective_text(
    command: Option<Seq<char>>,
    files: Seq<Seq<char>>,
    agent: Option<Seq<char>>,
    continuing: bool,
    message: Seq<char>,
) -> Seq<char> {
    let asked = match command {
        Some(c) => if message.len() > 0 {
            c + " -- "@ + message
        } else {
            c
        },
        None => message,
    };
    let attached = if files.len() > 0 {
        asked + " [attachments: "@ + joined(files, ", "@) + "]"@
    } else {
        asked
    };
    if agent == Some("plan"@) {
        with_paragraph(attached, trimmed(SessionPrompts::plan_text()))
    } else if agent == Some("build"@) && continuing {
        with_paragraph(attached, trimmed(SessionPrompts::build_switch_text()))
    } else {
        attached
    }
}

impl Run {
    /// The words of the message with a space between them.
    pub fn joined_message(&self) -> (r: String)
        ensures
            r@ == joined(texts(self.message@), " "@),
    {
        join(self.message.as_slice(), " ")
    }

    /// Whether the command has something to run: a message or a command.
    pub fn has_input(&self) -> (r: bool)
        ensures
            r == (joined(texts(self.message@), " "@).len() > 0 || self.command is Some),
    {
        let message = self.joined_message();
        message.as_str().unicode_len() > 0 || self.command.is_some()
    }

    /// The model of the session: the command's, else the configuration's,
    /// else the fallback.
    pub fn default_model(&self, config: &Info) -> (r: ModelHandle)
        ensures
            r@ == match (self.model, config.model) {
                (Some(m), _) => m@,
                (None, Some(m)) => m@,
                (None, None) => fallback_model(),
            },
    {
        match (&self.model, &config.model) {
            (Some(m), _) => ModelHandle::new(m.as_str()),
            (None, Some(m)) => ModelHandle::new(m.as_str()),
            (None, None) => ModelHandle::new("openai/gpt-4o"),
        }
    }
}

/// The tool that a message calls directly: the first tool whose name is
/// the first word of the message.
pub open spec fn invoked_tool<T: Tool + ?Sized>(message: Seq<String>, tools: Seq<Arc<T>>) -> Option<
    int,
> {
    if message.len() == 0 {
        None
    } else {
        first_tool(tools, message[0]@)
    }
}

/// The position of the tool that a message calls directly, if it calls
/// one; the words behind the first are then the tool's arguments.
pub fn tool_invocation<T: Tool + ?Sized>(message: &[String], tools: &[Arc<T>]) -> (r: Option<usize>)
    ensures
        match r {
            Some(i) => invoked_tool(message@, tools@) == Some(i as int) && i < tools@.len(),
            None => invoked_tool(message@, tools@) is None,
        },
{
    if message.len() == 0 {
        return None;
    }
    find_tool(tools, message[0].as_str())
}

/// The objective that the command hands to the session.
pub fn build_objective(cmd: &Run, message: &str) -> (r: String)
    ensures
        r@ == objective_text(
            opt_text(cmd.command),
            texts(cmd.file@),
            opt_text(cmd.agent),
            cmd.continue_session,
            message@,
        ),
{
    let mut objective: Vec<char> = Vec::new();
    if let Some(command) = &cmd.command {
        push_text(&mut objective, command.as_str());
        if message.unicode_len() > 0 {
            push_text(&mut objective, " -- ");
            push_text(&mut objective, message);
        }
    } else {
        push_text(&mut objective, message);
    }
    if cmd.file.len() > 0 {
        push_text(&mut objective, " [attachments: ");
        push_joined(&mut objective, cmd.file.as_slice(), ", ");
        push_text(&mut objective, "]");
    }
    if let Some(agent) = &cmd.agent {
        if same_text(agent.as_str(), "plan") {
            if objective.len() > 0 {
                push_text(&mut objective, "\n\n");
            }
            let reminder = trim(SessionPrompts::plan_reminder());
            push_text(&mut objective, reminder.as_str());
        } else if same_text(agent.as_str(), "build") && cmd.continue_session {
            if objective.len() > 0 {
                push_text(&mut objective, "\n\n");
            }
            let reminder = trim(SessionPrompts::build_switch());
            push_text(&mut objective, reminder.as_str());
        }
    }
    assert(objective@ =~= objective_text(
        opt_text(cmd.command),
        texts(cmd.file@),
        opt_text(cmd.agent),
        cmd.continue_session,
        message@,
    ));
    from_chars(objective.as_slice())
}

/// The lines that report a result in the default format: the summary of
/// the primary role, then each subtask's summary behind its agent's name
/// in brackets.
pub open spec fn result_lines(result: SessionResultView) -> Seq<Seq<char>> {
    seq![result.primary.summary] + result.subtasks.map_values(
        |o: SubagentOutcomeView| "["@ + o.agent + "] "@ + o.summary,
    )
}

/// The lines that report a result in the default format.
pub fn render_result(result: &SessionResult) -> (r: Vec<String>)
    ensures
        texts(r@) == result_lines(result@),
{
    let mut lines: Vec<String> = Vec::new();
    let first = result.primary.summary.clone();
    proof {
        assert(texts(lines@) =~= Seq::empty());
        lemma_texts_push(lines@, first);
    }
    lines.push(first);
    let mut i: usize = 0;
    assert(texts(lines@) =~= seq![result@.primary.summary] + outcome_views(
        result.subtasks@.subrange(0, 0),
    ).map_values(|o: SubagentOutcomeView| "["@ + o.agent + "] "@ + o.summary));
    while i < result.subtasks.len()
        invariant
            i <= result.subtasks@.len(),
            texts(lines@) == seq![result@.primary.summary] + outcome_views(
                result.subtasks@.subrange(0, i as int),
            ).map_values(|o: SubagentOutcomeView| "["@ + o.agent + "] "@ + o.summary),
        decreases result.subtasks@.len() - i,
    {
        let outcome = &result.subtasks[i];
        let mut line: Vec<char> = Vec::new();
        push_text(&mut line, "[");
        push_text(&mut line, outcome.agent.as_str());
        push_text(&mut line, "] ");
        push_text(&mut line, outcome.summary.as_str());
        let text = from_chars(line.as_slice());
        proof {
            lemma_texts_push(lines@, text);
        }
        lines.push(text);
        i += 1;
        assert(texts(lines@) =~= seq![result@.primary.summary] + outcome_views(
            result.subtasks@.subrange(0, i as int),
        ).map_values(|o: SubagentOutcomeView| "["@ + o.agent + "] "@ + o.summary));
    }
    assert(result.subtasks@.subrange(0, result.subtasks@.len() as int) =~= result.subtasks@);
    lines
}

/// The report form of one outcome: every field as text.
#[derive(Debug)]
pub struct SubtaskReport {
    pub agent: String,
    pub objective: String,
    pub session_id: String,
    pub summary: String,
    pub model: String,
    pub raw_output: String,
}

/// The model of a `SubtaskReport`.
pub struct SubtaskReportView {
    pub agent: Seq<char>,
    pub objective: Seq<char>,
    pub session_id: Seq<char>,
    pub summary: Seq<char>,
    pub model: Seq<char>,
    pub raw_output: Seq<char>,
}

impl View for SubtaskReport {
    type V = SubtaskReportView;

    open spec fn view(&self) -> SubtaskReportView {
        SubtaskReportView {
            agent: self.agent@,
            objective: self.objective@,
            session_id: self.session_id@,
            summary: self.summary@,
            model: self.model@,
            raw_output: self.raw_output@,
        }
    }
}

/// The report form of an outcome: its texts as they are, its session
/// identifier in text form, its model by its identifier.
pub open spec fn reported(outcome: SubagentOutcomeView) -> SubtaskReportView {
    SubtaskReportView {
        agent: outcome.agent,
        objective: outcome.objective,
        session_id: hyphenated(outcome.session_id.value),
        summary: outcome.summary,
        model: outcome.model,
        raw_output: outcome.raw_output,
    }
}

/// The outcome that a report stands for, where its session identifier is
/// the text form of one.
pub open spec fn restored(report: SubtaskReportView) -> Option<SubagentOutcomeView> {
    if exists|v: u128| report.session_id == hyphenated(v) {
        let v = choose|v: u128| report.session_id == hyphenated(v);
        Some(
            SubagentOutcomeView {
                agent: report.agent,
                objective: report.objective,
                session_id: SessionId { value: v },
                summary: report.summary,
                model: report.model,
                raw_output: report.raw_output,
            },
        )
    } else {
        None
    }
}

/// The report of an outcome stands for that outcome: agent, objective,
/// session identifier, summary, model and raw output all come back.
pub proof fn lemma_report_round_trip(outcome: SubagentOutcomeView)
    ensures
        restored(reported(outcome)) == Some(outcome),
{
    let text = hyphenated(outcome.session_id.value);
    assert(exists|v: u128| text == hyphenated(v));
    let v = choose|v: u128| text == hyphenated(v);
    lemma_text_form_unique(v, outcome.session_id.value);
}

impl SubtaskReport {
    /// The report form of an outcome.
    pub fn from(outcome: &SubagentOutcome) -> (r: Self)
        ensures
            r@ == reported(outcome@),
    {
        SubtaskReport {
            agent: outcome.agent.clone(),
            objective: outcome.objective.clone(),
            session_id: outcome.session_id.to_string(),
            summary: outcome.summary.clone(),
            model: outcome.model.to_string(),
            raw_output: outcome.raw_output.clone(),
        }
    }

    /// The outcome that the report stands for, where its session
    /// identifier is the text form of one.
    pub fn to_outcome(&self) -> (r: Option<SubagentOutcome>)
        ensures
            match r {
                Some(outcome) => restored(self@) == Some(outcome@),
                None => restored(self@) is None,
            },
    {
        match SessionId::parse(self.session_id.as_str()) {
            Some(id) => Some(
                SubagentOutcome {
                    agent: self.agent.clone(),
                    objective: self.objective.clone(),
                    session_id: id,
                    summary: self.summary.clone(),
                    model: ModelHandle::new(self.model.as_str()),
                    raw_output: self.raw_output.clone(),
                },
            ),
            None => None,
        }
    }
}

/// The report form of a result.
#[derive(Debug)]
pub struct RunReport {
    pub primary: SubtaskReport,
    pub subtasks: Vec<SubtaskReport>,
}

/// The views of a sequence of reports.
pub open spec fn report_views(reports: Seq<SubtaskReport>) -> Seq<SubtaskReportView> {
    reports.map_values(|r: SubtaskReport| r@)
}

/// Whether every report stands for an outcome.
pub open spec fn all_restorable(reports: Seq<SubtaskReportView>) -> bool {
    forall|i: int| 0 <= i < reports.len() ==> restored(#[trigger] reports[i]) is Some
}

/// The result that a report stands for, where each of its parts stands
/// for an outcome.
pub open spec fn restored_result(primary: SubtaskReportView, subtasks: Seq<SubtaskReportView>) -> Option<
    SessionResultView,
> {
    if restored(primary) is Some && all_restorable(subtasks) {
        Some(
            SessionResultView {
                primary: restored(primary)->0,
                subtasks: subtasks.map_values(|r: SubtaskReportView| restored(r)->0),
            },
        )
    } else {
        None
    }
}

/// The report of a result stands for that result: the primary outcome and
/// every subtask outcome come back, in their order.
pub proof fn lemma_result_round_trip(result: SessionResultView)
    ensures
        restored_result(
            reported(result.primary),
            result.subtasks.map_values(|o: SubagentOutcomeView| reported(o)),
        ) == Some(result),
{
    let reports = result.subtasks.map_values(|o: SubagentOutcomeView| reported(o));
    lemma_report_round_trip(result.primary);
    assert forall|i: int| 0 <= i < reports.len() implies restored(#[trigger] reports[i]) == Some(
        result.subtasks[i],
    ) by {
        lemma_report_round_trip(result.subtasks[i]);
    }
    assert(reports.map_values(|r: SubtaskReportView| restored(r)->0) =~= result.subtasks);
}

impl RunReport {
    /// The report form of a result: that of the primary outcome, and those
    /// of the subtask outcomes in their order.
    pub fn from(result: &SessionResult) -> (r: Self)
        ensures
            r.primary@ == reported(result@.primary),
            report_views(r.subtasks@) == result@.subtasks.map_values(
                |o: SubagentOutcomeView| reported(o),
            ),
    {
        let mut subtasks: Vec<SubtaskReport> = Vec::new();
        let mut i: usize = 0;
        while i < result.subtasks.len()
            invariant
                i <= result.subtasks@.len(),
                report_views(subtasks@) == outcome_views(result.subtasks@.subrange(0, i as int)).map_values(
                    |o: SubagentOutcomeView| reported(o),
                ),
            decreases result.subtasks@.len() - i,
        {
            let report = SubtaskReport::from(&result.subtasks[i]);
            let ghost before = report_views(subtasks@);
            subtasks.push(report);
            i += 1;
            assert(report_views(subtasks@) =~= before.push(report@));
            assert(outcome_views(result.subtasks@.subrange(0, i as int)) =~= outcome_views(
                result.subtasks@.subrange(0, i - 1),
            ).push(result.subtasks@[i - 1]@));
            assert(report_views(subtasks@) =~= outcome_views(
                result.subtasks@.subrange(0, i as int),
            ).map_values(|o: SubagentOutcomeView| reported(o)));
        }
        assert(result.subtasks@.subrange(0, result.subtasks@.len() as int) =~= result.subtasks@);
        RunReport { primary: SubtaskReport::from(&result.primary), subtasks }
    }

    /// The result that the report stands for, where each of its parts
    /// stands for an outcome.
    pub fn to_result(&self) -> (r: Option<SessionResult>)
        ensures
            match r {
                Some(result) => restored_result(self.primary@, report_views(self.subtasks@)) == Some(
                    result@,
                ),
                None => restored_result(self.primary@, report_views(self.subtasks@)) is None,
            },
    {
        let primary = match self.primary.to_outcome() {
            Some(outcome) => outcome,
            None => {
                return None;
            },
        };
        let mut subtasks: Vec<SubagentOutcome> = Vec::new();
        let mut i: usize = 0;
        let ghost reports = report_views(self.subtasks@);
        while i < self.subtasks.len()
            invariant
                i <= self.subtasks@.len(),
                reports == report_views(self.subtasks@),
                restored(self.primary@) == Some(primary@),
                forall|k: int| 0 <= k < i ==> restored(#[trigger] reports[k]) is Some,
                outcome_views(subtasks@) == reports.subrange(0, i as int).map_values(
                    |r: SubtaskReportView| restored(r)->0,
                ),
            decreases self.subtasks@.len() - i,
        {
            let ghost before = outcome_views(subtasks@);
            match self.subtasks[i].to_outcome() {
                Some(outcome) => {
                    subtasks.push(outcome);
                    assert(outcome_views(subtasks@) =~= before.push(outcome@));
                    assert(reports[i as int] == self.subtasks@[i as int]@);
                    assert(reports.subrange(0, i + 1) =~= reports.subrange(0, i as int).push(
                        reports[i as int],
                    ));
                },
                None => {
                    assert(restored(reports[i as int]) is None);
                    return None;
                },
            }
            i += 1;
            assert(outcome_views(subtasks@) =~= reports.subrange(0, i as int).map_values(
                |r: SubtaskReportView| restored(r)->0,
            ));
        }
        assert(reports.subrange(0, reports.len() as int) =~= reports);
        Some(SessionResult { primary, subtasks })
    }
}


/// A report as a JSON object: its six texts under their names, in the
/// order of the names.
pub open spec fn report_json(report: SubtaskReportView) -> JsonView {
    JsonView::Object(
        seq![
            ("agent"@, JsonView::String(report.agent)),
            ("model"@, JsonView::String(report.model)),
            ("objective"@, JsonView::String(report.objective)),
            ("raw_output"@, JsonView::String(report.raw_output)),
            ("session_id"@, JsonView::String(report.session_id)),
            ("summary"@, JsonView::String(report.summary)),
        ],
    )
}

/// The report of a run as a JSON object: the primary report under
/// `primary`, the subtask reports as an array under `subtasks`.
pub open spec fn run_report_json(primary: SubtaskReportView, subtasks: Seq<SubtaskReportView>) -> JsonView {
    JsonView::Object(
        seq![
            ("primary"@, report_json(primary)),
            ("subtasks"@, JsonView::Array(subtasks.map_values(|r: SubtaskReportView| report_json(r)))),
        ],
    )
}

impl SubtaskReport {
    /// The report as a JSON object.
    pub fn to_json(&self) -> (r: JsonValue)
        ensures
            r@ == report_json(self@),
    {
        let mut members: Vec<(String, JsonValue)> = Vec::new();
        members.push(("agent".to_owned(), JsonValue::String(self.agent.clone())));
        members.push(("model".to_owned(), JsonValue::String(self.model.clone())));
        members.push(("objective".to_owned(), JsonValue::String(self.objective.clone())));
        members.push(("raw_output".to_owned(), JsonValue::String(self.raw_output.clone())));
        members.push(("session_id".to_owned(), JsonValue::String(self.session_id.clone())));
        members.push(("summary".to_owned(), JsonValue::String(self.summary.clone())));
        proof {
            crate::util::json::lemma_member_views(members@);
            assert(crate::util::json::member_views(members@) =~= report_json(self@)->Object_0);
        }
        JsonValue::Object(members)
    }
}

impl RunReport {
    /// The report as a JSON object.
    pub fn to_json(&self) -> (r: JsonValue)
        ensures
            r@ == run_report_json(self.primary@, report_views(self.subtasks@)),
    {
        let mut items: Vec<JsonValue> = Vec::new();
        let mut i: usize = 0;
        let ghost reports = report_views(self.subtasks@);
        while i < self.subtasks.len()
            invariant
                i <= self.subtasks@.len(),
                reports == report_views(self.subtasks@),
                item_views(items@) == reports.subrange(0, i as int).map_values(
                    |r: SubtaskReportView| report_json(r),
                ),
            decreases self.subtasks@.len() - i,
        {
            let item = self.subtasks[i].to_json();
            let ghost before = items@;
            items.push(item);
            proof {
                assert(items@.drop_last() =~= before);
                assert(reports.subrange(0, i + 1) =~= reports.subrange(0, i as int).push(
                    reports[i as int],
                ));
            }
            i += 1;
            assert(item_views(items@) =~= reports.subrange(0, i as int).map_values(
                |r: SubtaskReportView| report_json(r),
            ));
        }
        assert(reports.subrange(0, reports.len() as int) =~= reports);
        let mut members: Vec<(String, JsonValue)> = Vec::new();
        members.push(("primary".to_owned(), self.primary.to_json()));
        members.push(("subtasks".to_owned(), JsonValue::Array(items)));
        proof {
            crate::util::json::lemma_member_views(members@);
            assert(crate::util::json::member_views(members@) =~= run_report_json(
                self.primary@,
                reports,
            )->Object_0);
        }
        JsonValue::Object(members)
    }
}


/// The report that a JSON value reads as: an object with the six texts
/// under their names. Other members are ignored.
pub open spec fn report_read(value: JsonView) -> Option<SubtaskReportView> {
    match value {
        JsonView::Object(members) => match (
            required_text(lookup(members, "agent"@)),
            required_text(lookup(members, "objective"@)),
            required_text(lookup(members, "session_id"@)),
            required_text(lookup(members, "summary"@)),
            required_text(lookup(members, "model"@)),
            required_text(lookup(members, "raw_output"@)),
        ) {
            (
                Some(agent),
                Some(objective),
                Some(session_id),
                Some(summary),
                Some(model),
                Some(raw_output),
            ) => Some(
                SubtaskReportView { agent, objective, session_id, summary, model, raw_output },
            ),
            _ => None,
        },
        _ => None,
    }
}

/// The reports that the items of an array read as, where each reads as
/// one.
pub open spec fn reports_read(items: Seq<JsonView>) -> Option<Seq<SubtaskReportView>> {
    if forall|i: int| 0 <= i < items.len() ==> report_read(#[trigger] items[i]) is Some {
        Some(Seq::new(items.len(), |i: int| report_read(items[i])->0))
    } else {
        None
    }
}

/// The report of a run that a JSON value reads as: an object with the
/// primary report under `primary` and an array of reports under
/// `subtasks`.
pub open spec fn run_report_read(value: JsonView) -> Option<
    (SubtaskReportView, Seq<SubtaskReportView>),
> {
    match value {
        JsonView::Object(members) => match (
            lookup(members, "primary"@),
            lookup(members, "subtasks"@),
        ) {
            (Some(primary), Some(JsonView::Array(items))) => match (
                report_read(primary),
                reports_read(items),
            ) {
                (Some(p), Some(list)) => Some((p, list)),
                _ => None,
            },
            _ => None,
        },
        _ => None,
    }
}

/// The names of the six members of a report differ from one another.
proof fn lemma_member_names()
    ensures
        "agent"@ != "model"@,
        "agent"@ != "objective"@,
        "agent"@ != "raw_output"@,
        "agent"@ != "session_id"@,
        "agent"@ != "summary"@,
        "model"@ != "objective"@,
        "model"@ != "raw_output"@,
        "model"@ != "session_id"@,
        "model"@ != "summary"@,
        "objective"@ != "raw_output"@,
        "objective"@ != "session_id"@,
        "objective"@ != "summary"@,
        "raw_output"@ != "session_id"@,
        "raw_output"@ != "summary"@,
        "session_id"@ != "summary"@,
        "primary"@ != "subtasks"@,
{
    reveal_strlit("agent");
    reveal_strlit("model");
    reveal_strlit("objective");
    reveal_strlit("raw_output");
    reveal_strlit("session_id");
    reveal_strlit("summary");
    reveal_strlit("primary");
    reveal_strlit("subtasks");
    assert("agent"@.len() == 5 && "model"@.len() == 5 && "objective"@.len() == 9);
    assert("raw_output"@.len() == 10 && "session_id"@.len() == 10 && "summary"@.len() == 7);
    assert("primary"@.len() == 7 && "subtasks"@.len() == 8);
    assert("agent"@[0] == 'a' && "model"@[0] == 'm');
    assert("raw_output"@[0] == 'r' && "session_id"@[0] == 's');
    assert("summary"@[0] == 's' && "primary"@[0] == 'p');
}

/// Reading the JSON form of a report gives the report back.
pub proof fn lemma_report_json_round_trip(report: SubtaskReportView)
    ensures
        report_read(report_json(report)) == Some(report),
{
    lemma_member_names();
    reveal_with_fuel(lookup, 7);
    let members = report_json(report)->Object_0;
    assert(members.drop_first()[0] == members[1]);
    assert(members.drop_first().drop_first()[0] == members[2]);
    assert(members.drop_first().drop_first().drop_first()[0] == members[3]);
    assert(members.drop_first().drop_first().drop_first().drop_first()[0] == members[4]);
    assert(members.drop_first().drop_first().drop_first().drop_first().drop_first()[0]
        == members[5]);
}

/// Reading the JSON form of the report of a run gives the report back:
/// the primary report and every subtask report, in their order.
pub proof fn lemma_run_report_json_round_trip(
    primary: SubtaskReportView,
    subtasks: Seq<SubtaskReportView>,
)
    ensures
        run_report_read(run_report_json(primary, subtasks)) == Some((primary, subtasks)),
{
    lemma_member_names();
    reveal_with_fuel(lookup, 3);
    let members = run_report_json(primary, subtasks)->Object_0;
    assert(members.drop_first()[0] == members[1]);
    lemma_report_json_round_trip(primary);
    let items = subtasks.map_values(|r: SubtaskReportView| report_json(r));
    assert forall|i: int| 0 <= i < items.len() implies report_read(#[trigger] items[i]) == Some(
        subtasks[i],
    ) by {
        lemma_report_json_round_trip(subtasks[i]);
    }
    assert(Seq::new(items.len(), |i: int| report_read(items[i])->0) =~= subtasks);
}

impl SubtaskReport {
    /// Reads a report from its JSON form.
    pub fn from_json(value: &JsonValue) -> (r: Option<SubtaskReport>)
        ensures
            match r {
                Some(report) => report_read(value@) == Some(report@),
                None => report_read(value@) is None,
            },
    {
        proof {
            lemma_view_parts(*value);
        }
        match value {
            JsonValue::Object(members) => {
                let m = members.as_slice();
                match (
                    read_required_text(find(m, "agent")),
                    read_required_text(find(m, "objective")),
                    read_required_text(find(m, "session_id")),
                    read_required_text(find(m, "summary")),
                    read_required_text(find(m, "model")),
                    read_required_text(find(m, "raw_output")),
                ) {
                    (
                        Some(agent),
                        Some(objective),
                        Some(session_id),
                        Some(summary),
                        Some(model),
                        Some(raw_output),
                    ) => Some(
                        SubtaskReport { agent, objective, session_id, summary, model, raw_output },
                    ),
                    _ => None,
                }
            },
            _ => None,
        }
    }
}

impl RunReport {
    /// Reads the report of a run from its JSON form.
    pub fn from_json(value: &JsonValue) -> (r: Option<RunReport>)
        ensures
            match r {
                Some(report) => run_report_read(value@) == Some(
                    (report.primary@, report_views(report.subtasks@)),
                ),
                None => run_report_read(value@) is None,
            },
    {
        proof {
            lemma_view_parts(*value);
        }
        let members = match value {
            JsonValue::Object(members) => members,
            _ => {
                return None;
            },
        };
        let first = find(members.as_slice(), "primary");
        let rest = find(members.as_slice(), "subtasks");
        let (primary_value, items) = match (first, rest) {
            (Some(p), Some(JsonValue::Array(items))) => (p, items),
            _ => {
                return None;
            },
        };
        proof {
            lemma_view_parts(*rest.unwrap());
            lemma_item_views(items@);
        }
        let ghost all = item_views(items@);
        let primary = match SubtaskReport::from_json(primary_value) {
            Some(p) => p,
            None => {
                return None;
            },
        };
        let mut subtasks: Vec<SubtaskReport> = Vec::new();
        let mut i: usize = 0;
        while i < items.len()
            invariant
                i <= items@.len(),
                all == item_views(items@),
                all.len() == items@.len(),
                value@ matches JsonView::Object(m) && lookup(m, "primary"@) == Some(primary_value@)
                    && lookup(m, "subtasks"@) == Some(JsonView::Array(all)),
                report_read(primary_value@) == Some(primary@),
                subtasks@.len() == i,
                forall|k: int| 0 <= k < i ==> report_read(#[trigger] all[k]) == Some(subtasks@[k]@),
            decreases items@.len() - i,
        {
            proof {
                lemma_item_views(items@);
            }
            match SubtaskReport::from_json(&items[i]) {
                Some(report) => {
                    subtasks.push(report);
                },
                None => {
                    assert(report_read(all[i as int]) is None);
                    assert(reports_read(all) is None);
                    return None;
                },
            }
            i += 1;
        }
        proof {
            assert(reports_read(all) is Some);
            assert(report_views(subtasks@) =~= reports_read(all)->0);
        }
        Some(RunReport { primary, subtasks })
    }
}

} // verus!
