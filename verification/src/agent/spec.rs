//! Role specifications: what a named agent is, how overrides merge into it,
//! and how its model and tools resolve against a parent context.

use std::sync::Arc;
use vstd::prelude::*;
use crate::tool::base::Tool;
use crate::util::config::AgentConfig;
use crate::util::json::{
    collect_trimmed_strings, find, lemma_view_parts, lookup, member_views, opt_json,
    name_list, optional_natural, optional_text, read_name_list, read_optional_natural,
    read_optional_text, trimmed_strings, JsonValue, JsonView,
};
use crate::util::names::{sort_unique, sorted_unique, strictly_sorted};
use crate::util::text::{
    blank, clone_opt, clone_texts, decimal, opt_text, same_opt_text, same_texts, from_chars, is_blank, lemma_texts_push, push_decimal, push_text,
    same_text, texts,
};
use crate::util::time::Duration;

verus! {

/// The contexts in which a role may be selected.
#[derive(Debug, Clone, Copy, PartialEq, Eq, Structural)]
pub enum AgentMode {
    Primary,
    Subagent,
    All,
}

impl Default for AgentMode {
    fn default() -> (r: Self)
        ensures
            r == AgentMode::All,
    {
        AgentMode::All
    }
}

impl From<crate::util::config::AgentMode> for AgentMode {
    fn from(value: crate::util::config::AgentMode) -> (r: Self) {
        match value {
            crate::util::config::AgentMode::Primary => AgentMode::Primary,
            crate::util::config::AgentMode::Subagent => AgentMode::Subagent,
            crate::util::config::AgentMode::All => AgentMode::All,
        }
    }
}

impl vstd::std_specs::convert::FromSpecImpl<crate::util::config::AgentMode> for AgentMode {
    open spec fn obeys_from_spec() -> bool {
        true
    }

    open spec fn from_spec(value: crate::util::config::AgentMode) -> Self {
        AgentMode::of_config(value)
    }
}

impl AgentMode {
    /// The mode that a configured mode stands for: the one of the same name.
    pub open spec fn of_config(value: crate::util::config::AgentMode) -> AgentMode {
        match value {
            crate::util::config::AgentMode::Primary => AgentMode::Primary,
            crate::util::config::AgentMode::Subagent => AgentMode::Subagent,
            crate::util::config::AgentMode::All => AgentMode::All,
        }
    }

    /// Whether a query for `self` selects a role whose own mode is `own`:
    /// `All` selects every role, the other two select their own mode and `All`.
    pub open spec fn admits(self, own: AgentMode) -> bool {
        self == AgentMode::All || own == AgentMode::All || self == own
    }

    /// The mode that a lower-case name stands for.
    pub open spec fn named(name: Seq<char>) -> Option<AgentMode> {
        if name == "primary"@ {
            Some(AgentMode::Primary)
        } else if name == "subagent"@ {
            Some(AgentMode::Subagent)
        } else if name == "all"@ {
            Some(AgentMode::All)
        } else {
            None
        }
    }

    /// How an optional mode reads: missing or `null` is unset, one of the
    /// three names is that mode, anything else is malformed.
    pub open spec fn decoded(value: Option<JsonView>) -> Option<Option<AgentMode>> {
        match value {
            None => Some(None),
            Some(JsonView::Null) => Some(None),
            Some(JsonView::String(s)) => match AgentMode::named(s) {
                Some(m) => Some(Some(m)),
                None => None,
            },
            Some(_) => None,
        }
    }

    /// The mode that a lower-case name stands for.
    pub fn from_name(name: &str) -> (r: Option<AgentMode>)
        ensures
            r == AgentMode::named(name@),
    {
        if same_text(name, "primary") {
            Some(AgentMode::Primary)
        } else if same_text(name, "subagent") {
            Some(AgentMode::Subagent)
        } else if same_text(name, "all") {
            Some(AgentMode::All)
        } else {
            None
        }
    }

    /// Reads an optional mode.
    pub fn from_json(value: Option<&JsonValue>) -> (r: Option<Option<AgentMode>>)
        ensures
            r == AgentMode::decoded(opt_json(value)),
    {
        match value {
            None => Some(None),
            Some(JsonValue::Null) => Some(None),
            Some(JsonValue::String(s)) => match AgentMode::from_name(s.as_str()) {
                Some(m) => Some(Some(m)),
                None => None,
            },
            Some(_) => None,
        }
    }

    /// A query for `Primary` never selects a `Subagent` role, nor one for
    /// `Subagent` a `Primary` role; both select `All` roles, and a query for
    /// `All` selects every role.
    pub proof fn lemma_mode_table(own: AgentMode)
        ensures
            !AgentMode::Primary.admits(AgentMode::Subagent),
            !AgentMode::Subagent.admits(AgentMode::Primary),
            AgentMode::Primary.admits(AgentMode::All),
            AgentMode::Subagent.admits(AgentMode::All),
            AgentMode::Primary.admits(AgentMode::Primary),
            AgentMode::Subagent.admits(AgentMode::Subagent),
            AgentMode::All.admits(own),
    {
    }

    /// Whether a query for `self` selects a role whose own mode is `own`.
    pub fn selects(self, own: AgentMode) -> (r: bool)
        ensures
            r == self.admits(own),
    {
        match (self, own) {
            (AgentMode::All, _) => true,
            (AgentMode::Primary, AgentMode::All) => true,
            (AgentMode::Primary, AgentMode::Primary) => true,
            (AgentMode::Primary, AgentMode::Subagent) => false,
            (AgentMode::Subagent, AgentMode::All) => true,
            (AgentMode::Subagent, AgentMode::Subagent) => true,
            (AgentMode::Subagent, AgentMode::Primary) => false,
        }
    }
}

/// Explicit allow and deny lists of a runtime override.
#[derive(Debug, Default)]
pub struct AgentToolDefinition {
    pub allow: Vec<String>,
    pub deny: Vec<String>,
}

/// The model of an `AgentToolDefinition`.
pub struct AgentToolDefinitionView {
    pub allow: Seq<Seq<char>>,
    pub deny: Seq<Seq<char>>,
}

impl View for AgentToolDefinition {
    type V = AgentToolDefinitionView;

    open spec fn view(&self) -> AgentToolDefinitionView {
        AgentToolDefinitionView { allow: texts(self.allow@), deny: texts(self.deny@) }
    }
}

impl AgentToolDefinitionView {
    /// How a tool record reads: an object whose members `allow` and `deny`
    /// are each missing or an array of strings. Other members are ignored.
    pub open spec fn decoded(value: JsonView) -> Option<AgentToolDefinitionView> {
        match value {
            JsonView::Object(members) => match (
                name_list(lookup(members, "allow"@)),
                name_list(lookup(members, "deny"@)),
            ) {
                (Some(allow), Some(deny)) => Some(AgentToolDefinitionView { allow, deny }),
                _ => None,
            },
            _ => None,
        }
    }
}

impl AgentToolDefinition {
    /// Reads a tool record, or nothing where the value is not one.
    pub fn from_json(value: &JsonValue) -> (r: Option<Self>)
        ensures
            match r {
                Some(d) => AgentToolDefinitionView::decoded(value@) == Some(d@),
                None => AgentToolDefinitionView::decoded(value@) is None,
            },
    {
        proof {
            lemma_view_parts(*value);
        }
        match value {
            JsonValue::Object(members) => {
                let allow = read_name_list(find(members.as_slice(), "allow"));
                let deny = read_name_list(find(members.as_slice(), "deny"));
                match (allow, deny) {
                    (Some(allow), Some(deny)) => Some(AgentToolDefinition { allow, deny }),
                    _ => None,
                }
            },
            _ => None,
        }
    }
}

impl Clone for AgentToolDefinition {
    fn clone(&self) -> (r: Self)
        ensures
            r@ == self@,
    {
        AgentToolDefinition {
            allow: clone_texts(self.allow.as_slice()),
            deny: clone_texts(self.deny.as_slice()),
        }
    }
}

/// Which of the parent's tools a role may use. `allow` absent means every
/// parent tool; `deny` is applied after `allow`.
#[derive(Debug)]
pub struct ToolRules {
    allow: Option<Vec<String>>,
    deny: Vec<String>,
}

/// The model of `ToolRules`.
pub struct ToolRulesView {
    pub allow: Option<Seq<Seq<char>>>,
    pub deny: Seq<Seq<char>>,
}

impl ToolRulesView {
    /// The rules that inherit every parent tool.
    pub open spec fn inherit() -> ToolRulesView {
        ToolRulesView { allow: None, deny: Seq::empty() }
    }

    /// Both lists are strictly increasing, so sorted and free of duplicates.
    pub open spec fn well_formed(self) -> bool {
        &&& strictly_sorted(self.deny)
        &&& self.allow matches Some(list) ==> strictly_sorted(list)
    }

    /// Whether the rules let a tool of this name through: it is on the allow
    /// list where there is one, and not on the deny list.
    pub open spec fn permits(self, name: Seq<char>) -> bool {
        &&& self.allow matches Some(list) ==> list.contains(name)
        &&& !self.deny.contains(name)
    }

    /// The rules after an override with explicit lists: a non-empty list
    /// replaces the one it names, an empty list leaves it as it was.
    pub open spec fn with_definition(self, definition: AgentToolDefinitionView) -> ToolRulesView {
        ToolRulesView {
            allow: if definition.allow.len() > 0 {
                Some(sorted_unique(definition.allow))
            } else {
                self.allow
            },
            deny: if definition.deny.len() > 0 {
                sorted_unique(definition.deny)
            } else {
                self.deny
            },
        }
    }

    /// The rules after an override by switches: the names switched on replace
    /// the allow list if there are any, the names switched off the deny list.
    pub open spec fn with_map(self, entries: Seq<(String, bool)>) -> ToolRulesView {
        self.with_definition(
            AgentToolDefinitionView { allow: switched(entries, true), deny: switched(entries, false) },
        )
    }
}

/// The names of the entries whose switch equals `flag`, in order.
pub open spec fn switched(entries: Seq<(String, bool)>, flag: bool) -> Seq<Seq<char>>
    decreases entries.len(),
{
    if entries.len() == 0 {
        Seq::empty()
    } else if entries.last().1 == flag {
        switched(entries.drop_last(), flag).push(entries.last().0@)
    } else {
        switched(entries.drop_last(), flag)
    }
}

impl View for ToolRules {
    type V = ToolRulesView;

    closed spec fn view(&self) -> ToolRulesView {
        ToolRulesView {
            allow: match self.allow {
                Some(list) => Some(texts(list@)),
                None => None,
            },
            deny: texts(self.deny@),
        }
    }
}

impl Clone for ToolRules {
    fn clone(&self) -> (r: Self)
        ensures
            r@ == self@,
    {
        proof {
            use_type_invariant(self);
        }
        let allow = match &self.allow {
            Some(list) => Some(clone_texts(list.as_slice())),
            None => None,
        };
        ToolRules { allow, deny: clone_texts(self.deny.as_slice()) }
    }
}

impl PartialEq for ToolRules {
    fn eq(&self, other: &Self) -> (r: bool) {
        let allow = match (&self.allow, &other.allow) {
            (Some(a), Some(b)) => same_texts(a.as_slice(), b.as_slice()),
            (None, None) => true,
            _ => false,
        };
        allow && same_texts(self.deny.as_slice(), other.deny.as_slice())
    }
}

impl Eq for ToolRules {

}

impl vstd::std_specs::cmp::PartialEqSpecImpl for ToolRules {
    open spec fn obeys_eq_spec() -> bool {
        true
    }

    open spec fn eq_spec(&self, other: &Self) -> bool {
        self@ == other@
    }
}

impl Default for ToolRules {
    fn default() -> (r: Self)
        ensures
            r@ == ToolRulesView::inherit(),
    {
        ToolRules::inherit()
    }
}

impl ToolRules {
    #[verifier::type_invariant]
    spec fn lists_sorted(self) -> bool {
        self@.well_formed()
    }

    /// Rules that inherit every parent tool.
    pub fn inherit() -> (r: Self)
        ensures
            r@ == ToolRulesView::inherit(),
            r@.well_formed(),
    {
        let r = ToolRules { allow: None, deny: Vec::new() };
        assert(r@.deny =~= Seq::empty());
        r
    }

    /// The allow list, if there is one.
    pub fn allow_list(&self) -> (r: Option<&[String]>)
        ensures
            self@.well_formed(),
            match r {
                Some(list) => self@.allow == Some(texts(list@)),
                None => self@.allow is None,
            },
    {
        proof {
            use_type_invariant(self);
        }
        match &self.allow {
            Some(list) => Some(list.as_slice()),
            None => None,
        }
    }

    /// The deny list.
    pub fn deny_list(&self) -> (r: &[String])
        ensures
            self@.well_formed(),
            texts(r@) == self@.deny,
    {
        proof {
            use_type_invariant(self);
        }
        self.deny.as_slice()
    }

    /// Merges switches by tool name: the names switched on become the allow
    /// list, those switched off the deny list, each only if it is not empty.
    pub fn update_from_map(&mut self, map: &[(String, bool)])
        ensures
            final(self)@ == old(self)@.with_map(map@),
            final(self)@.well_formed(),
            switched(map@, true).len() > 0 ==> (final(self)@.allow matches Some(list)
                && crate::util::names::is_sorted_listing(list, switched(map@, true))),
            switched(map@, false).len() > 0 ==> crate::util::names::is_sorted_listing(
                final(self)@.deny,
                switched(map@, false),
            ),
    {
        proof {
            use_type_invariant(&*self);
        }
        let mut allow: Vec<String> = Vec::new();
        let mut deny: Vec<String> = Vec::new();
        let mut i: usize = 0;
        while i < map.len()
            invariant
                i <= map@.len(),
                texts(allow@) == switched(map@.subrange(0, i as int), true),
                texts(deny@) == switched(map@.subrange(0, i as int), false),
            decreases map@.len() - i,
        {
            proof {
                assert(map@.subrange(0, i + 1).drop_last() =~= map@.subrange(0, i as int));
            }
            let name = map[i].0.clone();
            if map[i].1 {
                proof {
                    lemma_texts_push(allow@, name);
                }
                allow.push(name);
            } else {
                proof {
                    lemma_texts_push(deny@, name);
                }
                deny.push(name);
            }
            i += 1;
        }
        assert(map@.subrange(0, map@.len() as int) =~= map@);
        let definition = AgentToolDefinition { allow, deny };
        self.update_from_definition(&definition);
    }

    /// Merges explicit lists: a non-empty list replaces the one it names,
    /// sorted and without duplicates; an empty list changes nothing.
    pub fn update_from_definition(&mut self, definition: &AgentToolDefinition)
        ensures
            final(self)@ == old(self)@.with_definition(definition@),
            final(self)@.well_formed(),
            definition@.allow.len() > 0 ==> (final(self)@.allow matches Some(list)
                && crate::util::names::is_sorted_listing(list, definition@.allow)),
            definition@.deny.len() > 0 ==> crate::util::names::is_sorted_listing(
                final(self)@.deny,
                definition@.deny,
            ),
    {
        proof {
            use_type_invariant(&*self);
        }
        if definition.allow.len() > 0 {
            let allow = sort_unique(definition.allow.as_slice());
            self.allow = Some(allow);
        }
        if definition.deny.len() > 0 {
            let deny = sort_unique(definition.deny.as_slice());
            self.deny = deny;
        }
    }
}


/// Budget fields of a runtime override; the two time limits in milliseconds.
#[derive(Debug, Default, Clone, Copy, PartialEq, Eq, Structural)]
pub struct AgentBudgetsDefinition {
    pub max_tokens: Option<u32>,
    pub tool_timeout_ms: Option<u64>,
    pub wall_clock_ms: Option<u64>,
}

impl AgentBudgetsDefinition {
    /// How a budgets record reads: an object whose members `maxTokens`,
    /// `toolTimeoutMs` and `wallClockMs` are each missing, `null`, or a
    /// non-negative integer in range. Other members are ignored.
    pub open spec fn decoded(value: JsonView) -> Option<AgentBudgetsDefinition> {
        match value {
            JsonView::Object(members) => {
                let tokens = optional_natural(lookup(members, "maxTokens"@), 0xffff_ffff);
                let tool = optional_natural(lookup(members, "toolTimeoutMs"@), u64::MAX);
                let wall = optional_natural(lookup(members, "wallClockMs"@), u64::MAX);
                match (tokens, tool, wall) {
                    (Some(t), Some(a), Some(b)) => Some(
                        AgentBudgetsDefinition {
                            max_tokens: match t {
                                Some(n) => Some(n as u32),
                                None => None,
                            },
                            tool_timeout_ms: a,
                            wall_clock_ms: b,
                        },
                    ),
                    _ => None,
                }
            },
            _ => None,
        }
    }

    /// Reads a budgets record, or nothing where the value is not one.
    pub fn from_json(value: &JsonValue) -> (r: Option<Self>)
        ensures
            r == Self::decoded(value@),
    {
        proof {
            lemma_view_parts(*value);
        }
        match value {
            JsonValue::Object(members) => {
                let tokens = read_optional_natural(find(members.as_slice(), "maxTokens"), 0xffff_ffff);
                let tool = read_optional_natural(find(members.as_slice(), "toolTimeoutMs"), u64::MAX);
                let wall = read_optional_natural(find(members.as_slice(), "wallClockMs"), u64::MAX);
                match (tokens, tool, wall) {
                    (Some(t), Some(a), Some(b)) => Some(
                        AgentBudgetsDefinition {
                            max_tokens: match t {
                                Some(n) => Some(n as u32),
                                None => None,
                            },
                            tool_timeout_ms: a,
                            wall_clock_ms: b,
                        },
                    ),
                    _ => None,
                }
            },
            _ => None,
        }
    }
}

/// Resource ceilings of a role. Each field may be unset.
#[derive(Debug, Clone, Copy, PartialEq, Eq, Structural)]
pub struct AgentBudgets {
    pub max_tokens: Option<u32>,
    pub tool_timeout: Option<Duration>,
    pub wall_clock: Option<Duration>,
}

impl Default for AgentBudgets {
    fn default() -> (r: Self)
        ensures
            r == AgentBudgets::unset(),
    {
        AgentBudgets { max_tokens: None, tool_timeout: None, wall_clock: None }
    }
}

/// The whole seconds of a span.
pub open spec fn whole_secs(d: Duration) -> nat {
    d@ / 1_000_000_000
}

impl AgentBudgets {
    /// Budgets with no field set.
    pub open spec fn unset() -> AgentBudgets {
        AgentBudgets { max_tokens: None, tool_timeout: None, wall_clock: None }
    }

    /// Field by field, the value of `other` where it is set, else that of `self`.
    pub open spec fn merged(self, other: AgentBudgets) -> AgentBudgets {
        AgentBudgets {
            max_tokens: if other.max_tokens is Some {
                other.max_tokens
            } else {
                self.max_tokens
            },
            tool_timeout: if other.tool_timeout is Some {
                other.tool_timeout
            } else {
                self.tool_timeout
            },
            wall_clock: if other.wall_clock is Some {
                other.wall_clock
            } else {
                self.wall_clock
            },
        }
    }

    /// `self` with the set fields of `definition` written over it, the two
    /// millisecond fields as spans.
    pub open spec fn merged_definition(self, definition: AgentBudgetsDefinition) -> AgentBudgets {
        AgentBudgets {
            max_tokens: if definition.max_tokens is Some {
                definition.max_tokens
            } else {
                self.max_tokens
            },
            tool_timeout: match definition.tool_timeout_ms {
                Some(ms) => Some(Duration::of_millis(ms)),
                None => self.tool_timeout,
            },
            wall_clock: match definition.wall_clock_ms {
                Some(ms) => Some(Duration::of_millis(ms)),
                None => self.wall_clock,
            },
        }
    }

    /// One sentence per set field, in the order tokens, tool timeout, wall clock.
    pub open spec fn constraints(self) -> Seq<Seq<char>> {
        let tokens = match self.max_tokens {
            Some(t) => seq!["Limit responses to "@ + decimal(t as nat) + " tokens."@],
            None => Seq::empty(),
        };
        let tool = match self.tool_timeout {
            Some(d) => seq![
                "Each tool call must complete within "@ + decimal(whole_secs(d)) + " seconds."@,
            ],
            None => Seq::empty(),
        };
        let wall = match self.wall_clock {
            Some(d) => seq![
                "Finish the task within "@ + decimal(whole_secs(d))
                    + " seconds of wall-clock time."@,
            ],
            None => Seq::empty(),
        };
        tokens + tool + wall
    }

    /// Takes over every field that `other` sets.
    pub fn merge(&mut self, other: &AgentBudgets)
        ensures
            *final(self) == old(self).merged(*other),
    {
        if other.max_tokens.is_some() {
            self.max_tokens = other.max_tokens;
        }
        if other.tool_timeout.is_some() {
            self.tool_timeout = other.tool_timeout;
        }
        if other.wall_clock.is_some() {
            self.wall_clock = other.wall_clock;
        }
    }

    /// Takes over every field that `definition` sets, converting the two
    /// millisecond fields to spans.
    pub fn merge_definition(&mut self, definition: &AgentBudgetsDefinition)
        ensures
            *final(self) == old(self).merged_definition(*definition),
    {
        if let Some(tokens) = definition.max_tokens {
            self.max_tokens = Some(tokens);
        }
        if let Some(ms) = definition.tool_timeout_ms {
            self.tool_timeout = Some(Duration::from_millis(ms));
        }
        if let Some(ms) = definition.wall_clock_ms {
            self.wall_clock = Some(Duration::from_millis(ms));
        }
    }

    /// The sentences that state the set budgets.
    pub fn describe_constraints(&self) -> (r: Vec<String>)
        ensures
            texts(r@) == self.constraints(),
    {
        let mut constraints: Vec<String> = Vec::new();
        assert(texts(constraints@) =~= Seq::empty());
        if let Some(tokens) = self.max_tokens {
            let mut line: Vec<char> = Vec::new();
            push_text(&mut line, "Limit responses to ");
            push_decimal(&mut line, tokens as u64);
            push_text(&mut line, " tokens.");
            let sentence = from_chars(line.as_slice());
            proof {
                lemma_texts_push(constraints@, sentence);
            }
            constraints.push(sentence);
        }
        if let Some(timeout) = self.tool_timeout {
            let seconds = timeout.as_secs();
            let mut line: Vec<char> = Vec::new();
            push_text(&mut line, "Each tool call must complete within ");
            push_decimal(&mut line, seconds);
            push_text(&mut line, " seconds.");
            let sentence = from_chars(line.as_slice());
            proof {
                lemma_texts_push(constraints@, sentence);
            }
            constraints.push(sentence);
        }
        if let Some(limit) = self.wall_clock {
            let seconds = limit.as_secs();
            let mut line: Vec<char> = Vec::new();
            push_text(&mut line, "Finish the task within ");
            push_decimal(&mut line, seconds);
            push_text(&mut line, " seconds of wall-clock time.");
            let sentence = from_chars(line.as_slice());
            proof {
                lemma_texts_push(constraints@, sentence);
            }
            constraints.push(sentence);
        }
        assert(texts(constraints@) =~= self.constraints());
        constraints
    }

    /// The wall-clock limit, or `fallback` where none is set.
    pub fn wall_clock_or(&self, fallback: Duration) -> (r: Duration)
        ensures
            r == match self.wall_clock {
                Some(d) => d,
                None => fallback,
            },
    {
        match self.wall_clock {
            Some(d) => d,
            None => fallback,
        }
    }
}


/// The identifier of a language model, in the shape `provider/model`. Two
/// handles are equal when their identifiers are.
#[derive(Debug, Hash)]
pub struct ModelHandle {
    id: String,
}

impl View for ModelHandle {
    type V = Seq<char>;

    closed spec fn view(&self) -> Seq<char> {
        self.id@
    }
}

impl Clone for ModelHandle {
    fn clone(&self) -> (r: Self)
        ensures
            r@ == self@,
    {
        ModelHandle { id: self.id.clone() }
    }
}

impl PartialEq for ModelHandle {
    fn eq(&self, other: &Self) -> (r: bool) {
        same_text(self.id.as_str(), other.id.as_str())
    }
}

impl Eq for ModelHandle {

}

impl vstd::std_specs::cmp::PartialEqSpecImpl for ModelHandle {
    open spec fn obeys_eq_spec() -> bool {
        true
    }

    open spec fn eq_spec(&self, other: &Self) -> bool {
        self@ == other@
    }
}

impl<'a> From<&'a str> for ModelHandle {
    fn from(value: &'a str) -> (r: Self)
        ensures
            r@ == value@,
    {
        ModelHandle::new(value)
    }
}

impl<'a> vstd::std_specs::convert::FromSpecImpl<&'a str> for ModelHandle {
    open spec fn obeys_from_spec() -> bool {
        false
    }

    open spec fn from_spec(value: &'a str) -> Self {
        arbitrary()
    }
}

impl ModelHandle {
    /// The handle of the model with this identifier.
    pub fn new(id: &str) -> (r: Self)
        ensures
            r@ == id@,
    {
        ModelHandle { id: id.to_owned() }
    }

    /// The identifier.
    pub fn id(&self) -> (r: &str)
        ensures
            r@ == self@,
    {
        self.id.as_str()
    }

    /// The identifier as an owned string.
    pub fn to_string(&self) -> (r: String)
        ensures
            r@ == self@,
    {
        self.id.clone()
    }
}

/// A role: its prompt, model override, tool rules, budgets and report format.
#[derive(Debug)]
pub struct AgentSpec {
    pub name: String,
    pub description: Option<String>,
    pub mode: AgentMode,
    pub model: Option<String>,
    pub prompt_sections: Vec<String>,
    pub tool_rules: ToolRules,
    pub budgets: AgentBudgets,
    pub report_format: Option<String>,
}

/// The model of an `AgentSpec`.
pub struct AgentSpecView {
    pub name: Seq<char>,
    pub description: Option<Seq<char>>,
    pub mode: AgentMode,
    pub model: Option<Seq<char>>,
    pub prompt_sections: Seq<Seq<char>>,
    pub tool_rules: ToolRulesView,
    pub budgets: AgentBudgets,
    pub report_format: Option<Seq<char>>,
}

/// A runtime override of a role. Only the fields it sets are merged.
#[derive(Debug, Default)]
pub struct AgentRuntimeDefinition {
    pub model: Option<String>,
    pub prompt_sections: Vec<String>,
    pub prompt: Option<String>,
    pub description: Option<String>,
    pub report_format: Option<String>,
    pub tools: Option<AgentToolDefinition>,
    pub budgets: Option<AgentBudgetsDefinition>,
    pub mode: Option<AgentMode>,
}

/// The model of an `AgentRuntimeDefinition`.
pub struct AgentRuntimeDefinitionView {
    pub model: Option<Seq<char>>,
    pub prompt_sections: Seq<Seq<char>>,
    pub prompt: Option<Seq<char>>,
    pub description: Option<Seq<char>>,
    pub report_format: Option<Seq<char>>,
    pub tools: Option<AgentToolDefinitionView>,
    pub budgets: Option<AgentBudgetsDefinition>,
    pub mode: Option<AgentMode>,
}

impl View for AgentRuntimeDefinition {
    type V = AgentRuntimeDefinitionView;

    open spec fn view(&self) -> AgentRuntimeDefinitionView {
        AgentRuntimeDefinitionView {
            model: opt_text(self.model),
            prompt_sections: texts(self.prompt_sections@),
            prompt: opt_text(self.prompt),
            description: opt_text(self.description),
            report_format: opt_text(self.report_format),
            tools: match self.tools {
                Some(t) => Some(t@),
                None => None,
            },
            budgets: self.budgets,
            mode: self.mode,
        }
    }
}

impl AgentRuntimeDefinitionView {
    /// How an optional tool record reads.
    pub open spec fn decoded_tools(value: Option<JsonView>) -> Option<
        Option<AgentToolDefinitionView>,
    > {
        match value {
            None => Some(None),
            Some(JsonView::Null) => Some(None),
            Some(v) => match AgentToolDefinitionView::decoded(v) {
                Some(d) => Some(Some(d)),
                None => None,
            },
        }
    }

    /// How an optional budgets record reads.
    pub open spec fn decoded_budgets(value: Option<JsonView>) -> Option<
        Option<AgentBudgetsDefinition>,
    > {
        match value {
            None => Some(None),
            Some(JsonView::Null) => Some(None),
            Some(v) => match AgentBudgetsDefinition::decoded(v) {
                Some(d) => Some(Some(d)),
                None => None,
            },
        }
    }

    /// How a runtime override reads: an object with the optional members
    /// `model`, `prompt`, `description` and `reportFormat` (strings),
    /// `promptSections` (an array of strings), `tools` (a tool record),
    /// `budgets` (a budgets record) and `mode` (a mode name). Other members
    /// are ignored; a member of the wrong type makes the whole malformed.
    pub open spec fn decoded(value: JsonView) -> Option<AgentRuntimeDefinitionView> {
        match value {
            JsonView::Object(members) => match (
                optional_text(lookup(members, "model"@)),
                name_list(lookup(members, "promptSections"@)),
                optional_text(lookup(members, "prompt"@)),
                optional_text(lookup(members, "description"@)),
                optional_text(lookup(members, "reportFormat"@)),
                Self::decoded_tools(lookup(members, "tools"@)),
                Self::decoded_budgets(lookup(members, "budgets"@)),
                AgentMode::decoded(lookup(members, "mode"@)),
            ) {
                (
                    Some(model),
                    Some(prompt_sections),
                    Some(prompt),
                    Some(description),
                    Some(report_format),
                    Some(tools),
                    Some(budgets),
                    Some(mode),
                ) => Some(
                    AgentRuntimeDefinitionView {
                        model,
                        prompt_sections,
                        prompt,
                        description,
                        report_format,
                        tools,
                        budgets,
                        mode,
                    },
                ),
                _ => None,
            },
            _ => None,
        }
    }
}

impl AgentRuntimeDefinition {
    fn tools_from_json(value: Option<&JsonValue>) -> (r: Option<Option<AgentToolDefinition>>)
        ensures
            match r {
                Some(Some(d)) => AgentRuntimeDefinitionView::decoded_tools(opt_json(value)) == Some(
                    Some(d@),
                ),
                Some(None) => AgentRuntimeDefinitionView::decoded_tools(opt_json(value)) == Some(
                    None::<AgentToolDefinitionView>,
                ),
                None => AgentRuntimeDefinitionView::decoded_tools(opt_json(value)) is None,
            },
    {
        match value {
            None => Some(None),
            Some(JsonValue::Null) => Some(None),
            Some(v) => match AgentToolDefinition::from_json(v) {
                Some(d) => Some(Some(d)),
                None => None,
            },
        }
    }

    fn budgets_from_json(value: Option<&JsonValue>) -> (r: Option<Option<AgentBudgetsDefinition>>)
        ensures
            r == AgentRuntimeDefinitionView::decoded_budgets(opt_json(value)),
    {
        match value {
            None => Some(None),
            Some(JsonValue::Null) => Some(None),
            Some(v) => match AgentBudgetsDefinition::from_json(v) {
                Some(d) => Some(Some(d)),
                None => None,
            },
        }
    }

    /// Reads a runtime override, or nothing where the value is not one.
    pub fn from_json(value: &JsonValue) -> (r: Option<Self>)
        ensures
            match r {
                Some(d) => AgentRuntimeDefinitionView::decoded(value@) == Some(d@),
                None => AgentRuntimeDefinitionView::decoded(value@) is None,
            },
    {
        proof {
            lemma_view_parts(*value);
        }
        match value {
            JsonValue::Object(members) => {
                let m = members.as_slice();
                let model = read_optional_text(find(m, "model"));
                let prompt_sections = read_name_list(find(m, "promptSections"));
                let prompt = read_optional_text(find(m, "prompt"));
                let description = read_optional_text(find(m, "description"));
                let report_format = read_optional_text(find(m, "reportFormat"));
                let tools = Self::tools_from_json(find(m, "tools"));
                let budgets = Self::budgets_from_json(find(m, "budgets"));
                let mode = AgentMode::from_json(find(m, "mode"));
                match (model, prompt_sections, prompt, description, report_format, tools, budgets, mode) {
                    (
                        Some(model),
                        Some(prompt_sections),
                        Some(prompt),
                        Some(description),
                        Some(report_format),
                        Some(tools),
                        Some(budgets),
                        Some(mode),
                    ) => Some(
                        AgentRuntimeDefinition {
                            model,
                            prompt_sections,
                            prompt,
                            description,
                            report_format,
                            tools,
                            budgets,
                            mode,
                        },
                    ),
                    _ => None,
                }
            },
            _ => None,
        }
    }
}

impl Clone for AgentRuntimeDefinition {
    fn clone(&self) -> (r: Self)
        ensures
            r@ == self@,
    {
        AgentRuntimeDefinition {
            model: clone_opt(&self.model),
            prompt_sections: clone_texts(self.prompt_sections.as_slice()),
            prompt: clone_opt(&self.prompt),
            description: clone_opt(&self.description),
            report_format: clone_opt(&self.report_format),
            tools: match &self.tools {
                Some(t) => Some(t.clone()),
                None => None,
            },
            budgets: self.budgets,
            mode: self.mode,
        }
    }
}

/// `new` where it is set, else `old`.
pub open spec fn or_keep<T>(new: Option<T>, old: Option<T>) -> Option<T> {
    if new is Some {
        new
    } else {
        old
    }
}

impl AgentSpecView {
    /// The role that a bare name stands for: selectable everywhere, one
    /// generated prompt sentence, every parent tool, no budget.
    pub open spec fn fresh(name: Seq<char>) -> AgentSpecView {
        AgentSpecView {
            name,
            description: None,
            mode: AgentMode::All,
            model: None,
            prompt_sections: seq![
                "You are the "@ + name + " agent. Respond with actionable assistance."@,
            ],
            tool_rules: ToolRulesView::inherit(),
            budgets: AgentBudgets::unset(),
            report_format: None,
        }
    }

    /// The name and the prompt are not empty, and the tool lists are sorted
    /// and free of duplicates.
    pub open spec fn well_formed(self) -> bool {
        &&& self.name.len() > 0
        &&& self.prompt_sections.len() > 0
        &&& self.tool_rules.well_formed()
    }

    /// The role after a runtime override. Each field that the override sets
    /// replaces the role's; the others stay. A list of prompt sections wins
    /// over a single prompt, and a blank prompt counts as unset.
    pub open spec fn with_runtime(self, definition: AgentRuntimeDefinitionView) -> AgentSpecView {
        AgentSpecView {
            name: self.name,
            description: or_keep(definition.description, self.description),
            mode: match definition.mode {
                Some(m) => m,
                None => self.mode,
            },
            model: or_keep(definition.model, self.model),
            prompt_sections: if definition.prompt_sections.len() > 0 {
                definition.prompt_sections
            } else {
                match definition.prompt {
                    Some(p) => if is_blank(p) {
                        self.prompt_sections
                    } else {
                        seq![p]
                    },
                    None => self.prompt_sections,
                }
            },
            tool_rules: match definition.tools {
                Some(t) => self.tool_rules.with_definition(t),
                None => self.tool_rules,
            },
            budgets: match definition.budgets {
                Some(b) => self.budgets.merged_definition(b),
                None => self.budgets,
            },
            report_format: or_keep(definition.report_format, self.report_format),
        }
    }

    /// The role after the recognised extra members of a configuration
    /// record: `promptSections` (an array; its non-blank strings, trimmed,
    /// replace the prompt if there are any), `budgets` (a budgets record,
    /// merged field by field) and `reportFormat` (a non-blank string).
    pub open spec fn with_extra(self, extra: Seq<(Seq<char>, JsonView)>) -> AgentSpecView {
        AgentSpecView {
            prompt_sections: match lookup(extra, "promptSections"@) {
                Some(JsonView::Array(items)) => if trimmed_strings(items).len() > 0 {
                    trimmed_strings(items)
                } else {
                    self.prompt_sections
                },
                _ => self.prompt_sections,
            },
            budgets: match lookup(extra, "budgets"@) {
                Some(v) => match AgentBudgetsDefinition::decoded(v) {
                    Some(d) => self.budgets.merged_definition(d),
                    None => self.budgets,
                },
                None => self.budgets,
            },
            report_format: match lookup(extra, "reportFormat"@) {
                Some(JsonView::String(s)) => if is_blank(s) {
                    self.report_format
                } else {
                    Some(s)
                },
                _ => self.report_format,
            },
            ..self
        }
    }

    /// The role after a static configuration record. Each field that the
    /// record sets replaces the role's; a prompt becomes the only prompt
    /// section; tool switches merge as in `ToolRulesView::with_map`; the
    /// extra members are applied last.
    pub open spec fn with_config(self, config: AgentConfig) -> AgentSpecView {
        AgentSpecView {
            model: or_keep(opt_text(config.model), self.model),
            description: or_keep(opt_text(config.description), self.description),
            prompt_sections: match config.prompt {
                Some(p) => seq![p@],
                None => self.prompt_sections,
            },
            tool_rules: match config.tools {
                Some(map) => self.tool_rules.with_map(map@),
                None => self.tool_rules,
            },
            mode: match config.mode {
                Some(m) => AgentMode::of_config(m),
                None => self.mode,
            },
            ..self
        }.with_extra(member_views(config.extra@))
    }

    /// The identifier of the model that the role runs on under a parent.
    pub open spec fn resolved_model(self, parent: Seq<char>) -> Seq<char> {
        match self.model {
            Some(m) => m,
            None => parent,
        }
    }
}

/// Rules stay well formed under every override: the lists that an
/// override sets are strictly increasing, so sorted and free of
/// duplicates, and the lists that it leaves alone are as they were.
pub proof fn lemma_rules_stay_well_formed(rules: ToolRulesView, definition: AgentToolDefinitionView)
    requires
        rules.well_formed(),
    ensures
        rules.with_definition(definition).well_formed(),
        definition.allow.len() > 0 ==> (rules.with_definition(definition).allow matches Some(
            list,
        ) && crate::util::names::is_sorted_listing(list, definition.allow)),
        definition.deny.len() > 0 ==> crate::util::names::is_sorted_listing(
            rules.with_definition(definition).deny,
            definition.deny,
        ),
{
    crate::util::names::lemma_sorted_unique(definition.allow);
    crate::util::names::lemma_sorted_unique(definition.deny);
}

/// A fresh role with a non-empty name is well formed.
pub proof fn lemma_fresh_well_formed(name: Seq<char>)
    requires
        name.len() > 0,
    ensures
        AgentSpecView::fresh(name).well_formed(),
{
}

/// A role without a model override runs on the parent's model, and a role
/// with one runs on its own; so the resolved model is the parent's exactly
/// when no override is set or the override names the parent's model.
pub proof fn lemma_model_resolution(spec: AgentSpecView, parent: Seq<char>)
    ensures
        spec.model is None ==> spec.resolved_model(parent) == parent,
        spec.model matches Some(m) ==> spec.resolved_model(parent) == m,
        spec.resolved_model(parent) == parent <==> (spec.model is None || spec.model == Some(
            parent,
        )),
{
}

/// Applying the same runtime override twice gives what applying it once
/// gives.
pub proof fn lemma_runtime_idempotent(spec: AgentSpecView, definition: AgentRuntimeDefinitionView)
    ensures
        spec.with_runtime(definition).with_runtime(definition) == spec.with_runtime(definition),
{
}

/// A runtime override changes only the fields that it sets: each field it
/// leaves unset keeps its value, and the name always does.
pub proof fn lemma_runtime_keeps_unset(spec: AgentSpecView, definition: AgentRuntimeDefinitionView)
    ensures
        spec.with_runtime(definition).name == spec.name,
        definition.model is None ==> spec.with_runtime(definition).model == spec.model,
        definition.description is None ==> spec.with_runtime(definition).description
            == spec.description,
        definition.mode is None ==> spec.with_runtime(definition).mode == spec.mode,
        definition.report_format is None ==> spec.with_runtime(definition).report_format
            == spec.report_format,
        definition.prompt_sections.len() == 0 && definition.prompt is None ==> spec.with_runtime(
            definition,
        ).prompt_sections == spec.prompt_sections,
        definition.tools is None ==> spec.with_runtime(definition).tool_rules == spec.tool_rules,
        definition.budgets is None ==> spec.with_runtime(definition).budgets == spec.budgets,
{
}

/// An override that sets the model and nothing else changes the model and
/// nothing else; a description in particular stays as it was.
pub proof fn lemma_model_only_override(spec: AgentSpecView, model: Seq<char>)
    ensures
        spec.with_runtime(
            AgentRuntimeDefinitionView {
                model: Some(model),
                prompt_sections: Seq::empty(),
                prompt: None,
                description: None,
                report_format: None,
                tools: None,
                budgets: None,
                mode: None,
            },
        ) == (AgentSpecView { model: Some(model), ..spec }),
{
}

impl View for AgentSpec {
    type V = AgentSpecView;

    open spec fn view(&self) -> AgentSpecView {
        AgentSpecView {
            name: self.name@,
            description: opt_text(self.description),
            mode: self.mode,
            model: opt_text(self.model),
            prompt_sections: texts(self.prompt_sections@),
            tool_rules: self.tool_rules@,
            budgets: self.budgets,
            report_format: opt_text(self.report_format),
        }
    }
}

impl Clone for AgentSpec {
    fn clone(&self) -> (r: Self)
        ensures
            r@ == self@,
    {
        AgentSpec {
            name: self.name.clone(),
            description: clone_opt(&self.description),
            mode: self.mode,
            model: clone_opt(&self.model),
            prompt_sections: clone_texts(self.prompt_sections.as_slice()),
            tool_rules: self.tool_rules.clone(),
            budgets: self.budgets,
            report_format: clone_opt(&self.report_format),
        }
    }
}

impl PartialEq for AgentSpec {
    fn eq(&self, other: &Self) -> (r: bool) {
        same_text(self.name.as_str(), other.name.as_str()) && same_opt_text(
            &self.description,
            &other.description,
        ) && self.mode == other.mode && same_opt_text(&self.model, &other.model) && same_texts(
            self.prompt_sections.as_slice(),
            other.prompt_sections.as_slice(),
        ) && self.tool_rules == other.tool_rules && self.budgets == other.budgets && same_opt_text(
            &self.report_format,
            &other.report_format,
        )
    }
}

impl Eq for AgentSpec {

}

impl vstd::std_specs::cmp::PartialEqSpecImpl for AgentSpec {
    open spec fn obeys_eq_spec() -> bool {
        true
    }

    open spec fn eq_spec(&self, other: &Self) -> bool {
        self@ == other@
    }
}

impl AgentSpec {
    /// The role that a bare name stands for.
    pub fn new(name: &str) -> (r: Self)
        ensures
            r@ == AgentSpecView::fresh(name@),
            name@.len() > 0 ==> r@.well_formed(),
    {
        let mut line: Vec<char> = Vec::new();
        push_text(&mut line, "You are the ");
        push_text(&mut line, name);
        push_text(&mut line, " agent. Respond with actionable assistance.");
        let sentence = from_chars(line.as_slice());
        let mut sections: Vec<String> = Vec::new();
        proof {
            assert(texts(sections@) =~= Seq::empty());
            lemma_texts_push(sections@, sentence);
        }
        sections.push(sentence);
        let r = AgentSpec {
            name: name.to_owned(),
            description: None,
            mode: AgentMode::All,
            model: None,
            prompt_sections: sections,
            tool_rules: ToolRules::inherit(),
            budgets: AgentBudgets::default(),
            report_format: None,
        };
        assert(r@.prompt_sections =~= AgentSpecView::fresh(name@).prompt_sections);
        r
    }

    /// Merges a static configuration record into the role, field by field.
    pub fn apply_config(&mut self, config: &AgentConfig)
        ensures
            final(self)@ == old(self)@.with_config(*config),
            old(self)@.well_formed() ==> final(self)@.well_formed(),
    {
        if let Some(model) = &config.model {
            self.model = Some(model.clone());
        }
        if let Some(description) = &config.description {
            self.description = Some(description.clone());
        }
        if let Some(prompt) = &config.prompt {
            let mut sections: Vec<String> = Vec::new();
            let single = prompt.clone();
            proof {
                assert(texts(sections@) =~= Seq::empty());
                lemma_texts_push(sections@, single);
            }
            sections.push(single);
            self.prompt_sections = sections;
            assert(self@.prompt_sections =~= seq![prompt@]);
        }
        if let Some(tools) = &config.tools {
            self.tool_rules.update_from_map(tools.as_slice());
        }
        if let Some(mode) = &config.mode {
            self.mode = match mode {
                crate::util::config::AgentMode::Primary => AgentMode::Primary,
                crate::util::config::AgentMode::Subagent => AgentMode::Subagent,
                crate::util::config::AgentMode::All => AgentMode::All,
            };
        }
        self.extract_extra(config.extra.as_slice());
    }

    fn extract_extra(&mut self, extra: &[(String, JsonValue)])
        ensures
            final(self)@ == old(self)@.with_extra(member_views(extra@)),
            old(self)@.well_formed() ==> final(self)@.well_formed(),
    {
        if let Some(value) = find(extra, "promptSections") {
            if let Some(sections) = Self::parse_string_array(value) {
                if sections.len() > 0 {
                    self.prompt_sections = sections;
                }
            }
        }
        if let Some(value) = find(extra, "budgets") {
            if let Some(definition) = AgentBudgetsDefinition::from_json(value) {
                self.budgets.merge_definition(&definition);
            }
        }
        if let Some(value) = find(extra, "reportFormat") {
            if let JsonValue::String(report_format) = value {
                if !blank(report_format.as_str()) {
                    self.report_format = Some(report_format.clone());
                }
            }
        }
    }

    /// The non-blank strings of an array, trimmed; nothing where the value
    /// is no array or holds no such string.
    pub fn parse_string_array(value: &JsonValue) -> (r: Option<Vec<String>>)
        ensures
            match r {
                Some(list) => value@ matches JsonView::Array(items) && texts(list@)
                    == trimmed_strings(items) && list@.len() > 0,
                None => value@ matches JsonView::Array(items) ==> trimmed_strings(items).len() == 0,
            },
    {
        proof {
            lemma_view_parts(*value);
        }
        match value {
            JsonValue::Array(items) => {
                let result = collect_trimmed_strings(items.as_slice());
                if result.len() == 0 {
                    None
                } else {
                    Some(result)
                }
            },
            _ => None,
        }
    }

    /// Merges a runtime override into the role, field by field.
    pub fn apply_runtime(&mut self, definition: &AgentRuntimeDefinition)
        ensures
            final(self)@ == old(self)@.with_runtime(definition@),
            old(self)@.well_formed() ==> final(self)@.well_formed(),
    {
        let ghost before = self@;
        if let Some(model) = &definition.model {
            self.model = Some(model.clone());
        }
        if let Some(description) = &definition.description {
            self.description = Some(description.clone());
        }
        if let Some(mode) = &definition.mode {
            self.mode = *mode;
        }
        if let Some(report_format) = &definition.report_format {
            self.report_format = Some(report_format.clone());
        }
        if let Some(prompt) = &definition.prompt {
            if !blank(prompt.as_str()) {
                let mut sections: Vec<String> = Vec::new();
                let single = prompt.clone();
                proof {
                    assert(texts(sections@) =~= Seq::empty());
                    lemma_texts_push(sections@, single);
                }
                sections.push(single);
                self.prompt_sections = sections;
                assert(self@.prompt_sections =~= seq![prompt@]);
            }
        }
        if definition.prompt_sections.len() > 0 {
            self.prompt_sections = clone_texts(definition.prompt_sections.as_slice());
        }
        if let Some(tool_definition) = &definition.tools {
            self.tool_rules.update_from_definition(tool_definition);
        }
        if let Some(budget_definition) = &definition.budgets {
            self.budgets.merge_definition(budget_definition);
        }
    }
}

/// The model that a role runs on: its own override, or else the parent's.
pub fn resolve_model(spec: &AgentSpec, parent: &ModelHandle) -> (r: ModelHandle)
    ensures
        r@ == spec@.resolved_model(parent@),
        spec@.model is None ==> r@ == parent@,
        spec@.model matches Some(m) ==> r@ == m,
{
    match &spec.model {
        Some(model) => ModelHandle::new(model.as_str()),
        None => parent.clone(),
    }
}


/// `Arc::clone` hands out another pointer to the same value.
#[verifier::external_body]
pub(crate) fn share<T: ?Sized>(item: &Arc<T>) -> (r: Arc<T>)
    ensures
        r == *item,
{
    Arc::clone(item)
}

/// Whether one of the names is `name`.
pub fn listed(names: &[String], name: &str) -> (r: bool)
    ensures
        r == texts(names@).contains(name@),
{
    let mut i: usize = 0;
    while i < names.len()
        invariant
            i <= names@.len(),
            forall|k: int| 0 <= k < i ==> texts(names@)[k] != name@,
        decreases names@.len() - i,
    {
        if same_text(names[i].as_str(), name) {
            assert(texts(names@)[i as int] == name@);
            return true;
        }
        i += 1;
    }
    false
}

/// The names of the tools, in order.
pub fn names_of<T: Tool + ?Sized>(tools: &[Arc<T>]) -> (r: Vec<String>)
    ensures
        texts(r@) == tools@.map_values(|t: Arc<T>| t.spec_name()),
{
    let mut out: Vec<String> = Vec::new();
    let mut i: usize = 0;
    while i < tools.len()
        invariant
            i <= tools@.len(),
            texts(out@) == tools@.subrange(0, i as int).map_values(|t: Arc<T>| t.spec_name()),
        decreases tools@.len() - i,
    {
        let name = tools[i].name().to_owned();
        proof {
            lemma_texts_push(out@, name);
        }
        out.push(name);
        i += 1;
        assert(texts(out@) =~= tools@.subrange(0, i as int).map_values(
            |t: Arc<T>| t.spec_name(),
        ));
    }
    assert(tools@.subrange(0, tools@.len() as int) =~= tools@);
    out
}

/// Rules without an allow list and with an empty deny list let every tool
/// through: the filtered list is the list itself, in the same order.
pub proof fn lemma_inherit_keeps_all<T: Tool + ?Sized>(rules: ToolRulesView, tools: Seq<Arc<T>>)
    requires
        rules.allow is None,
        rules.deny.len() == 0,
    ensures
        tools.filter(|t: Arc<T>| rules.permits(t.spec_name())) == tools,
    decreases tools.len(),
{
    reveal(Seq::filter);
    let keep = |t: Arc<T>| rules.permits(t.spec_name());
    if tools.len() > 0 {
        lemma_inherit_keeps_all::<T>(rules, tools.drop_last());
        assert(keep(tools.last()));
        assert(tools.drop_last().push(tools.last()) =~= tools);
    }
}

/// A tool on the deny list is never let through, whatever the allow list
/// says: deny is applied after allow.
pub proof fn lemma_deny_wins(rules: ToolRulesView, name: Seq<char>)
    requires
        rules.deny.contains(name),
    ensures
        !rules.permits(name),
{
}

/// Names on the lists that no parent tool bears change nothing: two sets
/// of rules that agree on the name of every parent tool let the same
/// tools through.
pub proof fn lemma_unknown_names_ignored<T: Tool + ?Sized>(
    first: ToolRulesView,
    second: ToolRulesView,
    tools: Seq<Arc<T>>,
)
    requires
        forall|i: int|
            0 <= i < tools.len() ==> first.permits((#[trigger] tools[i]).spec_name())
                == second.permits(tools[i].spec_name()),
    ensures
        tools.filter(|t: Arc<T>| first.permits(t.spec_name())) == tools.filter(
            |t: Arc<T>| second.permits(t.spec_name()),
        ),
    decreases tools.len(),
{
    reveal(Seq::filter);
    if tools.len() > 0 {
        let front = tools.drop_last();
        assert(forall|i: int| 0 <= i < front.len() ==> front[i] == tools[i]);
        lemma_unknown_names_ignored::<T>(first, second, front);
        assert(first.permits(tools[tools.len() - 1].spec_name()) == second.permits(
            tools[tools.len() - 1].spec_name(),
        ));
    }
}

/// The tools that the rules let through, in their order.
pub fn permitted<T: Tool + ?Sized>(rules: &ToolRules, parent_tools: &[Arc<T>]) -> (r: Vec<Arc<T>>)
    ensures
        r@ == parent_tools@.filter(|t: Arc<T>| rules@.permits(t.spec_name())),
        rules@.allow is None && rules@.deny.len() == 0 ==> r@ == parent_tools@,
{
    proof {
        if rules@.allow is None && rules@.deny.len() == 0 {
            lemma_inherit_keeps_all::<T>(rules@, parent_tools@);
        }
    }
    let ghost keep = |t: Arc<T>| rules@.permits(t.spec_name());
    let allow = rules.allow_list();
    let deny = rules.deny_list();
    let mut tools: Vec<Arc<T>> = Vec::new();
    let mut i: usize = 0;
    proof {
        reveal(Seq::filter);
        assert(parent_tools@.subrange(0, 0) =~= Seq::empty());
    }
    while i < parent_tools.len()
        invariant
            i <= parent_tools@.len(),
            keep == |t: Arc<T>| rules@.permits(t.spec_name()),
            tools@ == parent_tools@.subrange(0, i as int).filter(keep),
            match allow {
                Some(list) => rules@.allow == Some(texts(list@)),
                None => rules@.allow is None,
            },
            texts(deny@) == rules@.deny,
        decreases parent_tools@.len() - i,
    {
        let tool = &parent_tools[i];
        let name = tool.name();
        let allowed = match allow {
            Some(list) => listed(list, name),
            None => true,
        };
        let kept = allowed && !listed(deny, name);
        proof {
            reveal(Seq::filter);
            assert(parent_tools@.subrange(0, i + 1).drop_last() =~= parent_tools@.subrange(
                0,
                i as int,
            ));
            assert(kept == keep(parent_tools@[i as int]));
        }
        if kept {
            tools.push(share(tool));
        }
        i += 1;
    }
    assert(parent_tools@.subrange(0, parent_tools@.len() as int) =~= parent_tools@);
    tools
}

/// The parent's tools that the role may use, in the parent's order: those
/// on the allow list where there is one, without those on the deny list.
pub fn resolve_tools(spec: &AgentSpec, parent_tools: &[Arc<dyn Tool>]) -> (r: Vec<Arc<dyn Tool>>)
    ensures
        r@ == parent_tools@.filter(|t: Arc<dyn Tool>| spec@.tool_rules.permits(t.spec_name())),
        spec@.tool_rules.allow is None && spec@.tool_rules.deny.len() == 0 ==> r@
            == parent_tools@,
{
    permitted::<dyn Tool>(&spec.tool_rules, parent_tools)
}

} // verus!
