//! The registry that owns the roles and merges configuration into them.

use vstd::prelude::*;
use crate::agent::spec::{AgentMode, AgentRuntimeDefinition, AgentRuntimeDefinitionView, AgentSpec, AgentSpecView};
use crate::util::config::{AgentConfig, Info};
use crate::util::error::SessionError;
use crate::util::json::{
    json_document, lemma_member_views, lemma_view_parts, member_views, parse_document, JsonValue,
    JsonView,
};
use crate::util::text::same_text;

verus! {

/// The views of a sequence of roles.
pub open spec fn views(specs: Seq<AgentSpec>) -> Seq<AgentSpecView> {
    specs.map_values(|s: AgentSpec| s@)
}

/// The position of the first role of this name.
pub open spec fn position(specs: Seq<AgentSpecView>, name: Seq<char>) -> Option<int>
    decreases specs.len(),
{
    if specs.len() == 0 {
        None
    } else {
        match position(specs.drop_last(), name) {
            Some(i) => Some(i),
            None => if specs.last().name == name {
                Some(specs.len() - 1)
            } else {
                None
            },
        }
    }
}

/// The role of this name, if there is one.
pub open spec fn named(specs: Seq<AgentSpecView>, name: Seq<char>) -> Option<AgentSpecView> {
    match position(specs, name) {
        Some(i) => Some(specs[i]),
        None => None,
    }
}

/// Every role is well formed, no two share a name, and the default role
/// is among them.
pub open spec fn consistent(specs: Seq<AgentSpecView>) -> bool {
    &&& forall|i: int| 0 <= i < specs.len() ==> (#[trigger] specs[i]).well_formed()
    &&& forall|i: int, j: int|
        0 <= i < j < specs.len() ==> (#[trigger] specs[i]).name != (#[trigger] specs[j]).name
    &&& named(specs, "primary"@) is Some
}

/// The roles with the role `name` replaced by `change` of it; where there
/// is none yet, `change` of a fresh role of that name is added at the end.
pub open spec fn revised(
    specs: Seq<AgentSpecView>,
    name: Seq<char>,
    change: spec_fn(AgentSpecView) -> AgentSpecView,
) -> Seq<AgentSpecView> {
    match position(specs, name) {
        Some(i) => specs.update(i, change(specs[i])),
        None => specs.push(change(AgentSpecView::fresh(name))),
    }
}

/// The roles after a runtime override of the role `name`.
pub open spec fn with_runtime(
    specs: Seq<AgentSpecView>,
    name: Seq<char>,
    definition: AgentRuntimeDefinitionView,
) -> Seq<AgentSpecView> {
    revised(specs, name, |s: AgentSpecView| s.with_runtime(definition))
}

/// The roles after a static configuration record for the role `name`.
pub open spec fn with_config(
    specs: Seq<AgentSpecView>,
    name: Seq<char>,
    config: AgentConfig,
) -> Seq<AgentSpecView> {
    revised(specs, name, |s: AgentSpecView| s.with_config(config))
}

/// The roles after the runtime overrides, applied in order.
pub open spec fn with_runtime_all(
    specs: Seq<AgentSpecView>,
    definitions: Seq<(String, AgentRuntimeDefinition)>,
) -> Seq<AgentSpecView>
    decreases definitions.len(),
{
    if definitions.len() == 0 {
        specs
    } else {
        with_runtime(
            with_runtime_all(specs, definitions.drop_last()),
            definitions.last().0@,
            definitions.last().1@,
        )
    }
}

/// The roles after the configuration records, applied in order.
pub open spec fn with_config_all(
    specs: Seq<AgentSpecView>,
    configs: Seq<(String, AgentConfig)>,
) -> Seq<AgentSpecView>
    decreases configs.len(),
{
    if configs.len() == 0 {
        specs
    } else {
        with_config(with_config_all(specs, configs.drop_last()), configs.last().0@, configs.last().1)
    }
}

/// The roles that a static configuration declares, over one default role.
pub open spec fn configured(info: Info) -> Seq<AgentSpecView> {
    match info.agent {
        Some(agents) => with_config_all(seq![AgentSpecView::fresh("primary"@)], agents@),
        None => seq![AgentSpecView::fresh("primary"@)],
    }
}

/// Every name is non-empty.
pub open spec fn all_named<T>(entries: Seq<(String, T)>) -> bool {
    !crate::util::validate::has_unnamed(entries)
}

/// The views of a sequence grown by one role.
pub proof fn lemma_views_push(specs: Seq<AgentSpec>, spec: AgentSpec)
    ensures
        views(specs.push(spec)) == views(specs).push(spec@),
{
    assert(views(specs.push(spec)) =~= views(specs).push(spec@));
}

/// A position that `position` reports holds the name and is the first to.
pub proof fn lemma_position(specs: Seq<AgentSpecView>, name: Seq<char>)
    ensures
        match position(specs, name) {
            Some(i) => 0 <= i < specs.len() && specs[i].name == name && forall|k: int|
                0 <= k < i ==> (#[trigger] specs[k]).name != name,
            None => forall|k: int| 0 <= k < specs.len() ==> (#[trigger] specs[k]).name != name,
        },
    decreases specs.len(),
{
    if specs.len() > 0 {
        lemma_position(specs.drop_last(), name);
        let front = specs.drop_last();
        assert(forall|k: int| 0 <= k < front.len() ==> front[k] == specs[k]);
    }
}

/// The default role alone is a consistent set of roles.
pub proof fn lemma_seed_consistent()
    ensures
        consistent(seq![AgentSpecView::fresh("primary"@)]),
{
    reveal_strlit("primary");
    let seed = seq![AgentSpecView::fresh("primary"@)];
    assert(seed.drop_last() =~= Seq::empty());
    assert(position(seed.drop_last(), "primary"@) is None);
    assert(seed.last().name == "primary"@);
}

/// Revising a role by a change that keeps names and well-formedness keeps
/// the roles consistent.
pub proof fn lemma_revised_consistent(
    specs: Seq<AgentSpecView>,
    name: Seq<char>,
    change: spec_fn(AgentSpecView) -> AgentSpecView,
)
    requires
        consistent(specs),
        name.len() > 0,
        forall|s: AgentSpecView| (#[trigger] change(s)).name == s.name,
        forall|s: AgentSpecView| s.well_formed() ==> (#[trigger] change(s)).well_formed(),
    ensures
        consistent(revised(specs, name, change)),
{
    lemma_position(specs, name);
    let after = revised(specs, name, change);
    lemma_position(specs, "primary"@);
    lemma_position(after, "primary"@);
    let held = position(specs, "primary"@)->0;
    assert(after[held].name == specs[held].name);
    match position(specs, name) {
        Some(i) => {
            assert forall|a: int, b: int| 0 <= a < b < after.len() implies (#[trigger] after[a]).name
                != (#[trigger] after[b]).name by {
                assert(after[a].name == specs[a].name);
                assert(after[b].name == specs[b].name);
            }
        },
        None => {
            crate::agent::spec::lemma_fresh_well_formed(name);
            assert forall|a: int, b: int| 0 <= a < b < after.len() implies (#[trigger] after[a]).name
                != (#[trigger] after[b]).name by {
                assert(after[a] == specs[a]);
                if b < specs.len() {
                    assert(after[b] == specs[b]);
                }
            }
        },
    }
}

/// Applying the same runtime override to a role twice leaves the roles as
/// applying it once does.
pub proof fn lemma_runtime_twice(
    specs: Seq<AgentSpecView>,
    name: Seq<char>,
    definition: AgentRuntimeDefinitionView,
)
    ensures
        with_runtime(with_runtime(specs, name, definition), name, definition) == with_runtime(
            specs,
            name,
            definition,
        ),
{
    lemma_position(specs, name);
    let once = with_runtime(specs, name, definition);
    lemma_position(once, name);
    match position(specs, name) {
        Some(i) => {
            assert(once[i].name == name);
            assert(position(once, name) == Some(i)) by {
                if position(once, name) != Some(i) {
                    let j = position(once, name)->0;
                    if j < i {
                        assert(once[j] == specs[j]);
                    }
                }
            }
            crate::agent::spec::lemma_runtime_idempotent(specs[i], definition);
            assert(with_runtime(once, name, definition) =~= once);
        },
        None => {
            let last = once.len() - 1;
            assert(once[last].name == name);
            assert(position(once, name) == Some(last)) by {
                let j = position(once, name)->0;
                if j < last {
                    assert(once[j] == specs[j]);
                }
            }
            crate::agent::spec::lemma_runtime_idempotent(AgentSpecView::fresh(name), definition);
            assert(with_runtime(once, name, definition) =~= once);
        },
    }
}

/// A query for `Primary` returns no `Subagent` role and one for `Subagent`
/// no `Primary` role; both return every `All` role.
pub proof fn lemma_mode_filter(specs: Seq<AgentSpecView>, mode: AgentMode, i: int)
    requires
        0 <= i < specs.len(),
    ensures
        specs.filter(|s: AgentSpecView| mode.admits(s.mode)).contains(specs[i]) <==> mode.admits(
            specs[i].mode,
        ),
        mode == AgentMode::Primary && specs[i].mode == AgentMode::Subagent ==> !specs.filter(
            |s: AgentSpecView| mode.admits(s.mode),
        ).contains(specs[i]),
        mode == AgentMode::Subagent && specs[i].mode == AgentMode::Primary ==> !specs.filter(
            |s: AgentSpecView| mode.admits(s.mode),
        ).contains(specs[i]),
        mode != AgentMode::All && specs[i].mode == AgentMode::All ==> specs.filter(
            |s: AgentSpecView| mode.admits(s.mode),
        ).contains(specs[i]),
{
    broadcast use vstd::seq_lib::group_filter_ensures;

    let keep = |s: AgentSpecView| mode.admits(s.mode);
    if specs.filter(keep).contains(specs[i]) {
        let k = choose|k: int| 0 <= k < specs.filter(keep).len() && specs.filter(keep)[k] == specs[i];
        assert(keep(specs.filter(keep)[k]));
    }
    if mode.admits(specs[i].mode) {
        assert(keep(specs[i]));
    }
}

/// The owner of the roles.
#[derive(Debug)]
pub struct AgentRegistry {
    specs: Vec<AgentSpec>,
}

impl View for AgentRegistry {
    type V = Seq<AgentSpecView>;

    closed spec fn view(&self) -> Seq<AgentSpecView> {
        views(self.specs@)
    }
}

impl Default for AgentRegistry {
    fn default() -> (r: Self)
        ensures
            r@ == seq![AgentSpecView::fresh("primary"@)],
    {
        AgentRegistry::new()
    }
}

impl Clone for AgentRegistry {
    fn clone(&self) -> (r: Self)
        ensures
            r@ == self@,
    {
        proof {
            use_type_invariant(self);
        }
        let mut specs: Vec<AgentSpec> = Vec::new();
        let mut i: usize = 0;
        while i < self.specs.len()
            invariant
                i <= self.specs@.len(),
                views(specs@) == views(self.specs@.subrange(0, i as int)),
            decreases self.specs@.len() - i,
        {
            let copy = self.specs[i].clone();
            proof {
                lemma_views_push(specs@, copy);
                lemma_views_push(self.specs@.subrange(0, i as int), self.specs@[i as int]);
                assert(self.specs@.subrange(0, i + 1) =~= self.specs@.subrange(0, i as int).push(
                    self.specs@[i as int],
                ));
            }
            specs.push(copy);
            i += 1;
        }
        assert(self.specs@.subrange(0, self.specs@.len() as int) =~= self.specs@);
        AgentRegistry { specs }
    }
}

impl AgentRegistry {
    #[verifier::type_invariant]
    spec fn roles_consistent(self) -> bool {
        consistent(views(self.specs@))
    }

    /// A registry that holds the default role only.
    pub fn new() -> (r: Self)
        ensures
            r@ == seq![AgentSpecView::fresh("primary"@)],
            consistent(r@),
    {
        let mut specs: Vec<AgentSpec> = Vec::new();
        let spec = AgentSpec::new("primary");
        proof {
            lemma_seed_consistent();
        }
        specs.push(spec);
        assert(views(specs@) =~= seq![AgentSpecView::fresh("primary"@)]);
        AgentRegistry { specs }
    }

    /// The registry that a static configuration declares: the default role,
    /// then each configured role merged in, in order.
    pub fn from_info(info: &Info) -> (r: Self)
        requires
            info.agent matches Some(agents) ==> all_named(agents@),
        ensures
            r@ == configured(*info),
            consistent(r@),
    {
        let mut registry = Self::new();
        if let Some(agents) = &info.agent {
            let mut i: usize = 0;
            while i < agents.len()
                invariant
                    i <= agents@.len(),
                    all_named(agents@),
                    consistent(registry@),
                    registry@ == with_config_all(
                        seq![AgentSpecView::fresh("primary"@)],
                        agents@.subrange(0, i as int),
                    ),
                decreases agents@.len() - i,
            {
                proof {
                    assert(agents@.subrange(0, i + 1).drop_last() =~= agents@.subrange(0, i as int));
                    assert(agents@[i as int].0@.len() > 0);
                }
                registry.apply_config(agents[i].0.as_str(), &agents[i].1);
                i += 1;
            }
            assert(agents@.subrange(0, agents@.len() as int) =~= agents@);
        }
        registry
    }

    fn take_specs(&mut self) -> (r: Vec<AgentSpec>)
        ensures
            r == old(self).specs,
    {
        let mut specs: Vec<AgentSpec> = Vec::new();
        specs.push(AgentSpec::new("primary"));
        proof {
            lemma_seed_consistent();
            assert(views(specs@) =~= seq![AgentSpecView::fresh("primary"@)]);
        }
        core::mem::swap(&mut self.specs, &mut specs);
        specs
    }

    fn find(&self, name: &str) -> (r: Option<usize>)
        ensures
            match r {
                Some(i) => position(self@, name@) == Some(i as int) && i < self.specs@.len(),
                None => position(self@, name@) is None,
            },
    {
        let mut i: usize = 0;
        while i < self.specs.len()
            invariant
                i <= self.specs@.len(),
                forall|k: int| 0 <= k < i ==> (#[trigger] self@[k]).name != name@,
            decreases self.specs@.len() - i,
        {
            if same_text(self.specs[i].name.as_str(), name) {
                proof {
                    lemma_position(self@, name@);
                    assert(self@[i as int].name == name@);
                }
                return Some(i);
            }
            i += 1;
        }
        proof {
            lemma_position(self@, name@);
        }
        None
    }

    /// Makes sure that the default role exists, and returns a copy of it.
    /// A registry always holds the default role, so nothing changes: a
    /// role is added only where none of that name is found.
    pub fn ensure_primary(&mut self) -> (r: AgentSpec)
        ensures
            final(self)@ == revised(old(self)@, "primary"@, |s: AgentSpecView| s),
            final(self)@ == old(self)@,
            named(final(self)@, "primary"@) == Some(r@),
            consistent(final(self)@),
    {
        proof {
            use_type_invariant(&*self);
            reveal_strlit("primary");
            lemma_revised_consistent(self@, "primary"@, |s: AgentSpecView| s);
            lemma_position(self@, "primary"@);
        }
        match self.find("primary") {
            Some(i) => {
                assert(self@.update(i as int, self@[i as int]) =~= self@);
                self.specs[i].clone()
            },
            None => {
                let spec = AgentSpec::new("primary");
                let copy = spec.clone();
                let ghost before = self@;
                let mut specs = self.take_specs();
                proof {
                    lemma_views_push(specs@, spec);
                }
                specs.push(spec);
                self.specs = specs;
                proof {
                    assert(self@ =~= before.push(copy@));
                    lemma_position(self@, "primary"@);
                    assert(self@[self@.len() - 1].name == "primary"@);
                }
                copy
            },
        }
    }

    /// Merges a static configuration record into the role `name`, which is
    /// created first where it does not exist.
    pub fn apply_config(&mut self, name: &str, config: &AgentConfig)
        requires
            name@.len() > 0,
        ensures
            final(self)@ == with_config(old(self)@, name@, *config),
            consistent(final(self)@),
    {
        proof {
            use_type_invariant(&*self);
            crate::agent::spec::lemma_fresh_well_formed(name@);
            lemma_position(self@, name@);
        }
        let ghost before = self@;
        let ghost change = |s: AgentSpecView| s.with_config(*config);
        match self.find(name) {
            Some(i) => {
                let mut spec = self.specs[i].clone();
                spec.apply_config(config);
                let mut specs = self.take_specs();
                specs.set(i, spec);
                proof {
                    assert(views(specs@) =~= before.update(
                        i as int,
                        before[i as int].with_config(*config),
                    ));
                    assert(views(specs@) == revised(before, name@, change));
                    lemma_revised_consistent(before, name@, change);
                }
                self.specs = specs;
            },
            None => {
                let mut spec = AgentSpec::new(name);
                spec.apply_config(config);
                let mut specs = self.take_specs();
                proof {
                    lemma_views_push(specs@, spec);
                }
                specs.push(spec);
                proof {
                    assert(views(specs@) == revised(before, name@, change));
                    lemma_revised_consistent(before, name@, change);
                }
                self.specs = specs;
            },
        }
    }

    /// Merges a runtime override into the role `name`, which is created
    /// first where it does not exist.
    pub fn apply_runtime_definition(&mut self, name: &str, definition: &AgentRuntimeDefinition)
        requires
            name@.len() > 0,
        ensures
            final(self)@ == with_runtime(old(self)@, name@, definition@),
            consistent(final(self)@),
    {
        proof {
            use_type_invariant(&*self);
            crate::agent::spec::lemma_fresh_well_formed(name@);
            lemma_position(self@, name@);
        }
        let ghost before = self@;
        let ghost change = |s: AgentSpecView| s.with_runtime(definition@);
        match self.find(name) {
            Some(i) => {
                let mut spec = self.specs[i].clone();
                spec.apply_runtime(definition);
                let mut specs = self.take_specs();
                specs.set(i, spec);
                proof {
                    assert(views(specs@) =~= before.update(
                        i as int,
                        before[i as int].with_runtime(definition@),
                    ));
                    assert(views(specs@) == revised(before, name@, change));
                    lemma_revised_consistent(before, name@, change);
                }
                self.specs = specs;
            },
            None => {
                let mut spec = AgentSpec::new(name);
                spec.apply_runtime(definition);
                let mut specs = self.take_specs();
                proof {
                    lemma_views_push(specs@, spec);
                }
                specs.push(spec);
                proof {
                    assert(views(specs@) == revised(before, name@, change));
                    lemma_revised_consistent(before, name@, change);
                }
                self.specs = specs;
            },
        }
    }

    /// Merges the runtime overrides in order, each into the role it names.
    pub fn apply_runtime_map(&mut self, definitions: &[(String, AgentRuntimeDefinition)])
        requires
            all_named(definitions@),
        ensures
            final(self)@ == with_runtime_all(old(self)@, definitions@),
            consistent(final(self)@),
    {
        proof {
            use_type_invariant(&*self);
        }
        let mut i: usize = 0;
        while i < definitions.len()
            invariant
                i <= definitions@.len(),
                all_named(definitions@),
                consistent(self@),
                self@ == with_runtime_all(old(self)@, definitions@.subrange(0, i as int)),
            decreases definitions@.len() - i,
        {
            proof {
                assert(definitions@.subrange(0, i + 1).drop_last() =~= definitions@.subrange(
                    0,
                    i as int,
                ));
                assert(definitions@[i as int].0@.len() > 0);
            }
            self.apply_runtime_definition(definitions[i].0.as_str(), &definitions[i].1);
            i += 1;
        }
        assert(definitions@.subrange(0, definitions@.len() as int) =~= definitions@);
    }

    /// A copy of the role `name`, if there is one.
    pub fn spec(&self, name: &str) -> (r: Option<AgentSpec>)
        ensures
            match r {
                Some(s) => named(self@, name@) == Some(s@) && s@.well_formed() && s@.name == name@,
                None => named(self@, name@) is None,
            },
    {
        proof {
            use_type_invariant(self);
            lemma_position(self@, name@);
        }
        match self.find(name) {
            Some(i) => Some(self.specs[i].clone()),
            None => None,
        }
    }

    /// A copy of the role `name`; `UnknownAgent` with that name where there
    /// is none.
    pub fn require_spec(&self, name: &str) -> (r: Result<AgentSpec, SessionError>)
        ensures
            match r {
                Ok(s) => named(self@, name@) == Some(s@) && s@.well_formed() && s@.name == name@,
                Err(e) => named(self@, name@) is None && (e matches SessionError::UnknownAgent(n)
                    && n@ == name@),
            },
    {
        match self.spec(name) {
            Some(s) => Ok(s),
            None => Err(SessionError::UnknownAgent(name.to_owned())),
        }
    }

    /// The name of the default role, which the registry always holds.
    pub fn default_agent_name(&self) -> (r: &'static str)
        ensures
            r@ == "primary"@,
            named(self@, r@) is Some,
    {
        proof {
            use_type_invariant(self);
        }
        "primary"
    }

    /// A copy of every role, in the registry's order.
    pub fn all(&self) -> (r: Vec<AgentSpec>)
        ensures
            views(r@) == self@,
            consistent(self@),
    {
        proof {
            use_type_invariant(self);
        }
        let copy = self.clone();
        copy.specs
    }

    /// A copy of the roles that a query for `mode` selects, in the
    /// registry's order.
    pub fn agents_in_mode(&self, mode: AgentMode) -> (r: Vec<AgentSpec>)
        ensures
            views(r@) == self@.filter(|s: AgentSpecView| mode.admits(s.mode)),
            forall|i: int| 0 <= i < r@.len() ==> mode.admits((#[trigger] r@[i])@.mode),
    {
        let ghost keep = |s: AgentSpecView| mode.admits(s.mode);
        let mut out: Vec<AgentSpec> = Vec::new();
        let mut i: usize = 0;
        proof {
            reveal(Seq::filter);
            assert(self@.subrange(0, 0) =~= Seq::empty());
            assert(views(out@) =~= Seq::empty());
        }
        while i < self.specs.len()
            invariant
                i <= self.specs@.len(),
                keep == |s: AgentSpecView| mode.admits(s.mode),
                views(out@) == self@.subrange(0, i as int).filter(keep),
                forall|k: int| 0 <= k < out@.len() ==> mode.admits((#[trigger] out@[k])@.mode),
            decreases self.specs@.len() - i,
        {
            proof {
                reveal(Seq::filter);
                assert(self@.subrange(0, i + 1).drop_last() =~= self@.subrange(0, i as int));
            }
            if mode.selects(self.specs[i].mode) {
                let copy = self.specs[i].clone();
                let ghost before = out@;
                out.push(copy);
                assert(views(out@) =~= views(before).push(copy@));
            }
            i += 1;
        }
        assert(self@.subrange(0, self.specs@.len() as int) =~= self@);
        out
    }
}


/// The names and views of a list of runtime overrides.
pub open spec fn entry_views(definitions: Seq<(String, AgentRuntimeDefinition)>) -> Seq<
    (Seq<char>, AgentRuntimeDefinitionView),
> {
    definitions.map_values(|e: (String, AgentRuntimeDefinition)| (e.0@, e.1@))
}

/// How the members of an override document read: each under a non-empty
/// name, each value a runtime override, in the document's order.
pub open spec fn decoded_members(members: Seq<(Seq<char>, JsonView)>) -> Option<
    Seq<(Seq<char>, AgentRuntimeDefinitionView)>,
>
    decreases members.len(),
{
    if members.len() == 0 {
        Some(Seq::empty())
    } else {
        match (
            decoded_members(members.drop_last()),
            AgentRuntimeDefinitionView::decoded(members.last().1),
        ) {
            (Some(front), Some(d)) => if members.last().0.len() > 0 {
                Some(front.push((members.last().0, d)))
            } else {
                None
            },
            _ => None,
        }
    }
}

/// How an override document reads: an object from role names to runtime
/// overrides.
pub open spec fn decoded_definitions(value: JsonView) -> Option<
    Seq<(Seq<char>, AgentRuntimeDefinitionView)>,
> {
    match value {
        JsonView::Object(members) => decoded_members(members),
        _ => None,
    }
}

/// Whether `r` is what reading the overrides from a parsed text gives: a
/// `Parse` error with the parser's message where the text is no JSON, a
/// `Parse` error where the document is no map of overrides, else the
/// overrides.
pub open spec fn reads_as(
    document: Result<JsonView, Seq<char>>,
    r: Result<Vec<(String, AgentRuntimeDefinition)>, SessionError>,
) -> bool {
    match document {
        Ok(value) => decodes_as(value, r),
        Err(message) => r matches Err(SessionError::Parse(m)) && m@ == message,
    }
}

/// Whether `r` is what reading the overrides from a document gives.
pub open spec fn decodes_as(
    value: JsonView,
    r: Result<Vec<(String, AgentRuntimeDefinition)>, SessionError>,
) -> bool {
    match r {
        Ok(definitions) => decoded_definitions(value) == Some(entry_views(definitions@))
            && all_named(definitions@),
        Err(e) => decoded_definitions(value) is None && (e matches SessionError::Parse(m) && m@
            == "expected a JSON object that maps agent names to agent definitions"@),
    }
}

/// The runtime overrides that a JSON document declares, by role name.
pub fn definitions_from_json(value: &JsonValue) -> (r: Result<
    Vec<(String, AgentRuntimeDefinition)>,
    SessionError,
>)
    ensures
        decodes_as(value@, r),
{
    let mut out: Vec<(String, AgentRuntimeDefinition)> = Vec::new();
    let mut failed = false;
    proof {
        lemma_view_parts(*value);
    }
    if let JsonValue::Object(members) = value {
        let mut i: usize = 0;
        let ghost all = member_views(members@);
        assert(entry_views(out@) =~= Seq::empty());
        assert(all.subrange(0, 0) =~= Seq::empty());
        while i < members.len() && !failed
            invariant
                i <= members@.len(),
                value@ == JsonView::Object(all),
                all == member_views(members@),
                failed ==> decoded_members(all) is None,
                !failed ==> decoded_members(all.subrange(0, i as int)) == Some(entry_views(out@)),
                all_named(out@),
            decreases members@.len() - i + if failed { 0int } else { 1int },
        {
            proof {
                lemma_member_views(members@);
                assert(all.subrange(0, i + 1).drop_last() =~= all.subrange(0, i as int));
                assert(all.subrange(0, i + 1).last() == (members@[i as int].0@, members@[i as int].1@));
            }
            let read = AgentRuntimeDefinition::from_json(&members[i].1);
            match read {
                Some(definition) => {
                    if members[i].0.as_str().unicode_len() > 0 {
                        let ghost before = out@;
                        let name = members[i].0.clone();
                        out.push((name, definition));
                        proof {
                            assert(entry_views(out@) =~= entry_views(before).push(
                                (members@[i as int].0@, definition@),
                            ));
                        }
                        i += 1;
                    } else {
                        failed = true;
                    }
                },
                None => {
                    failed = true;
                },
            }
            proof {
                if failed {
                    lemma_decoded_prefix(all, i as int + 1);
                }
            }
        }
        proof {
            lemma_member_views(members@);
        }
        assert(!failed ==> all.subrange(0, all.len() as int) =~= all);
    } else {
        failed = true;
    }
    if failed {
        Err(
            SessionError::Parse(
                "expected a JSON object that maps agent names to agent definitions".to_owned(),
            ),
        )
    } else {
        Ok(out)
    }
}

/// Where a prefix of the members is malformed, so is the whole.
pub proof fn lemma_decoded_prefix(members: Seq<(Seq<char>, JsonView)>, n: int)
    requires
        0 <= n <= members.len(),
        decoded_members(members.subrange(0, n)) is None,
    ensures
        decoded_members(members) is None,
    decreases members.len(),
{
    if n < members.len() {
        assert(members.drop_last().subrange(0, n) =~= members.subrange(0, n));
        lemma_decoded_prefix(members.drop_last(), n);
    } else {
        assert(members.subrange(0, n) =~= members);
    }
}

/// Reads runtime overrides from a JSON text.
pub fn parse_agents_json(content: &str) -> (r: Result<
    Vec<(String, AgentRuntimeDefinition)>,
    SessionError,
>)
    ensures
        reads_as(json_document(content@), r),
{
    match parse_document(content) {
        Ok(value) => definitions_from_json(&value),
        Err(message) => Err(SessionError::Parse(message)),
    }
}

/// What became of the attempt to read an override source as a file.
#[derive(Debug)]
pub enum SourceFile {
    /// No file exists under that path.
    Missing,
    /// The file exists but could not be read; the text is the cause.
    Unreadable(String),
    /// The content of the file.
    Content(String),
}

/// Whether `r` is what reading overrides from a source gives: from the
/// file's content where the source names a file, from the source itself
/// where it names none, and an `Io` error where the file cannot be read.
pub open spec fn source_reads_as(
    value: Seq<char>,
    file: SourceFile,
    r: Result<Vec<(String, AgentRuntimeDefinition)>, SessionError>,
) -> bool {
    match file {
        SourceFile::Missing => reads_as(json_document(value), r),
        SourceFile::Unreadable(cause) => r matches Err(SessionError::Io(m)) && m@ == cause@,
        SourceFile::Content(text) => reads_as(json_document(text@), r),
    }
}

/// Reads runtime overrides from a source that is either the path of a file
/// or a JSON text; `file` says what reading it as a file gave.
pub fn parse_agents_source(value: &str, file: &SourceFile) -> (r: Result<
    Vec<(String, AgentRuntimeDefinition)>,
    SessionError,
>)
    ensures
        source_reads_as(value@, *file, r),
{
    match file {
        SourceFile::Missing => parse_agents_json(value),
        SourceFile::Unreadable(cause) => Err(SessionError::Io(cause.clone())),
        SourceFile::Content(text) => parse_agents_json(text.as_str()),
    }
}

} // verus!
