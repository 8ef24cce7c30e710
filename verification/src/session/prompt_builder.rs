//! Assembly of the prompt that a role is run with.

use vstd::prelude::*;
use crate::agent::spec::{AgentBudgets, AgentSpec, AgentSpecView};
use crate::util::text::{
    blank, from_chars, is_blank, joined, lemma_texts_push, push_joined, push_text, same_text,
    texts, trim, trimmed,
};

verus! {

/// The report format of a role that sets none.
pub open spec fn default_report_format() -> Seq<char> {
    "Return a concise summary of the task outcome, including key decisions and follow-up steps."@
}

/// The constraint that closes every list of constraints.
pub open spec fn default_constraint() -> Seq<char> {
    "Stream only final summaries back to the parent session."@
}

/// The role block: the prompt sections with a blank line between them,
/// then the trimmed description if it is not blank; a generic sentence
/// where that leaves nothing.
pub open spec fn role_section(spec: AgentSpecView) -> Seq<char> {
    let sections = joined(spec.prompt_sections, "\n\n"@);
    let described = match spec.description {
        Some(d) => if is_blank(d) {
            sections
        } else if sections.len() > 0 {
            sections + "\n\n"@ + trimmed(d)
        } else {
            trimmed(d)
        },
        None => sections,
    };
    if described.len() == 0 {
        "You are a focussed coding agent."@
    } else {
        described
    }
}

/// Each line as a bullet.
pub open spec fn bullets(lines: Seq<Seq<char>>) -> Seq<Seq<char>> {
    lines.map_values(|line: Seq<char>| "- "@ + line)
}

/// The constraints block: one bullet per set budget, in the order tokens,
/// tool timeout, wall clock, then the closing constraint.
pub open spec fn constraints_section(budgets: AgentBudgets) -> Seq<char> {
    joined(bullets(budgets.constraints().push(default_constraint())), "\n"@)
}

/// The report block: the role's report format, or the default.
pub open spec fn report_section(spec: AgentSpecView) -> Seq<char> {
    match spec.report_format {
        Some(f) => f,
        None => default_report_format(),
    }
}

/// The prompt: the five blocks in their fixed order, each between its tags.
pub open spec fn prompt_text(spec: AgentSpecView, rules: Seq<char>, objective: Seq<char>) -> Seq<
    char,
> {
    "<ROLE>\n"@ + role_section(spec) + "\n</ROLE>\n\n<OBJECTIVE>\n"@ + trimmed(objective)
        + "\n</OBJECTIVE>\n\n<PROJECT_RULES>\n"@ + rules
        + "\n</PROJECT_RULES>\n\n<CONSTRAINTS>\n"@ + constraints_section(spec.budgets)
        + "\n</CONSTRAINTS>\n\n<REPORT_FORMAT>\n"@ + report_section(spec) + "\n</REPORT_FORMAT>\n"@
}

/// Guidance text of a project, gathered by the caller from its files.
#[derive(Debug)]
pub struct ProjectContext {
    root: String,
    rules: String,
}

impl Clone for ProjectContext {
    fn clone(&self) -> (r: Self)
        ensures
            r.spec_rules() == self.spec_rules(),
            r.spec_root() == self.spec_root(),
    {
        ProjectContext { root: self.root.clone(), rules: self.rules.clone() }
    }
}

/// A file of project guidance: its path below the project's root, and
/// its content.
#[derive(Debug)]
pub struct RuleSource {
    pub path: String,
    pub content: String,
}

/// The section of the project's instructions: a heading and the
/// instructions, one to a line; nothing where there are none.
pub open spec fn instruction_sections(instructions: Option<Vec<String>>) -> Seq<Seq<char>> {
    match instructions {
        Some(list) => if list@.len() > 0 {
            seq!["# Project instructions\n"@ + joined(texts(list@), "\n"@)]
        } else {
            Seq::empty()
        },
        None => Seq::empty(),
    }
}

/// The sections of the files that are not blank: for each a heading with
/// its path, then its content.
pub open spec fn source_sections(sources: Seq<RuleSource>) -> Seq<Seq<char>>
    decreases sources.len(),
{
    if sources.len() == 0 {
        Seq::empty()
    } else {
        let rest = source_sections(sources.drop_last());
        if is_blank(sources.last().content@) {
            rest
        } else {
            rest.push("# Source: "@ + sources.last().path@ + "\n"@ + sources.last().content@)
        }
    }
}

/// The rules text of a project: the section of its instructions, then
/// those of its files, a blank line between sections; a fixed sentence
/// where there is no section.
pub open spec fn rules_text(instructions: Option<Vec<String>>, sources: Seq<RuleSource>) -> Seq<char> {
    let sections = instruction_sections(instructions) + source_sections(sources);
    if sections.len() == 0 {
        "No repository-specific instructions were discovered."@
    } else {
        joined(sections, "\n\n"@)
    }
}

/// The text in lower case, as `str::to_lowercase` gives it.
pub uninterp spec fn lowercased(text: Seq<char>) -> Seq<char>;

/// `str::to_lowercase`: the text with every character in its lower-case
/// form by the Unicode tables. A function of the text alone.
#[verifier::external_body]
fn to_lowercase(text: &str) -> (r: String)
    ensures
        r@ == lowercased(text@),
{
    text.to_lowercase()
}

/// Whether a file is one of project guidance: its name in lower case is
/// one of the guidance names, or it lies in or below a directory
/// `migration` and its extension is `md`. `parts` are the components of
/// the file's path, its name last.
pub open spec fn is_rule_source(
    name: Seq<char>,
    parts: Seq<Seq<char>>,
    extension: Option<Seq<char>>,
    guidance: Seq<Seq<char>>,
) -> bool {
    guidance.contains(lowercased(name)) || (parts.contains("migration"@) && extension == Some(
        "md"@,
    ))
}

/// The guidance name that every project has: `agents.md`. A project with
/// further conventions adds its names with `guidance_names_with`.
pub fn guidance_names() -> (r: Vec<String>)
    ensures
        texts(r@) == seq!["agents.md"@],
{
    let mut names: Vec<String> = Vec::new();
    let name = "agents.md".to_owned();
    proof {
        assert(texts(names@) =~= Seq::empty());
        lemma_texts_push(names@, name);
    }
    names.push(name);
    names
}

/// The guidance names of a project that follows conventions of its own:
/// `agents.md`, then the given names in lower case.
pub fn guidance_names_with(extra: &[String]) -> (r: Vec<String>)
    ensures
        texts(r@) == seq!["agents.md"@] + texts(extra@).map_values(|n: Seq<char>| lowercased(n)),
{
    let mut names = guidance_names();
    let mut i: usize = 0;
    assert(texts(names@) =~= seq!["agents.md"@] + texts(extra@.subrange(0, 0)).map_values(
        |n: Seq<char>| lowercased(n),
    ));
    while i < extra.len()
        invariant
            i <= extra@.len(),
            texts(names@) == seq!["agents.md"@] + texts(extra@.subrange(0, i as int)).map_values(
                |n: Seq<char>| lowercased(n),
            ),
        decreases extra@.len() - i,
    {
        let name = to_lowercase(extra[i].as_str());
        proof {
            lemma_texts_push(names@, name);
            lemma_texts_push(extra@.subrange(0, i as int), extra@[i as int]);
            assert(extra@.subrange(0, i + 1) =~= extra@.subrange(0, i as int).push(extra@[i as int]));
        }
        names.push(name);
        i += 1;
        assert(texts(names@) =~= seq!["agents.md"@] + texts(extra@.subrange(0, i as int)).map_values(
            |n: Seq<char>| lowercased(n),
        ));
    }
    assert(extra@.subrange(0, extra@.len() as int) =~= extra@);
    names
}

/// Whether a file that a walk found is one of project guidance.
pub fn collect_rule_source(
    name: &str,
    parts: &[String],
    extension: Option<&str>,
    guidance: &[String],
) -> (r: bool)
    ensures
        r == is_rule_source(
            name@,
            texts(parts@),
            match extension {
                Some(e) => Some(e@),
                None => None,
            },
            texts(guidance@),
        ),
{
    let lowered = to_lowercase(name);
    if crate::agent::spec::listed(guidance, lowered.as_str()) {
        return true;
    }
    if crate::agent::spec::listed(parts, "migration") {
        match extension {
            Some(e) => same_text(e, "md"),
            None => false,
        }
    } else {
        false
    }
}

impl ProjectContext {
    /// The context of the project under `root`, with the rules text made
    /// of its configured instructions and of the guidance files found.
    pub fn gather(root: &str, instructions: &Option<Vec<String>>, sources: &[RuleSource]) -> (r: Self)
        ensures
            r.spec_root() == root@,
            r.spec_rules() == rules_text(*instructions, sources@),
    {
        let mut sections: Vec<String> = Vec::new();
        assert(texts(sections@) =~= Seq::empty());
        if let Some(list) = instructions {
            if list.len() > 0 {
                let mut section: Vec<char> = Vec::new();
                push_text(&mut section, "# Project instructions\n");
                push_joined(&mut section, list.as_slice(), "\n");
                let text = from_chars(section.as_slice());
                proof {
                    lemma_texts_push(sections@, text);
                    assert(section@ =~= "# Project instructions\n"@ + joined(texts(list@), "\n"@));
                }
                sections.push(text);
            }
        }
        let ghost head = texts(sections@);
        assert(head =~= instruction_sections(*instructions));
        let mut i: usize = 0;
        assert(sources@.subrange(0, 0) =~= Seq::empty());
        assert(texts(sections@) =~= head + source_sections(sources@.subrange(0, 0)));
        while i < sources.len()
            invariant
                i <= sources@.len(),
                texts(sections@) == head + source_sections(sources@.subrange(0, i as int)),
            decreases sources@.len() - i,
        {
            proof {
                assert(sources@.subrange(0, i + 1).drop_last() =~= sources@.subrange(0, i as int));
            }
            if !blank(sources[i].content.as_str()) {
                let mut section: Vec<char> = Vec::new();
                push_text(&mut section, "# Source: ");
                push_text(&mut section, sources[i].path.as_str());
                push_text(&mut section, "\n");
                push_text(&mut section, sources[i].content.as_str());
                let text = from_chars(section.as_slice());
                proof {
                    lemma_texts_push(sections@, text);
                    assert(section@ =~= "# Source: "@ + sources@[i as int].path@ + "\n"@
                        + sources@[i as int].content@);
                }
                sections.push(text);
            }
            i += 1;
            assert(texts(sections@) =~= head + source_sections(sources@.subrange(0, i as int)));
        }
        assert(sources@.subrange(0, sources@.len() as int) =~= sources@);
        let rules = if sections.len() == 0 {
            "No repository-specific instructions were discovered.".to_owned()
        } else {
            crate::util::text::join(sections.as_slice(), "\n\n")
        };
        ProjectContext { root: root.to_owned(), rules }
    }

    /// The rules text.
    pub closed spec fn spec_rules(&self) -> Seq<char> {
        self.rules@
    }

    /// The path of the project's root.
    pub closed spec fn spec_root(&self) -> Seq<char> {
        self.root@
    }

    /// The context of the project under `root` with the given rules text.
    pub fn new(root: &str, rules: &str) -> (r: Self)
        ensures
            r.spec_root() == root@,
            r.spec_rules() == rules@,
    {
        ProjectContext { root: root.to_owned(), rules: rules.to_owned() }
    }

    /// The rules text.
    pub fn rules(&self) -> (r: &str)
        ensures
            r@ == self.spec_rules(),
    {
        self.rules.as_str()
    }

    /// The path of the project's root.
    pub fn root(&self) -> (r: &str)
        ensures
            r@ == self.spec_root(),
    {
        self.root.as_str()
    }
}

/// Builds the prompt of one role for one objective.
pub struct PromptBuilder<'a> {
    spec: &'a AgentSpec,
    context: &'a ProjectContext,
    objective: &'a str,
}

impl<'a> PromptBuilder<'a> {
    /// The prompt that `build` returns.
    pub closed spec fn text(&self) -> Seq<char> {
        prompt_text(self.spec@, self.context.spec_rules(), self.objective@)
    }

    /// A builder for this role, project and objective.
    pub fn new(spec: &'a AgentSpec, context: &'a ProjectContext, objective: &'a str) -> (r: Self)
        ensures
            r.text() == prompt_text(spec@, context.spec_rules(), objective@),
    {
        PromptBuilder { spec, context, objective }
    }

    /// The prompt.
    pub fn build(&self) -> (r: String)
        ensures
            r@ == self.text(),
    {
        build_prompt(self.spec, self.context.rules(), self.objective)
    }
}

/// The prompt of a role for an objective under the given project rules.
pub fn build_prompt(spec: &AgentSpec, rules: &str, objective: &str) -> (r: String)
    ensures
        r@ == prompt_text(spec@, rules@, objective@),
{
    let mut role: Vec<char> = Vec::new();
    push_joined(&mut role, spec.prompt_sections.as_slice(), "\n\n");
    assert(role@ =~= joined(spec@.prompt_sections, "\n\n"@));
    if let Some(description) = &spec.description {
        if !blank(description.as_str()) {
            if role.len() > 0 {
                push_text(&mut role, "\n\n");
            }
            let piece = trim(description.as_str());
            push_text(&mut role, piece.as_str());
        }
    }
    if role.len() == 0 {
        push_text(&mut role, "You are a focussed coding agent.");
    }
    assert(role@ =~= role_section(spec@));
    let constraints = compose_constraints(&spec.budgets);
    let goal = trim(objective);
    let mut out: Vec<char> = Vec::new();
    push_text(&mut out, "<ROLE>\n");
    crate::util::text::push_chars(&mut out, role.as_slice());
    push_text(&mut out, "\n</ROLE>\n\n<OBJECTIVE>\n");
    push_text(&mut out, goal.as_str());
    push_text(&mut out, "\n</OBJECTIVE>\n\n<PROJECT_RULES>\n");
    push_text(&mut out, rules);
    push_text(&mut out, "\n</PROJECT_RULES>\n\n<CONSTRAINTS>\n");
    push_text(&mut out, constraints.as_str());
    push_text(&mut out, "\n</CONSTRAINTS>\n\n<REPORT_FORMAT>\n");
    match &spec.report_format {
        Some(format) => push_text(&mut out, format.as_str()),
        None => push_text(
            &mut out,
            "Return a concise summary of the task outcome, including key decisions and follow-up steps.",
        ),
    }
    push_text(&mut out, "\n</REPORT_FORMAT>\n");
    assert(out@ =~= prompt_text(spec@, rules@, objective@));
    from_chars(out.as_slice())
}

/// The constraints block of a role with these budgets.
pub fn compose_constraints(budgets: &AgentBudgets) -> (r: String)
    ensures
        r@ == constraints_section(*budgets),
{
    let mut items = budgets.describe_constraints();
    let closing = "Stream only final summaries back to the parent session.".to_owned();
    proof {
        lemma_texts_push(items@, closing);
    }
    items.push(closing);
    let mut lines: Vec<String> = Vec::new();
    let mut i: usize = 0;
    assert(texts(lines@) =~= bullets(texts(items@.subrange(0, 0))));
    while i < items.len()
        invariant
            i <= items@.len(),
            texts(lines@) == bullets(texts(items@.subrange(0, i as int))),
        decreases items@.len() - i,
    {
        let mut line: Vec<char> = Vec::new();
        push_text(&mut line, "- ");
        push_text(&mut line, items[i].as_str());
        let bullet = from_chars(line.as_slice());
        proof {
            lemma_texts_push(lines@, bullet);
            lemma_texts_push(items@.subrange(0, i as int), items@[i as int]);
            assert(items@.subrange(0, i + 1) =~= items@.subrange(0, i as int).push(items@[i as int]));
            assert(bullets(texts(items@.subrange(0, i as int)).push(items@[i as int]@)) =~= bullets(
                texts(items@.subrange(0, i as int)),
            ).push("- "@ + items@[i as int]@));
        }
        lines.push(bullet);
        i += 1;
    }
    assert(items@.subrange(0, items@.len() as int) =~= items@);
    crate::util::text::join(lines.as_slice(), "\n")
}

} // verus!
