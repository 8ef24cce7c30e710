//! The rules that a static configuration must keep, and the validation that
//! reports which of them it breaks.

use vstd::prelude::*;
use crate::util::config::{
    AgentConfig, ExperimentalConfig, FormatterConfig, HookCommand, HookConfig, Info, Keybinds, LspConfig,
    McpConfig, ProviderConfig, ProviderOptions, Timeout, Tui, WatcherSettings,
};
use crate::util::text::{blank, decimal, from_chars, is_blank, push_decimal, push_text};

verus! {

/// A rule that a configuration breaks: the path of the field, and the
/// kind of the rule.
#[derive(Debug)]
pub struct Violation {
    pub field: String,
    pub code: String,
}

/// The paths and kinds of a list of violations.
pub open spec fn violation_views(list: Seq<Violation>) -> Seq<(Seq<char>, Seq<char>)> {
    list.map_values(|v: Violation| (v.field@, v.code@))
}

/// Whether `url::Url::parse` accepts the text, as `validator` asks it.
pub uninterp spec fn url_accepted(text: Seq<char>) -> bool;

/// `validator::ValidateUrl::validate_url` on a string: whether
/// `url::Url::parse` accepts it. A function of the text alone.
#[verifier::external_body]
fn is_url(text: &str) -> (r: bool)
    ensures
        r == url_accepted(text@),
{
    validator::ValidateUrl::validate_url(text)
}

/// One violation where `broken`, else none.
pub open spec fn when(broken: bool, path: Seq<char>, code: Seq<char>) -> Seq<(Seq<char>, Seq<char>)> {
    if broken {
        seq![(path, code)]
    } else {
        Seq::empty()
    }
}

/// A text that is set must not be blank.
pub open spec fn blank_text(value: Option<String>, path: Seq<char>) -> Seq<(Seq<char>, Seq<char>)> {
    when(value matches Some(s) && is_blank(s@), path, "length"@)
}

/// A text that is set must not be empty.
pub open spec fn empty_text(value: Option<String>, path: Seq<char>) -> Seq<(Seq<char>, Seq<char>)> {
    when(value matches Some(s) && s@.len() == 0, path, "length"@)
}

/// A list that is set must not be empty.
pub open spec fn empty_list(value: Option<Vec<String>>, path: Seq<char>) -> Seq<
    (Seq<char>, Seq<char>),
> {
    when(value matches Some(list) && list@.len() == 0, path, "length"@)
}

/// Whether one of the patterns is blank.
pub open spec fn has_blank(patterns: Seq<String>) -> bool {
    exists|i: int| 0 <= i < patterns.len() && is_blank(#[trigger] patterns[i]@)
}

/// Whether one of the names is empty.
pub open spec fn has_unnamed<T>(entries: Seq<(String, T)>) -> bool {
    exists|i: int| 0 <= i < entries.len() && (#[trigger] entries[i]).0@.len() == 0
}

/// The agents: every agent must have a name.
pub open spec fn agent_violations(agents: Option<Vec<(String, AgentConfig)>>) -> Seq<
    (Seq<char>, Seq<char>),
> {
    when(agents matches Some(list) && has_unnamed(list@), "agent"@, "length"@)
}

/// The key bindings: a leader key that is set must not be empty.
pub open spec fn keybinds_violations(keybinds: Keybinds, prefix: Seq<char>) -> Seq<
    (Seq<char>, Seq<char>),
> {
    empty_text(keybinds.leader, prefix + "leader"@)
}

/// The terminal view: the scroll speed must be at least one.
pub open spec fn tui_violations(tui: Tui, prefix: Seq<char>) -> Seq<(Seq<char>, Seq<char>)> {
    when(tui.scroll_speed < 1, prefix + "scroll_speed"@, "range"@)
}

/// The watcher: no ignore pattern may be blank.
pub open spec fn watcher_violations(watcher: WatcherSettings, prefix: Seq<char>) -> Seq<
    (Seq<char>, Seq<char>),
> {
    when(has_blank(watcher.ignore@), prefix + "ignore"@, "glob"@)
}

/// The options of a provider: a key and a base address that are set must
/// not be empty, and a timeout in milliseconds must not be zero.
pub open spec fn options_violations(options: ProviderOptions, prefix: Seq<char>) -> Seq<
    (Seq<char>, Seq<char>),
> {
    empty_text(options.api_key, prefix + "api_key"@) + empty_text(
        options.base_url,
        prefix + "base_url"@,
    ) + when(options.timeout matches Some(Timeout::Millis(ms)) && ms == 0, prefix + "timeout"@, "timeout"@)
}

/// A provider: the rules of its options, where it has any.
pub open spec fn provider_violations(provider: ProviderConfig, prefix: Seq<char>) -> Seq<
    (Seq<char>, Seq<char>),
> {
    match provider.options {
        Some(options) => options_violations(options, prefix),
        None => Seq::empty(),
    }
}

/// A server of the model context protocol: a local one must have a
/// command, a remote one an address that is a URL.
pub open spec fn mcp_violations(mcp: McpConfig, prefix: Seq<char>) -> Seq<(Seq<char>, Seq<char>)> {
    match mcp {
        McpConfig::Local(local) => when(local.command@.len() == 0, prefix + "command"@, "length"@),
        McpConfig::Remote(remote) => when(!url_accepted(remote.url@), prefix + "url"@, "url"@),
    }
}

/// A formatter: a command that is set must not be empty.
pub open spec fn formatter_violations(formatter: FormatterConfig, prefix: Seq<char>) -> Seq<
    (Seq<char>, Seq<char>),
> {
    empty_list(formatter.command, prefix + "command"@)
}

/// A language server: a disabled entry keeps every rule; a configured one
/// must have a command and, where extensions are set, at least one; and
/// unless it is switched off it must have extensions.
pub open spec fn lsp_violations(lsp: LspConfig, prefix: Seq<char>) -> Seq<(Seq<char>, Seq<char>)> {
    match lsp {
        LspConfig::Disabled(_) => Seq::empty(),
        LspConfig::Configurable(server) => {
            let own = when(server.command@.len() == 0, prefix + "command"@, "length"@) + empty_list(
                server.extensions,
                prefix + "extensions"@,
            );
            if own.len() > 0 {
                own
            } else if server.disabled == Some(true) {
                Seq::empty()
            } else {
                when(server.extensions is None, prefix + "extensions"@, "required"@)
            }
        },
    }
}

/// The place of a command in a list, as a path.
pub open spec fn indexed(prefix: Seq<char>, index: nat) -> Seq<char> {
    prefix + "["@ + decimal(index) + "]."@
}

/// The commands of a hook: each must have a command line.
pub open spec fn commands_violations(commands: Seq<HookCommand>, prefix: Seq<char>) -> Seq<
    (Seq<char>, Seq<char>),
>
    decreases commands.len(),
{
    if commands.len() == 0 {
        Seq::empty()
    } else {
        commands_violations(commands.drop_last(), prefix) + when(
            commands.last().command@.len() == 0,
            indexed(prefix, (commands.len() - 1) as nat) + "command"@,
            "length"@,
        )
    }
}

/// The hooks for edited files: the rules of the commands of each pattern.
pub open spec fn file_hooks_violations(
    hooks: Seq<(String, Vec<HookCommand>)>,
    prefix: Seq<char>,
) -> Seq<(Seq<char>, Seq<char>)>
    decreases hooks.len(),
{
    if hooks.len() == 0 {
        Seq::empty()
    } else {
        file_hooks_violations(hooks.drop_last(), prefix) + commands_violations(
            hooks.last().1@,
            prefix + "file_edited."@ + hooks.last().0@,
        )
    }
}

/// The hooks: the rules of the hooks for edited files; and the hooks for
/// a completed session, where set, must not be empty and keep the rules
/// of their commands.
pub open spec fn hook_violations(hook: HookConfig, prefix: Seq<char>) -> Seq<(Seq<char>, Seq<char>)> {
    (match hook.file_edited {
        Some(hooks) => file_hooks_violations(hooks@, prefix),
        None => Seq::empty(),
    }) + (match hook.session_completed {
        Some(commands) => if commands@.len() == 0 {
            seq![(prefix + "session_completed"@, "length"@)]
        } else {
            commands_violations(commands@, prefix + "session_completed"@)
        },
        None => Seq::empty(),
    })
}

/// The experimental settings: the rules of the hooks, where there are any.
pub open spec fn experimental_violations(experimental: ExperimentalConfig, prefix: Seq<char>) -> Seq<
    (Seq<char>, Seq<char>),
> {
    match experimental.hook {
        Some(hook) => hook_violations(hook, prefix),
        None => Seq::empty(),
    }
}

/// The rules of every entry of a map, each under the path of its name.
pub open spec fn entries_violations<T>(
    entries: Seq<(String, T)>,
    prefix: Seq<char>,
    rule: spec_fn(T, Seq<char>) -> Seq<(Seq<char>, Seq<char>)>,
) -> Seq<(Seq<char>, Seq<char>)>
    decreases entries.len(),
{
    if entries.len() == 0 {
        Seq::empty()
    } else {
        entries_violations(entries.drop_last(), prefix, rule) + rule(
            entries.last().1,
            prefix + entries.last().0@ + "."@,
        )
    }
}

/// The rules of an optional map.
pub open spec fn map_violations<T>(
    entries: Option<Vec<(String, T)>>,
    prefix: Seq<char>,
    rule: spec_fn(T, Seq<char>) -> Seq<(Seq<char>, Seq<char>)>,
) -> Seq<(Seq<char>, Seq<char>)> {
    match entries {
        Some(list) => entries_violations(list@, prefix, rule),
        None => Seq::empty(),
    }
}

impl Info {
    /// The rules that the configuration breaks, in the order of its
    /// fields: the schema, the theme and the user name must not be blank
    /// and every agent must have a name; then the rules of the key
    /// bindings, the terminal view, the
    /// watcher, each provider, each server of the model context protocol,
    /// each formatter, each language server, and the experimental
    /// settings.
    pub open spec fn violations(self) -> Seq<(Seq<char>, Seq<char>)> {
        self.fixed_violations() + map_violations(
            self.provider,
            "provider."@,
            |x: ProviderConfig, prefix: Seq<char>| provider_violations(x, prefix),
        ) + map_violations(
            self.mcp,
            "mcp."@,
            |x: McpConfig, prefix: Seq<char>| mcp_violations(x, prefix),
        ) + map_violations(
            self.formatter,
            "formatter."@,
            |x: FormatterConfig, prefix: Seq<char>| formatter_violations(x, prefix),
        ) + map_violations(
            self.lsp,
            "lsp."@,
            |x: LspConfig, prefix: Seq<char>| lsp_violations(x, prefix),
        ) + (match self.experimental {
            Some(e) => experimental_violations(e, "experimental."@),
            None => Seq::empty(),
        })
    }

    /// The rules of the fields that are no maps, in their order.
    pub open spec fn fixed_violations(self) -> Seq<(Seq<char>, Seq<char>)> {
        blank_text(self.schema, "$schema"@) + blank_text(self.theme, "theme"@) + blank_text(
            self.username,
            "username"@,
        ) + agent_violations(self.agent) + keybinds_part(self.keybinds) + tui_part(self.tui)
            + watcher_part(self.watcher)
    }
}

/// The rules of the key bindings, where there are any.
pub open spec fn keybinds_part(keybinds: Option<Keybinds>) -> Seq<(Seq<char>, Seq<char>)> {
    match keybinds {
        Some(k) => keybinds_violations(k, "keybinds."@),
        None => Seq::empty(),
    }
}

/// The rules of the terminal view, where it is configured.
pub open spec fn tui_part(tui: Option<Tui>) -> Seq<(Seq<char>, Seq<char>)> {
    match tui {
        Some(t) => tui_violations(t, "tui."@),
        None => Seq::empty(),
    }
}

/// The rules of the watcher, where it is configured.
pub open spec fn watcher_part(watcher: Option<WatcherSettings>) -> Seq<(Seq<char>, Seq<char>)> {
    match watcher {
        Some(w) => watcher_violations(w, "watcher."@),
        None => Seq::empty(),
    }
}

/// The path of a field under a prefix.
fn path(prefix: &str, field: &str) -> (r: String)
    ensures
        r@ == prefix@ + field@,
{
    let mut out: Vec<char> = Vec::new();
    push_text(&mut out, prefix);
    push_text(&mut out, field);
    assert(out@ =~= prefix@ + field@);
    from_chars(out.as_slice())
}

/// Records a violation of the rule `code` by the field `field`.
pub fn push_field_error(errors: &mut Vec<Violation>, field: String, code: &str)
    ensures
        violation_views(final(errors)@) == violation_views(old(errors)@).push((field@, code@)),
{
    let ghost before = violation_views(errors@);
    let violation = Violation { field, code: code.to_owned() };
    errors.push(violation);
    assert(violation_views(errors@) =~= before.push((violation.field@, violation.code@)));
}

fn check(errors: &mut Vec<Violation>, broken: bool, prefix: &str, field: &str, code: &str)
    ensures
        violation_views(final(errors)@) == violation_views(old(errors)@) + when(
            broken,
            prefix@ + field@,
            code@,
        ),
{
    if broken {
        push_field_error(errors, path(prefix, field), code);
        assert(violation_views(errors@) =~= violation_views(old(errors)@) + when(
            broken,
            prefix@ + field@,
            code@,
        ));
    } else {
        assert(violation_views(errors@) =~= violation_views(old(errors)@) + when(
            broken,
            prefix@ + field@,
            code@,
        ));
    }
}

fn check_at(errors: &mut Vec<Violation>, broken: bool, field: &str, code: &str)
    ensures
        violation_views(final(errors)@) == violation_views(old(errors)@) + when(
            broken,
            field@,
            code@,
        ),
{
    if broken {
        push_field_error(errors, field.to_owned(), code);
    }
    assert(violation_views(errors@) =~= violation_views(old(errors)@) + when(
        broken,
        field@,
        code@,
    ));
}

/// Whether a text that is set is blank.
fn is_blank_text(value: &Option<String>) -> (r: bool)
    ensures
        r == (*value matches Some(s) && is_blank(s@)),
{
    match value {
        Some(s) => blank(s.as_str()),
        None => false,
    }
}

/// Whether a text that is set is empty.
fn is_empty_text(value: &Option<String>) -> (r: bool)
    ensures
        r == (*value matches Some(s) && s@.len() == 0),
{
    match value {
        Some(s) => s.as_str().unicode_len() == 0,
        None => false,
    }
}

/// Whether a list that is set is empty.
fn is_empty_list(value: &Option<Vec<String>>) -> (r: bool)
    ensures
        r == (*value matches Some(list) && list@.len() == 0),
{
    match value {
        Some(list) => list.len() == 0,
        None => false,
    }
}

/// Whether an agent has an empty name.
fn has_unnamed_agent(agents: &Option<Vec<(String, AgentConfig)>>) -> (r: bool)
    ensures
        r == (*agents matches Some(list) && has_unnamed(list@)),
{
    match agents {
        Some(list) => {
            let mut i: usize = 0;
            while i < list.len()
                invariant
                    i <= list@.len(),
                    *agents == Some(*list),
                    forall|k: int| 0 <= k < i ==> (#[trigger] list@[k]).0@.len() > 0,
                decreases list@.len() - i,
            {
                if list[i].0.as_str().unicode_len() == 0 {
                    assert(list@[i as int].0@.len() == 0);
                    return true;
                }
                i += 1;
            }
            false
        },
        None => false,
    }
}

/// Whether a timeout is one of zero milliseconds.
pub fn validate_timeout_option(value: &Timeout) -> (r: bool)
    ensures
        r == !(*value matches Timeout::Millis(ms) && ms == 0),
{
    match value {
        Timeout::Millis(ms) => *ms != 0,
        Timeout::Disabled => true,
    }
}

/// Whether no pattern is blank.
pub fn validate_glob_patterns(patterns: &Vec<String>) -> (r: bool)
    ensures
        r == !has_blank(patterns@),
{
    let mut i: usize = 0;
    while i < patterns.len()
        invariant
            i <= patterns@.len(),
            forall|k: int| 0 <= k < i ==> !is_blank(#[trigger] patterns@[k]@),
        decreases patterns@.len() - i,
    {
        if blank(patterns[i].as_str()) {
            return false;
        }
        i += 1;
    }
    true
}

fn check_options(errors: &mut Vec<Violation>, options: &ProviderOptions, prefix: &str)
    ensures
        violation_views(final(errors)@) == violation_views(old(errors)@) + options_violations(
            *options,
            prefix@,
        ),
{
    check(errors, is_empty_text(&options.api_key), prefix, "api_key", "length");
    check(errors, is_empty_text(&options.base_url), prefix, "base_url", "length");
    let zero = match &options.timeout {
        Some(t) => !validate_timeout_option(t),
        None => false,
    };
    check(errors, zero, prefix, "timeout", "timeout");
    assert(violation_views(errors@) =~= violation_views(old(errors)@) + options_violations(
        *options,
        prefix@,
    ));
}

fn check_commands(errors: &mut Vec<Violation>, commands: &Vec<HookCommand>, prefix: &str)
    ensures
        violation_views(final(errors)@) == violation_views(old(errors)@) + commands_violations(
            commands@,
            prefix@,
        ),
{
    let mut i: usize = 0;
    assert(commands@.subrange(0, 0) =~= Seq::empty());
    assert(violation_views(errors@) =~= violation_views(old(errors)@) + commands_violations(
        commands@.subrange(0, 0),
        prefix@,
    ));
    while i < commands.len()
        invariant
            i <= commands@.len(),
            violation_views(errors@) == violation_views(old(errors)@) + commands_violations(
                commands@.subrange(0, i as int),
                prefix@,
            ),
        decreases commands@.len() - i,
    {
        proof {
            assert(commands@.subrange(0, i + 1).drop_last() =~= commands@.subrange(0, i as int));
        }
        let mut place: Vec<char> = Vec::new();
        push_text(&mut place, prefix);
        push_text(&mut place, "[");
        push_decimal(&mut place, i as u64);
        push_text(&mut place, "].");
        let here = from_chars(place.as_slice());
        assert(here@ =~= indexed(prefix@, i as nat));
        let ghost before = violation_views(errors@);
        check(errors, commands[i].command.len() == 0, here.as_str(), "command", "length");
        i += 1;
        assert(violation_views(errors@) =~= violation_views(old(errors)@) + commands_violations(
            commands@.subrange(0, i as int),
            prefix@,
        ));
    }
    assert(commands@.subrange(0, commands@.len() as int) =~= commands@);
}

fn check_hook(errors: &mut Vec<Violation>, hook: &HookConfig, prefix: &str)
    ensures
        violation_views(final(errors)@) == violation_views(old(errors)@) + hook_violations(
            *hook,
            prefix@,
        ),
{
    let ghost start = violation_views(errors@);
    if let Some(hooks) = &hook.file_edited {
        let mut i: usize = 0;
        assert(hooks@.subrange(0, 0) =~= Seq::empty());
        assert(violation_views(errors@) =~= start + file_hooks_violations(
            hooks@.subrange(0, 0),
            prefix@,
        ));
        while i < hooks.len()
            invariant
                i <= hooks@.len(),
                violation_views(errors@) == start + file_hooks_violations(
                    hooks@.subrange(0, i as int),
                    prefix@,
                ),
            decreases hooks@.len() - i,
        {
            proof {
                assert(hooks@.subrange(0, i + 1).drop_last() =~= hooks@.subrange(0, i as int));
            }
            let mut place: Vec<char> = Vec::new();
            push_text(&mut place, prefix);
            push_text(&mut place, "file_edited.");
            push_text(&mut place, hooks[i].0.as_str());
            let here = from_chars(place.as_slice());
            assert(here@ =~= prefix@ + "file_edited."@ + hooks@[i as int].0@);
            check_commands(errors, &hooks[i].1, here.as_str());
            i += 1;
            assert(violation_views(errors@) =~= start + file_hooks_violations(
                hooks@.subrange(0, i as int),
                prefix@,
            ));
        }
        assert(hooks@.subrange(0, hooks@.len() as int) =~= hooks@);
    }
    let ghost middle = violation_views(errors@);
    if let Some(commands) = &hook.session_completed {
        if commands.len() == 0 {
            push_field_error(errors, path(prefix, "session_completed"), "length");
        } else {
            let here = path(prefix, "session_completed");
            check_commands(errors, commands, here.as_str());
        }
    }
    assert(violation_views(errors@) =~= start + hook_violations(*hook, prefix@));
}

impl ProviderConfig {
    /// Records the rules that the provider breaks.
    pub fn validate(&self, errors: &mut Vec<Violation>, prefix: &str)
        ensures
            violation_views(final(errors)@) == violation_views(old(errors)@) + provider_violations(
                *self,
                prefix@,
            ),
    {
        match &self.options {
            Some(options) => check_options(errors, options, prefix),
            None => {
                assert(violation_views(errors@) =~= violation_views(old(errors)@) + Seq::empty());
            },
        }
    }
}

impl McpConfig {
    /// Records the rules that the server breaks.
    pub fn validate(&self, errors: &mut Vec<Violation>, prefix: &str)
        ensures
            violation_views(final(errors)@) == violation_views(old(errors)@) + mcp_violations(
                *self,
                prefix@,
            ),
    {
        match self {
            McpConfig::Local(local) => check(
                errors,
                local.command.len() == 0,
                prefix,
                "command",
                "length",
            ),
            McpConfig::Remote(remote) => check(
                errors,
                !is_url(remote.url.as_str()),
                prefix,
                "url",
                "url",
            ),
        }
    }
}

impl LspConfig {
    /// Records the rules that the language server breaks.
    pub fn validate(&self, errors: &mut Vec<Violation>, prefix: &str)
        ensures
            violation_views(final(errors)@) == violation_views(old(errors)@) + lsp_violations(
                *self,
                prefix@,
            ),
    {
        let ghost start = violation_views(errors@);
        match self {
            LspConfig::Disabled(_) => {
                assert(violation_views(errors@) =~= start + Seq::empty());
            },
            LspConfig::Configurable(config) => {
                let no_command = config.command.len() == 0;
                let no_extension = is_empty_list(&config.extensions);
                check(errors, no_command, prefix, "command", "length");
                check(errors, no_extension, prefix, "extensions", "length");
                if no_command || no_extension {
                    assert(violation_views(errors@) =~= start + lsp_violations(*self, prefix@));
                    return ;
                }
                let off = match config.disabled {
                    Some(flag) => flag,
                    None => false,
                };
                if off {
                    assert(violation_views(errors@) =~= start + lsp_violations(*self, prefix@));
                    return ;
                }
                check(errors, config.extensions.is_none(), prefix, "extensions", "required");
                assert(violation_views(errors@) =~= start + lsp_violations(*self, prefix@));
            },
        }
    }
}

impl HookConfig {
    /// Records the rules that the hooks break.
    pub fn validate(&self, errors: &mut Vec<Violation>, prefix: &str)
        ensures
            violation_views(final(errors)@) == violation_views(old(errors)@) + hook_violations(
                *self,
                prefix@,
            ),
    {
        check_hook(errors, self, prefix);
    }
}

impl ExperimentalConfig {
    /// Records the rules that the experimental settings break.
    pub fn validate(&self, errors: &mut Vec<Violation>, prefix: &str)
        ensures
            violation_views(final(errors)@) == violation_views(old(errors)@)
                + experimental_violations(*self, prefix@),
    {
        match &self.hook {
            Some(hook) => hook.validate(errors, prefix),
            None => {
                assert(violation_views(errors@) =~= violation_views(old(errors)@) + Seq::empty());
            },
        }
    }
}

/// The path of the entries of a map entry: the prefix, the name, a dot.
fn entry_prefix(prefix: &str, name: &str) -> (r: String)
    ensures
        r@ == prefix@ + name@ + "."@,
{
    let mut out: Vec<char> = Vec::new();
    push_text(&mut out, prefix);
    push_text(&mut out, name);
    push_text(&mut out, ".");
    assert(out@ =~= prefix@ + name@ + "."@);
    from_chars(out.as_slice())
}

fn check_providers(errors: &mut Vec<Violation>, entries: &Option<Vec<(String, ProviderConfig)>>)
    ensures
        violation_views(final(errors)@) == violation_views(old(errors)@) + map_violations(
            *entries,
            "provider."@,
            |x: ProviderConfig, prefix: Seq<char>| provider_violations(x, prefix),
        ),
{
    let ghost start = violation_views(errors@);
    let ghost rule = |x: ProviderConfig, prefix: Seq<char>| provider_violations(x, prefix);
    match entries {
        Some(list) => {
            let mut i: usize = 0;
            assert(list@.subrange(0, 0) =~= Seq::empty());
            assert(violation_views(errors@) =~= start + entries_violations(
                list@.subrange(0, 0),
                "provider."@,
                rule,
            ));
            while i < list.len()
                invariant
                    i <= list@.len(),
                    rule == |x: ProviderConfig, prefix: Seq<char>| provider_violations(x, prefix),
                    violation_views(errors@) == start + entries_violations(
                        list@.subrange(0, i as int),
                        "provider."@,
                        rule,
                    ),
                decreases list@.len() - i,
            {
                proof {
                    assert(list@.subrange(0, i + 1).drop_last() =~= list@.subrange(0, i as int));
                }
                let here = entry_prefix("provider.", list[i].0.as_str());
                list[i].1.validate(errors, here.as_str());
                i += 1;
                assert(violation_views(errors@) =~= start + entries_violations(
                    list@.subrange(0, i as int),
                    "provider."@,
                    rule,
                ));
            }
            assert(list@.subrange(0, list@.len() as int) =~= list@);
        },
        None => {
            assert(violation_views(errors@) =~= start + Seq::empty());
        },
    }
}

fn check_servers(errors: &mut Vec<Violation>, entries: &Option<Vec<(String, McpConfig)>>)
    ensures
        violation_views(final(errors)@) == violation_views(old(errors)@) + map_violations(
            *entries,
            "mcp."@,
            |x: McpConfig, prefix: Seq<char>| mcp_violations(x, prefix),
        ),
{
    let ghost start = violation_views(errors@);
    let ghost rule = |x: McpConfig, prefix: Seq<char>| mcp_violations(x, prefix);
    match entries {
        Some(list) => {
            let mut i: usize = 0;
            assert(list@.subrange(0, 0) =~= Seq::empty());
            assert(violation_views(errors@) =~= start + entries_violations(
                list@.subrange(0, 0),
                "mcp."@,
                rule,
            ));
            while i < list.len()
                invariant
                    i <= list@.len(),
                    rule == |x: McpConfig, prefix: Seq<char>| mcp_violations(x, prefix),
                    violation_views(errors@) == start + entries_violations(
                        list@.subrange(0, i as int),
                        "mcp."@,
                        rule,
                    ),
                decreases list@.len() - i,
            {
                proof {
                    assert(list@.subrange(0, i + 1).drop_last() =~= list@.subrange(0, i as int));
                }
                let here = entry_prefix("mcp.", list[i].0.as_str());
                list[i].1.validate(errors, here.as_str());
                i += 1;
                assert(violation_views(errors@) =~= start + entries_violations(
                    list@.subrange(0, i as int),
                    "mcp."@,
                    rule,
                ));
            }
            assert(list@.subrange(0, list@.len() as int) =~= list@);
        },
        None => {
            assert(violation_views(errors@) =~= start + Seq::empty());
        },
    }
}

fn check_formatters(errors: &mut Vec<Violation>, entries: &Option<Vec<(String, FormatterConfig)>>)
    ensures
        violation_views(final(errors)@) == violation_views(old(errors)@) + map_violations(
            *entries,
            "formatter."@,
            |x: FormatterConfig, prefix: Seq<char>| formatter_violations(x, prefix),
        ),
{
    let ghost start = violation_views(errors@);
    let ghost rule = |x: FormatterConfig, prefix: Seq<char>| formatter_violations(x, prefix);
    match entries {
        Some(list) => {
            let mut i: usize = 0;
            assert(list@.subrange(0, 0) =~= Seq::empty());
            assert(violation_views(errors@) =~= start + entries_violations(
                list@.subrange(0, 0),
                "formatter."@,
                rule,
            ));
            while i < list.len()
                invariant
                    i <= list@.len(),
                    rule == |x: FormatterConfig, prefix: Seq<char>| formatter_violations(x, prefix),
                    violation_views(errors@) == start + entries_violations(
                        list@.subrange(0, i as int),
                        "formatter."@,
                        rule,
                    ),
                decreases list@.len() - i,
            {
                proof {
                    assert(list@.subrange(0, i + 1).drop_last() =~= list@.subrange(0, i as int));
                }
                let here = entry_prefix("formatter.", list[i].0.as_str());
                check(errors, is_empty_list(&list[i].1.command), here.as_str(), "command", "length");
                i += 1;
                assert(violation_views(errors@) =~= start + entries_violations(
                    list@.subrange(0, i as int),
                    "formatter."@,
                    rule,
                ));
            }
            assert(list@.subrange(0, list@.len() as int) =~= list@);
        },
        None => {
            assert(violation_views(errors@) =~= start + Seq::empty());
        },
    }
}

fn check_language_servers(errors: &mut Vec<Violation>, entries: &Option<Vec<(String, LspConfig)>>)
    ensures
        violation_views(final(errors)@) == violation_views(old(errors)@) + map_violations(
            *entries,
            "lsp."@,
            |x: LspConfig, prefix: Seq<char>| lsp_violations(x, prefix),
        ),
{
    let ghost start = violation_views(errors@);
    let ghost rule = |x: LspConfig, prefix: Seq<char>| lsp_violations(x, prefix);
    match entries {
        Some(list) => {
            let mut i: usize = 0;
            assert(list@.subrange(0, 0) =~= Seq::empty());
            assert(violation_views(errors@) =~= start + entries_violations(
                list@.subrange(0, 0),
                "lsp."@,
                rule,
            ));
            while i < list.len()
                invariant
                    i <= list@.len(),
                    rule == |x: LspConfig, prefix: Seq<char>| lsp_violations(x, prefix),
                    violation_views(errors@) == start + entries_violations(
                        list@.subrange(0, i as int),
                        "lsp."@,
                        rule,
                    ),
                decreases list@.len() - i,
            {
                proof {
                    assert(list@.subrange(0, i + 1).drop_last() =~= list@.subrange(0, i as int));
                }
                let here = entry_prefix("lsp.", list[i].0.as_str());
                list[i].1.validate(errors, here.as_str());
                i += 1;
                assert(violation_views(errors@) =~= start + entries_violations(
                    list@.subrange(0, i as int),
                    "lsp."@,
                    rule,
                ));
            }
            assert(list@.subrange(0, list@.len() as int) =~= list@);
        },
        None => {
            assert(violation_views(errors@) =~= start + Seq::empty());
        },
    }
}

fn check_keybinds(errors: &mut Vec<Violation>, keybinds: &Option<Keybinds>)
    ensures
        violation_views(final(errors)@) == violation_views(old(errors)@) + keybinds_part(
            *keybinds,
        ),
{
    match keybinds {
        Some(k) => check(errors, is_empty_text(&k.leader), "keybinds.", "leader", "length"),
        None => {
            assert(violation_views(errors@) =~= violation_views(old(errors)@) + Seq::empty());
        },
    }
}

fn check_tui(errors: &mut Vec<Violation>, tui: &Option<Tui>)
    ensures
        violation_views(final(errors)@) == violation_views(old(errors)@) + tui_part(*tui),
{
    match tui {
        Some(t) => check(errors, t.scroll_speed < 1, "tui.", "scroll_speed", "range"),
        None => {
            assert(violation_views(errors@) =~= violation_views(old(errors)@) + Seq::empty());
        },
    }
}

fn check_watcher(errors: &mut Vec<Violation>, watcher: &Option<WatcherSettings>)
    ensures
        violation_views(final(errors)@) == violation_views(old(errors)@) + watcher_part(
            *watcher,
        ),
{
    match watcher {
        Some(w) => check(errors, !validate_glob_patterns(&w.ignore), "watcher.", "ignore", "glob"),
        None => {
            assert(violation_views(errors@) =~= violation_views(old(errors)@) + Seq::empty());
        },
    }
}

fn check_fixed(errors: &mut Vec<Violation>, info: &Info)
    ensures
        violation_views(final(errors)@) == violation_views(old(errors)@) + info.fixed_violations(),
{
    let ghost v0 = violation_views(errors@);
    check_at(errors, is_blank_text(&info.schema), "$schema", "length");
    let ghost v1 = violation_views(errors@);
    check_at(errors, is_blank_text(&info.theme), "theme", "length");
    let ghost v2 = violation_views(errors@);
    check_at(errors, is_blank_text(&info.username), "username", "length");
    let ghost v3 = violation_views(errors@);
    check_at(errors, has_unnamed_agent(&info.agent), "agent", "length");
    let ghost v4 = violation_views(errors@);
    check_keybinds(errors, &info.keybinds);
    let ghost v5 = violation_views(errors@);
    check_tui(errors, &info.tui);
    let ghost v6 = violation_views(errors@);
    check_watcher(errors, &info.watcher);
    let ghost v7 = violation_views(errors@);
    proof {
        lemma_concat7(
            v0,
            blank_text(info.schema, "$schema"@),
            blank_text(info.theme, "theme"@),
            blank_text(info.username, "username"@),
            agent_violations(info.agent),
            keybinds_part(info.keybinds),
            tui_part(info.tui),
            watcher_part(info.watcher),
        );
    }
}

proof fn lemma_concat7<T>(
    s: Seq<T>,
    a: Seq<T>,
    b: Seq<T>,
    c: Seq<T>,
    d: Seq<T>,
    e: Seq<T>,
    f: Seq<T>,
    g: Seq<T>,
)
    ensures
        s + a + b + c + d + e + f + g == s + (a + b + c + d + e + f + g),
{
    assert(s + a + b + c + d + e + f + g =~= s + (a + b + c + d + e + f + g));
}

impl Info {
    /// Checks the configuration against its rules: `Ok` where it keeps
    /// them all, else the violations in the order of the fields. A
    /// configuration that keeps them has no agent without a name.
    pub fn validate(&self) -> (r: Result<(), Vec<Violation>>)
        ensures
            match r {
                Ok(_) => self.violations().len() == 0,
                Err(list) => list@.len() > 0 && violation_views(list@) == self.violations(),
            },
            r is Ok ==> (self.agent matches Some(agents) ==> !has_unnamed(agents@)),
    {
        let mut errors: Vec<Violation> = Vec::new();
        assert(violation_views(errors@) =~= Seq::empty());
        check_fixed(&mut errors, self);
        check_providers(&mut errors, &self.provider);
        check_servers(&mut errors, &self.mcp);
        check_formatters(&mut errors, &self.formatter);
        check_language_servers(&mut errors, &self.lsp);
        let ghost before = violation_views(errors@);
        match &self.experimental {
            Some(experimental) => experimental.validate(&mut errors, "experimental."),
            None => {
                assert(violation_views(errors@) =~= before + Seq::empty());
            },
        }
        assert(violation_views(errors@) =~= self.violations());
        if errors.len() == 0 {
            Ok(())
        } else {
            Err(errors)
        }
    }
}

/// The report of violations: a line for each, its path and its kind.
pub open spec fn violations_report(list: Seq<(Seq<char>, Seq<char>)>) -> Seq<char>
    decreases list.len(),
{
    if list.len() == 0 {
        Seq::empty()
    } else {
        violations_report(list.drop_last()) + list.last().0 + ": "@ + list.last().1 + "\n"@
    }
}

/// The report of violations, as the message of a configuration error.
pub fn describe_violations(list: &Vec<Violation>) -> (r: String)
    ensures
        r@ == violations_report(violation_views(list@)),
{
    let mut out: Vec<char> = Vec::new();
    let mut i: usize = 0;
    let ghost all = violation_views(list@);
    assert(all.subrange(0, 0) =~= Seq::empty());
    while i < list.len()
        invariant
            i <= list@.len(),
            all == violation_views(list@),
            out@ == violations_report(all.subrange(0, i as int)),
        decreases list@.len() - i,
    {
        proof {
            assert(all.subrange(0, i + 1).drop_last() =~= all.subrange(0, i as int));
            assert(all.subrange(0, i + 1).last() == (list@[i as int].field@, list@[i as int].code@));
        }
        let ghost before = out@;
        push_text(&mut out, list[i].field.as_str());
        push_text(&mut out, ": ");
        push_text(&mut out, list[i].code.as_str());
        push_text(&mut out, "\n");
        i += 1;
        assert(out@ =~= violations_report(all.subrange(0, i as int)));
    }
    assert(all.subrange(0, all.len() as int) =~= all);
    from_chars(out.as_slice())
}

} // verus!
