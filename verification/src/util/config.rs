//! The static configuration record and its parts.

use vstd::prelude::*;
use crate::util::json::{json_document, parse_document, read_view, JsonNumber, JsonValue};
use crate::util::text::{
    clone_texts, from_chars, same_text, texts, to_chars, trim_end, trim_end_len,
};

verus! {

/// The static configuration of the program. Every part may be left out;
/// maps keep their entries in the order in which they were read.
#[derive(Debug, Clone, Default)]
pub struct Info {
    pub schema: Option<String>,
    pub theme: Option<String>,
    pub keybinds: Option<Keybinds>,
    pub tui: Option<Tui>,
    pub command: Option<Vec<(String, Command)>>,
    pub watcher: Option<WatcherSettings>,
    pub plugin: Option<Vec<String>>,
    pub snapshot: Option<bool>,
    pub share: Option<ShareMode>,
    pub autoshare: Option<bool>,
    pub autoupdate: Option<bool>,
    pub disabled_providers: Option<Vec<String>>,
    pub model: Option<String>,
    pub small_model: Option<String>,
    pub username: Option<String>,
    pub mode: Option<Vec<(String, AgentConfig)>>,
    pub agent: Option<Vec<(String, AgentConfig)>>,
    pub provider: Option<Vec<(String, ProviderConfig)>>,
    pub mcp: Option<Vec<(String, McpConfig)>>,
    pub formatter: Option<Vec<(String, FormatterConfig)>>,
    pub lsp: Option<Vec<(String, LspConfig)>>,
    pub instructions: Option<Vec<String>>,
    pub layout: Option<Layout>,
    pub permission: Option<PermissionMatrix>,
    pub tools: Option<Vec<(String, bool)>>,
    pub experimental: Option<ExperimentalConfig>,
}

/// Settings of the file watcher: the patterns of paths that it ignores.
#[derive(Debug, Clone)]
pub struct WatcherSettings {
    pub ignore: Vec<String>,
}

/// Key bindings, each a key sequence.
#[derive(Debug, Clone, Default)]
pub struct Keybinds {
    pub leader: Option<String>,
    pub app_help: Option<String>,
    pub app_exit: Option<String>,
    pub editor_open: Option<String>,
    pub theme_list: Option<String>,
    pub project_init: Option<String>,
    pub tool_details: Option<String>,
    pub thinking_blocks: Option<String>,
    pub session_export: Option<String>,
    pub session_new: Option<String>,
    pub session_list: Option<String>,
    pub session_timeline: Option<String>,
    pub session_share: Option<String>,
    pub session_unshare: Option<String>,
    pub session_interrupt: Option<String>,
    pub session_compact: Option<String>,
    pub session_child_cycle: Option<String>,
    pub session_child_cycle_reverse: Option<String>,
    pub messages_page_up: Option<String>,
    pub messages_page_down: Option<String>,
    pub messages_half_page_up: Option<String>,
    pub messages_half_page_down: Option<String>,
    pub messages_first: Option<String>,
    pub messages_last: Option<String>,
    pub messages_copy: Option<String>,
    pub messages_undo: Option<String>,
    pub messages_redo: Option<String>,
    pub model_list: Option<String>,
    pub model_cycle_recent: Option<String>,
    pub model_cycle_recent_reverse: Option<String>,
    pub agent_list: Option<String>,
    pub agent_cycle: Option<String>,
    pub agent_cycle_reverse: Option<String>,
    pub input_clear: Option<String>,
    pub input_paste: Option<String>,
    pub input_submit: Option<String>,
    pub input_newline: Option<String>,
    pub switch_mode: Option<String>,
    pub switch_mode_reverse: Option<String>,
    pub switch_agent: Option<String>,
    pub switch_agent_reverse: Option<String>,
    pub file_list: Option<String>,
    pub file_close: Option<String>,
    pub file_search: Option<String>,
    pub file_diff_toggle: Option<String>,
    pub messages_previous: Option<String>,
    pub messages_next: Option<String>,
    pub messages_layout_toggle: Option<String>,
    pub messages_revert: Option<String>,
}

/// Settings of the terminal view.
#[derive(Debug, Clone)]
pub struct Tui {
    pub scroll_speed: u32,
}

/// When a session is shared.
#[derive(Debug, Clone, Copy, PartialEq, Eq, Structural)]
pub enum ShareMode {
    Manual,
    Auto,
    Disabled,
}

/// How the terminal view is laid out.
#[derive(Debug, Clone, Copy, PartialEq, Eq, Structural)]
pub enum Layout {
    Auto,
    Stretch,
}

/// A named command: the template of its prompt, and what runs it.
#[derive(Debug, Clone)]
pub struct Command {
    pub template: String,
    pub description: Option<String>,
    pub agent: Option<String>,
    pub model: Option<String>,
    pub subtask: Option<bool>,
}

/// What the configuration says of one agent. `extra` holds the members
/// that the record does not know, in the order in which they were read;
/// `temperature` and `top_p` hold their numbers as they were written.
#[derive(Debug, Clone)]
pub struct AgentConfig {
    pub model: Option<String>,
    pub temperature: Option<JsonNumber>,
    pub top_p: Option<JsonNumber>,
    pub prompt: Option<String>,
    pub tools: Option<Vec<(String, bool)>>,
    pub disable: Option<bool>,
    pub description: Option<String>,
    pub mode: Option<AgentMode>,
    pub permission: Option<PermissionMatrix>,
    pub extra: Vec<(String, JsonValue)>,
}

/// The contexts in which a configured agent may be selected.
#[derive(Debug, Clone, Copy, PartialEq, Eq, Structural)]
pub enum AgentMode {
    Subagent,
    Primary,
    All,
}

/// A model provider: its models, its options, and the members that the
/// record does not know.
#[derive(Debug, Clone, Default)]
pub struct ProviderConfig {
    pub models: Option<Vec<(String, JsonValue)>>,
    pub options: Option<ProviderOptions>,
    pub extra: Vec<(String, JsonValue)>,
}

/// How a provider is reached.
#[derive(Debug, Clone, Default)]
pub struct ProviderOptions {
    pub api_key: Option<String>,
    pub base_url: Option<String>,
    pub timeout: Option<Timeout>,
    pub extra: Vec<(String, JsonValue)>,
}

/// The time allowed for a request to a provider.
#[derive(Debug, Clone, Copy, PartialEq, Eq, Structural)]
pub enum Timeout {
    Millis(u64),
    Disabled,
}

/// A server of the model context protocol.
#[derive(Debug, Clone)]
pub enum McpConfig {
    Local(LocalMcpConfig),
    Remote(RemoteMcpConfig),
}

/// A server that is started as a process.
#[derive(Debug, Clone)]
pub struct LocalMcpConfig {
    pub command: Vec<String>,
    pub environment: Option<Vec<(String, String)>>,
    pub enabled: Option<bool>,
}

/// A server that is reached under an address.
#[derive(Debug, Clone)]
pub struct RemoteMcpConfig {
    pub url: String,
    pub enabled: Option<bool>,
    pub headers: Option<Vec<(String, String)>>,
}

/// What to do when a tool wants to act.
#[derive(Debug, Clone, Copy, PartialEq, Eq, Structural)]
pub enum PermissionKind {
    Ask,
    Allow,
    Deny,
}

/// Permissions by kind of action.
#[derive(Debug, Clone)]
pub struct PermissionMatrix {
    pub edit: Option<PermissionKind>,
    pub bash: Option<BashPermission>,
    pub webfetch: Option<PermissionKind>,
}

/// The permission for the shell: one for every command, or one for each
/// pattern of commands.
#[derive(Debug, Clone)]
pub enum BashPermission {
    Single(PermissionKind),
    Matrix(Vec<(String, PermissionKind)>),
}

/// A formatter for files of some extensions.
#[derive(Debug, Clone, Default)]
pub struct FormatterConfig {
    pub disabled: Option<bool>,
    pub command: Option<Vec<String>>,
    pub environment: Option<Vec<(String, String)>>,
    pub extensions: Option<Vec<String>>,
}

/// A language server: switched off, or configured.
#[derive(Debug, Clone)]
pub enum LspConfig {
    Disabled(LspDisabledConfig),
    Configurable(LspServerConfig),
}

/// A language server that is switched off.
#[derive(Debug, Clone)]
pub struct LspDisabledConfig {
    pub disabled: bool,
}

/// A language server that is configured.
#[derive(Debug, Clone)]
pub struct LspServerConfig {
    pub command: Vec<String>,
    pub extensions: Option<Vec<String>>,
    pub disabled: Option<bool>,
    pub env: Option<Vec<(String, String)>>,
    pub initialization: Option<Vec<(String, JsonValue)>>,
}

/// Settings that may change.
#[derive(Debug, Clone)]
pub struct ExperimentalConfig {
    pub hook: Option<HookConfig>,
    pub disable_paste_summary: Option<bool>,
}

/// Commands that run when something happens.
#[derive(Debug, Clone)]
pub struct HookConfig {
    pub file_edited: Option<Vec<(String, Vec<HookCommand>)>>,
    pub session_completed: Option<Vec<HookCommand>>,
}

/// A command line with its environment.
#[derive(Debug, Clone)]
pub struct HookCommand {
    pub command: Vec<String>,
    pub environment: Option<Vec<(String, String)>>,
}


impl Default for WatcherSettings {
    fn default() -> (r: Self)
        ensures
            r.ignore@.len() == 0,
    {
        WatcherSettings { ignore: Vec::new() }
    }
}

impl Default for Tui {
    fn default() -> (r: Self)
        ensures
            r.scroll_speed == 2,
    {
        Tui { scroll_speed: default_scroll_speed() }
    }
}

impl Default for LspConfig {
    fn default() -> (r: Self)
        ensures
            r matches LspConfig::Disabled(d) && d.disabled,
    {
        LspConfig::Disabled(LspDisabledConfig { disabled: true })
    }
}

/// Where a scanner of JSON with comments stands.
#[derive(Debug, Clone, Copy, PartialEq, Eq, Structural)]
pub enum Scan {
    /// Between tokens.
    Code,
    /// Inside a string; `escaped` after a backslash.
    Text { escaped: bool },
    /// Inside a `//` comment.
    LineComment,
    /// Inside a `/* */` comment.
    BlockComment,
}

/// The mode of a string after one more of its characters.
pub open spec fn text_after(escaped: bool, c: char) -> Scan {
    if escaped {
        Scan::Text { escaped: false }
    } else if c == '\\' {
        Scan::Text { escaped: true }
    } else if c == '"' {
        Scan::Code
    } else {
        Scan::Text { escaped: false }
    }
}

/// What is left of `s`, scanned from `mode` on, once comments are taken
/// out. Strings are kept as they are. Of a line comment its line break
/// is kept, and every carriage return in it; of a block comment its line
/// breaks and carriage returns.
pub open spec fn stripped_from(s: Seq<char>, mode: Scan) -> Seq<char>
    decreases s.len(),
{
    if s.len() == 0 {
        Seq::empty()
    } else {
        let c = s[0];
        let rest = s.drop_first();
        match mode {
            Scan::LineComment => if c == '\r' {
                seq![c] + stripped_from(rest, Scan::LineComment)
            } else if c == '\n' {
                seq![c] + stripped_from(rest, Scan::Code)
            } else {
                stripped_from(rest, Scan::LineComment)
            },
            Scan::BlockComment => if c == '*' && rest.len() > 0 && rest[0] == '/' {
                stripped_from(rest.drop_first(), Scan::Code)
            } else if c == '\n' || c == '\r' {
                seq![c] + stripped_from(rest, Scan::BlockComment)
            } else {
                stripped_from(rest, Scan::BlockComment)
            },
            Scan::Text { escaped } => seq![c] + stripped_from(rest, text_after(escaped, c)),
            Scan::Code => if c == '"' {
                seq![c] + stripped_from(rest, Scan::Text { escaped: false })
            } else if c == '/' && rest.len() > 0 && rest[0] == '/' {
                stripped_from(rest.drop_first(), Scan::LineComment)
            } else if c == '/' && rest.len() > 0 && rest[0] == '*' {
                stripped_from(rest.drop_first(), Scan::BlockComment)
            } else {
                seq![c] + stripped_from(rest, Scan::Code)
            },
        }
    }
}

/// `s` without its comments.
pub open spec fn stripped(s: Seq<char>) -> Seq<char> {
    stripped_from(s, Scan::Code)
}

/// The text without `//` and `/* */` comments; strings are left alone.
pub fn strip_json_comments(input: &str) -> (r: String)
    ensures
        r@ == stripped(input@),
{
    let chars = to_chars(input);
    let n = chars.len();
    let mut output: Vec<char> = Vec::new();
    let mut mode = Scan::Code;
    let mut i: usize = 0;
    assert(chars@.skip(0) =~= chars@);
    while i < n
        invariant
            n == chars@.len(),
            i <= n,
            output@ + stripped_from(chars@.skip(i as int), mode) == stripped(chars@),
        decreases n - i,
    {
        let ch = chars[i];
        let ghost tail = chars@.skip(i as int);
        proof {
            assert(tail.drop_first() =~= chars@.skip(i + 1));
            if i + 1 < n {
                assert(tail.drop_first().drop_first() =~= chars@.skip(i + 2));
                assert(tail.drop_first()[0] == chars@[i + 1]);
            }
        }
        let ghost before = output@;
        let ghost entered = mode;
        match mode {
            Scan::LineComment => {
                if ch == '\r' {
                    output.push(ch);
                } else if ch == '\n' {
                    mode = Scan::Code;
                    output.push(ch);
                }
                i += 1;
            },
            Scan::BlockComment => {
                if ch == '*' && i + 1 < n && chars[i + 1] == '/' {
                    mode = Scan::Code;
                    i += 2;
                } else {
                    if ch == '\n' || ch == '\r' {
                        output.push(ch);
                    }
                    i += 1;
                }
            },
            Scan::Text { escaped } => {
                output.push(ch);
                if escaped {
                    mode = Scan::Text { escaped: false };
                } else if ch == '\\' {
                    mode = Scan::Text { escaped: true };
                } else if ch == '"' {
                    mode = Scan::Code;
                }
                i += 1;
            },
            Scan::Code => {
                if ch == '"' {
                    mode = Scan::Text { escaped: false };
                    output.push(ch);
                    i += 1;
                } else if ch == '/' && i + 1 < n && chars[i + 1] == '/' {
                    mode = Scan::LineComment;
                    i += 2;
                } else if ch == '/' && i + 1 < n && chars[i + 1] == '*' {
                    mode = Scan::BlockComment;
                    i += 2;
                } else {
                    output.push(ch);
                    i += 1;
                }
            },
        }
        assert(output@ + stripped_from(chars@.skip(i as int), mode) =~= before + stripped_from(
            tail,
            entered,
        ));
    }
    assert(chars@.skip(n as int) =~= Seq::empty());
    assert(output@ =~= stripped(chars@));
    from_chars(output.as_slice())
}


/// `buf` without the comma that only white space follows, if there is one.
pub open spec fn without_trailing_comma(buf: Seq<char>) -> Seq<char> {
    let kept = trim_end(buf);
    if kept.len() > 0 && kept.last() == ',' {
        kept.drop_last() + buf.subrange(kept.len() as int, buf.len() as int)
    } else {
        buf
    }
}

/// What `out` grows to as `s` is copied behind it from `mode` on, where
/// each `]` and `}` outside a string first takes the trailing comma off
/// what was copied before.
pub open spec fn cleaned_from(out: Seq<char>, s: Seq<char>, mode: Scan) -> Seq<char>
    decreases s.len(),
{
    if s.len() == 0 {
        out
    } else {
        let c = s[0];
        let rest = s.drop_first();
        match mode {
            Scan::Text { escaped } => cleaned_from(out.push(c), rest, text_after(escaped, c)),
            _ => if c == '"' {
                cleaned_from(out.push(c), rest, Scan::Text { escaped: false })
            } else if c == ']' || c == '}' {
                cleaned_from(without_trailing_comma(out).push(c), rest, Scan::Code)
            } else {
                cleaned_from(out.push(c), rest, Scan::Code)
            },
        }
    }
}

/// `s` without the commas that stand, outside strings, before a closing
/// bracket or brace with at most white space between.
pub open spec fn commas_removed(s: Seq<char>) -> Seq<char> {
    cleaned_from(Seq::empty(), s, Scan::Code)
}

/// Takes off the comma that only white space follows, if there is one.
pub fn trim_trailing_comma(buffer: &mut Vec<char>)
    ensures
        final(buffer)@ == without_trailing_comma(old(buffer)@),
{
    let kept = trim_end_len(buffer.as_slice());
    if kept > 0 && buffer[kept - 1] == ',' {
        let ghost before = buffer@;
        buffer.remove(kept - 1);
        assert(buffer@ =~= without_trailing_comma(before)) by {
            assert(trim_end(before) == before.subrange(0, kept as int));
        }
    }
}

/// The text without trailing commas before `]` and `}`; strings are left
/// alone.
pub fn remove_trailing_commas(input: &str) -> (r: String)
    ensures
        r@ == commas_removed(input@),
{
    let chars = to_chars(input);
    let n = chars.len();
    let mut output: Vec<char> = Vec::new();
    let mut mode = Scan::Code;
    let mut i: usize = 0;
    assert(chars@.skip(0) =~= chars@);
    while i < n
        invariant
            n == chars@.len(),
            i <= n,
            mode is Code || mode is Text,
            cleaned_from(output@, chars@.skip(i as int), mode) == commas_removed(chars@),
        decreases n - i,
    {
        let ch = chars[i];
        proof {
            assert(chars@.skip(i as int).drop_first() =~= chars@.skip(i + 1));
        }
        match mode {
            Scan::Text { escaped } => {
                output.push(ch);
                if escaped {
                    mode = Scan::Text { escaped: false };
                } else if ch == '\\' {
                    mode = Scan::Text { escaped: true };
                } else if ch == '"' {
                    mode = Scan::Code;
                }
            },
            _ => {
                if ch == '"' {
                    mode = Scan::Text { escaped: false };
                    output.push(ch);
                } else if ch == ']' || ch == '}' {
                    trim_trailing_comma(&mut output);
                    output.push(ch);
                } else {
                    output.push(ch);
                }
            },
        }
        i += 1;
    }
    assert(chars@.skip(n as int) =~= Seq::empty());
    from_chars(output.as_slice())
}

/// The text as the JSON parser gets it: without comments, then without
/// trailing commas.
pub open spec fn plain_json(text: Seq<char>) -> Seq<char> {
    commas_removed(stripped(text))
}

/// Reads a JSON document that may hold comments and trailing commas.
pub fn parse_jsonc(text: &str) -> (r: Result<JsonValue, String>)
    ensures
        read_view(r) == json_document(plain_json(text@)),
{
    let stripped = strip_json_comments(text);
    let cleaned = remove_trailing_commas(stripped.as_str());
    parse_document(cleaned.as_str())
}

/// The speed at which a terminal view scrolls unless configured.
pub fn default_scroll_speed() -> (r: u32)
    ensures
        r == 2,
{
    2
}

/// Puts every entry of `source` into `target`: over the entry of the same
/// key where there is one, behind the others where there is none.
pub open spec fn entries_merged<T>(target: Seq<(String, T)>, source: Seq<(String, T)>) -> Seq<
    (String, T),
>
    decreases source.len(),
{
    if source.len() == 0 {
        target
    } else {
        entry_put(entries_merged(target, source.drop_last()), source.last())
    }
}

/// The position of the first entry with this key.
pub open spec fn key_position<T>(entries: Seq<(String, T)>, key: Seq<char>) -> Option<int>
    decreases entries.len(),
{
    if entries.len() == 0 {
        None
    } else {
        match key_position(entries.drop_last(), key) {
            Some(i) => Some(i),
            None => if entries.last().0@ == key {
                Some(entries.len() - 1)
            } else {
                None
            },
        }
    }
}

/// `entries` with `entry` in the place of the first entry of its key, or
/// at the end where no entry has its key.
pub open spec fn entry_put<T>(entries: Seq<(String, T)>, entry: (String, T)) -> Seq<(String, T)> {
    match key_position(entries, entry.0@) {
        Some(i) => entries.update(i, entry),
        None => entries.push(entry),
    }
}


/// What a map field holds after a merge: with a source, the target's
/// entries, or none, with every entry of the source put in; without one,
/// what it held.
pub open spec fn map_merged<T>(
    target: Option<Vec<(String, T)>>,
    source: Option<Vec<(String, T)>>,
    merged: Option<Vec<(String, T)>>,
) -> bool {
    match source {
        Some(s) => merged matches Some(m) && m@ == entries_merged(
            match target {
                Some(t) => t@,
                None => Seq::empty(),
            },
            s@,
        ),
        None => merged == target,
    }
}

/// What a list field holds after a merge: with a source, the target's
/// items, or none, followed by the source's; without one, what it held.
pub open spec fn vec_merged<T>(
    target: Option<Vec<T>>,
    source: Option<Vec<T>>,
    merged: Option<Vec<T>>,
) -> bool {
    match source {
        Some(s) => merged matches Some(m) && m@ == match target {
            Some(t) => t@,
            None => Seq::empty(),
        } + s@,
        None => merged == target,
    }
}

/// The source where it is set, else the target.
pub open spec fn overwritten<T>(target: Option<T>, source: Option<T>) -> Option<T> {
    if source is Some {
        source
    } else {
        target
    }
}

fn find_key<T>(entries: &Vec<(String, T)>, key: &str) -> (r: Option<usize>)
    ensures
        match r {
            Some(i) => key_position(entries@, key@) == Some(i as int) && i < entries@.len(),
            None => key_position(entries@, key@) is None,
        },
{
    let mut i: usize = 0;
    assert(entries@.subrange(0, 0) =~= Seq::empty());
    while i < entries.len()
        invariant
            i <= entries@.len(),
            key_position(entries@.subrange(0, i as int), key@) is None,
        decreases entries@.len() - i,
    {
        proof {
            assert(entries@.subrange(0, i + 1).drop_last() =~= entries@.subrange(0, i as int));
        }
        if same_text(entries[i].0.as_str(), key) {
            proof {
                lemma_key_position_prefix(entries@, i as int + 1);
            }
            return Some(i);
        }
        i += 1;
    }
    assert(entries@.subrange(0, entries@.len() as int) =~= entries@);
    None
}

/// A position found in a prefix is the position in the whole.
pub proof fn lemma_key_position_prefix<T>(entries: Seq<(String, T)>, n: int)
    requires
        0 <= n <= entries.len(),
        key_position(entries.subrange(0, n), key_of(entries, n)) is Some,
    ensures
        key_position(entries, key_of(entries, n)) == key_position(
            entries.subrange(0, n),
            key_of(entries, n),
        ),
    decreases entries.len(),
{
    if n < entries.len() {
        assert(entries.drop_last().subrange(0, n) =~= entries.subrange(0, n));
        lemma_key_position_prefix(entries.drop_last(), n);
    } else {
        assert(entries.subrange(0, n) =~= entries);
    }
}

/// The key of the last entry of a non-empty prefix.
pub open spec fn key_of<T>(entries: Seq<(String, T)>, n: int) -> Seq<char> {
    if 0 < n <= entries.len() {
        entries[n - 1].0@
    } else {
        Seq::empty()
    }
}

/// Merges the entries of `source` into `target`.
pub fn merge_info_map<T>(target: &mut Option<Vec<(String, T)>>, source: Option<Vec<(String, T)>>)
    ensures
        map_merged(*old(target), source, *final(target)),
{
    if let Some(source_map) = source {
        let mut map: Vec<(String, T)> = match target.take() {
            Some(m) => m,
            None => Vec::new(),
        };
        let ghost start = map@;
        let ghost all = source_map@;
        for entry in it: source_map
            invariant
                it.seq() == all,
                map@ == entries_merged(start, all.subrange(0, it.index())),
        {
            proof {
                assert(all.subrange(0, it.index() + 1).drop_last() =~= all.subrange(0, it.index()));
            }
            match find_key(&map, entry.0.as_str()) {
                Some(i) => {
                    map.set(i, entry);
                },
                None => {
                    map.push(entry);
                },
            }
        }
        assert(all.subrange(0, all.len() as int) =~= all);
        *target = Some(map);
    }
}

/// Appends the items of `source` to `target`.
pub fn merge_vec<T>(target: &mut Option<Vec<T>>, source: Option<Vec<T>>)
    ensures
        vec_merged(*old(target), source, *final(target)),
{
    if let Some(mut source_vec) = source {
        let mut items: Vec<T> = match target.take() {
            Some(v) => v,
            None => Vec::new(),
        };
        items.append(&mut source_vec);
        *target = Some(items);
    }
}

/// Replaces `target` by `source` where `source` is set.
pub fn overwrite_if_some<T>(target: &mut Option<T>, source: Option<T>)
    ensures
        *final(target) == overwritten(*old(target), source),
{
    if source.is_some() {
        *target = source;
    }
}

impl Info {
    /// The patterns that the configured watcher ignores.
    pub open spec fn ignore_patterns(self) -> Seq<Seq<char>> {
        match self.watcher {
            Some(w) => texts(w.ignore@),
            None => Seq::empty(),
        }
    }

    /// A copy of the patterns that the configured watcher ignores.
    pub fn watcher_ignore_patterns(&self) -> (r: Vec<String>)
        ensures
            texts(r@) == self.ignore_patterns(),
    {
        match &self.watcher {
            Some(w) => clone_texts(w.ignore.as_slice()),
            None => {
                let r: Vec<String> = Vec::new();
                assert(texts(r@) =~= Seq::empty());
                r
            },
        }
    }

    /// Whether `after` is `self` with `other` merged into it: maps entry
    /// by entry, the lists of plugins and instructions appended, and every
    /// other field replaced where `other` sets it.
    pub open spec fn merges_to(self, other: Info, after: Info) -> bool {
        &&& map_merged(self.command, other.command, after.command)
        &&& map_merged(self.mode, other.mode, after.mode)
        &&& map_merged(self.agent, other.agent, after.agent)
        &&& map_merged(self.provider, other.provider, after.provider)
        &&& map_merged(self.mcp, other.mcp, after.mcp)
        &&& map_merged(self.formatter, other.formatter, after.formatter)
        &&& map_merged(self.lsp, other.lsp, after.lsp)
        &&& map_merged(self.tools, other.tools, after.tools)
        &&& vec_merged(self.plugin, other.plugin, after.plugin)
        &&& vec_merged(self.instructions, other.instructions, after.instructions)
        &&& after.schema == overwritten(self.schema, other.schema)
        &&& after.theme == overwritten(self.theme, other.theme)
        &&& after.keybinds == overwritten(self.keybinds, other.keybinds)
        &&& after.tui == overwritten(self.tui, other.tui)
        &&& after.watcher == overwritten(self.watcher, other.watcher)
        &&& after.snapshot == overwritten(self.snapshot, other.snapshot)
        &&& after.share == overwritten(self.share, other.share)
        &&& after.autoshare == overwritten(self.autoshare, other.autoshare)
        &&& after.autoupdate == overwritten(self.autoupdate, other.autoupdate)
        &&& after.disabled_providers == overwritten(
            self.disabled_providers,
            other.disabled_providers,
        )
        &&& after.model == overwritten(self.model, other.model)
        &&& after.small_model == overwritten(self.small_model, other.small_model)
        &&& after.username == overwritten(self.username, other.username)
        &&& after.layout == overwritten(self.layout, other.layout)
        &&& after.permission == overwritten(self.permission, other.permission)
        &&& after.experimental == overwritten(self.experimental, other.experimental)
    }

    /// Merges `other` into this configuration.
    pub fn merge(&mut self, other: Info)
        ensures
            old(self).merges_to(other, *final(self)),
    {
        merge_info_map(&mut self.command, other.command);
        merge_info_map(&mut self.mode, other.mode);
        merge_info_map(&mut self.agent, other.agent);
        merge_info_map(&mut self.provider, other.provider);
        merge_info_map(&mut self.mcp, other.mcp);
        merge_info_map(&mut self.formatter, other.formatter);
        merge_info_map(&mut self.lsp, other.lsp);
        merge_info_map(&mut self.tools, other.tools);
        merge_vec(&mut self.plugin, other.plugin);
        merge_vec(&mut self.instructions, other.instructions);
        overwrite_if_some(&mut self.schema, other.schema);
        overwrite_if_some(&mut self.theme, other.theme);
        overwrite_if_some(&mut self.keybinds, other.keybinds);
        overwrite_if_some(&mut self.tui, other.tui);
        overwrite_if_some(&mut self.watcher, other.watcher);
        overwrite_if_some(&mut self.snapshot, other.snapshot);
        overwrite_if_some(&mut self.share, other.share);
        overwrite_if_some(&mut self.autoshare, other.autoshare);
        overwrite_if_some(&mut self.autoupdate, other.autoupdate);
        overwrite_if_some(&mut self.disabled_providers, other.disabled_providers);
        overwrite_if_some(&mut self.model, other.model);
        overwrite_if_some(&mut self.small_model, other.small_model);
        overwrite_if_some(&mut self.username, other.username);
        overwrite_if_some(&mut self.layout, other.layout);
        overwrite_if_some(&mut self.permission, other.permission);
        overwrite_if_some(&mut self.experimental, other.experimental);
    }
}

} // verus!
