//! Reading a static configuration from a JSON document: how each part of
//! the record reads from the members of an object.

use vstd::prelude::*;
use crate::util::config::{
    default_scroll_speed, parse_jsonc, plain_json, AgentConfig, AgentMode, BashPermission, Command,
    ExperimentalConfig, FormatterConfig, HookCommand, HookConfig, Info, Keybinds, Layout,
    LocalMcpConfig, LspConfig, LspDisabledConfig, LspServerConfig, McpConfig, PermissionKind,
    PermissionMatrix, ProviderConfig, ProviderOptions, RemoteMcpConfig, ShareMode, Timeout, Tui,
    WatcherSettings,
};
use crate::util::error::OpenCodeError;
use crate::util::json::{
    copy_members, copy_number, copy_value, find, item_views, json_document, lemma_item_views,
    lemma_member_views, lemma_view_parts, lookup, member_views, name_list, opt_json, optional_bool,
    optional_text, read_name_list, read_optional_bool, read_optional_text, read_required_text,
    read_text_array, required_text, text_array, JsonNumber, JsonValue, JsonView, NumberView,
};
use crate::util::text::{opt_text, same_text, texts};
use crate::util::validate::{describe_violations, violations_report};

verus! {

/// The texts of an optional list.
pub open spec fn opt_texts(x: Option<Vec<String>>) -> Option<Seq<Seq<char>>> {
    match x {
        Some(list) => Some(texts(list@)),
        None => None,
    }
}

/// How an optional list of strings reads: missing or `null` is unset.
pub open spec fn optional_texts(value: Option<JsonView>) -> Option<Option<Seq<Seq<char>>>> {
    match value {
        None => Some(None),
        Some(JsonView::Null) => Some(None),
        Some(j) => match text_array(j) {
            Some(list) => Some(Some(list)),
            None => None,
        },
    }
}

/// Reads an optional list of strings.
pub fn read_optional_texts(value: Option<&JsonValue>) -> (r: Option<Option<Vec<String>>>)
    ensures
        match r {
            Some(x) => optional_texts(opt_json(value)) == Some(opt_texts(x)),
            None => optional_texts(opt_json(value)) is None,
        },
{
    match value {
        None => Some(None),
        Some(JsonValue::Null) => Some(None),
        Some(v) => match read_text_array(v) {
            Some(list) => Some(Some(list)),
            None => None,
        },
    }
}

/// How a list of strings that may be left out reads: missing is empty.
pub open spec fn default_texts(value: Option<JsonView>) -> Option<Seq<Seq<char>>> {
    name_list(value)
}

/// Reads a list of strings that may be left out.
pub fn read_default_texts(value: Option<&JsonValue>) -> (r: Option<Vec<String>>)
    ensures
        match r {
            Some(list) => default_texts(opt_json(value)) == Some(texts(list@)),
            None => default_texts(opt_json(value)) is None,
        },
{
    read_name_list(value)
}

/// How a list of strings that must be given reads.
pub open spec fn required_texts(value: Option<JsonView>) -> Option<Seq<Seq<char>>> {
    match value {
        None => None,
        Some(j) => text_array(j),
    }
}

/// Reads a list of strings that must be given.
pub fn read_required_texts(value: Option<&JsonValue>) -> (r: Option<Vec<String>>)
    ensures
        match r {
            Some(list) => required_texts(opt_json(value)) == Some(texts(list@)),
            None => required_texts(opt_json(value)) is None,
        },
{
    match value {
        None => None,
        Some(v) => read_text_array(v),
    }
}

/// The view of an optional number.
pub open spec fn opt_number_view(x: Option<JsonNumber>) -> Option<NumberView> {
    match x {
        Some(n) => Some(n@),
        None => None,
    }
}

/// How an optional number reads.
pub open spec fn optional_number(value: Option<JsonView>) -> Option<Option<NumberView>> {
    match value {
        None => Some(None),
        Some(JsonView::Null) => Some(None),
        Some(JsonView::Number(n)) => Some(Some(n)),
        Some(_) => None,
    }
}

/// Reads an optional number.
pub fn read_optional_number(value: Option<&JsonValue>) -> (r: Option<Option<JsonNumber>>)
    ensures
        match r {
            Some(x) => optional_number(opt_json(value)) == Some(opt_number_view(x)),
            None => optional_number(opt_json(value)) is None,
        },
{
    match value {
        None => Some(None),
        Some(JsonValue::Null) => Some(None),
        Some(JsonValue::Number(n)) => Some(Some(copy_number(n))),
        Some(_) => None,
    }
}

/// The texts of a list of pairs of strings.
pub open spec fn pairs(x: Seq<(String, String)>) -> Seq<(Seq<char>, Seq<char>)> {
    x.map_values(|p: (String, String)| (p.0@, p.1@))
}

/// The texts of an optional list of pairs of strings.
pub open spec fn opt_pairs(x: Option<Vec<(String, String)>>) -> Option<
    Seq<(Seq<char>, Seq<char>)>,
> {
    match x {
        Some(list) => Some(pairs(list@)),
        None => None,
    }
}

/// Whether the value of every member is a string.
pub open spec fn all_text_members(members: Seq<(Seq<char>, JsonView)>) -> bool {
    forall|i: int| 0 <= i < members.len() ==> (#[trigger] members[i]).1 is String
}

/// The members whose values are all strings, as pairs of texts.
pub open spec fn text_members(members: Seq<(Seq<char>, JsonView)>) -> Seq<(Seq<char>, Seq<char>)> {
    Seq::new(members.len(), |i: int| (members[i].0, members[i].1->String_0))
}

/// How an optional map from names to strings reads.
pub open spec fn optional_text_map(value: Option<JsonView>) -> Option<
    Option<Seq<(Seq<char>, Seq<char>)>>,
> {
    match value {
        None => Some(None),
        Some(JsonView::Null) => Some(None),
        Some(JsonView::Object(members)) => if all_text_members(members) {
            Some(Some(text_members(members)))
        } else {
            None
        },
        Some(_) => None,
    }
}

/// Reads an optional map from names to strings.
pub fn read_optional_text_map(value: Option<&JsonValue>) -> (r: Option<
    Option<Vec<(String, String)>>,
>)
    ensures
        match r {
            Some(x) => optional_text_map(opt_json(value)) == Some(opt_pairs(x)),
            None => optional_text_map(opt_json(value)) is None,
        },
{
    match value {
        None => Some(None),
        Some(JsonValue::Null) => Some(None),
        Some(JsonValue::Object(members)) => {
            proof {
                lemma_view_parts(*value.unwrap());
            }
            let ghost all = member_views(members@);
            proof {
                lemma_member_views(members@);
            }
            let mut out: Vec<(String, String)> = Vec::new();
            let mut i: usize = 0;
            while i < members.len()
                invariant
                    i <= members@.len(),
                    all == member_views(members@),
                    all.len() == members@.len(),
                    opt_json(value) == Some(JsonView::Object(all)),
                    out@.len() == i,
                    forall|k: int| 0 <= k < i ==> (#[trigger] all[k]).1 is String,
                    forall|k: int|
                        0 <= k < i ==> (#[trigger] out@[k]).0@ == all[k].0 && out@[k].1@
                            == all[k].1->String_0,
                decreases members@.len() - i,
            {
                proof {
                    lemma_member_views(members@);
                }
                match &members[i].1 {
                    JsonValue::String(s) => {
                        out.push((members[i].0.clone(), s.clone()));
                    },
                    _ => {
                        assert(!(all[i as int].1 is String));
                        return None;
                    },
                }
                i += 1;
            }
            proof {
                lemma_member_views(members@);
                assert(pairs(out@) =~= text_members(all));
            }
            Some(Some(out))
        },
        Some(_) => None,
    }
}

/// The texts of a list of switches.
pub open spec fn switches(x: Seq<(String, bool)>) -> Seq<(Seq<char>, bool)> {
    x.map_values(|p: (String, bool)| (p.0@, p.1))
}

/// The texts of an optional list of switches.
pub open spec fn opt_switches(x: Option<Vec<(String, bool)>>) -> Option<Seq<(Seq<char>, bool)>> {
    match x {
        Some(list) => Some(switches(list@)),
        None => None,
    }
}

/// Whether the value of every member is a boolean.
pub open spec fn all_bool_members(members: Seq<(Seq<char>, JsonView)>) -> bool {
    forall|i: int| 0 <= i < members.len() ==> (#[trigger] members[i]).1 is Bool
}

/// The members whose values are all booleans, as switches.
pub open spec fn bool_members(members: Seq<(Seq<char>, JsonView)>) -> Seq<(Seq<char>, bool)> {
    Seq::new(members.len(), |i: int| (members[i].0, members[i].1->Bool_0))
}

/// How an optional map from names to booleans reads.
pub open spec fn optional_bool_map(value: Option<JsonView>) -> Option<
    Option<Seq<(Seq<char>, bool)>>,
> {
    match value {
        None => Some(None),
        Some(JsonView::Null) => Some(None),
        Some(JsonView::Object(members)) => if all_bool_members(members) {
            Some(Some(bool_members(members)))
        } else {
            None
        },
        Some(_) => None,
    }
}

/// Reads an optional map from names to booleans.
pub fn read_optional_bool_map(value: Option<&JsonValue>) -> (r: Option<Option<Vec<(String, bool)>>>)
    ensures
        match r {
            Some(x) => optional_bool_map(opt_json(value)) == Some(opt_switches(x)),
            None => optional_bool_map(opt_json(value)) is None,
        },
{
    match value {
        None => Some(None),
        Some(JsonValue::Null) => Some(None),
        Some(JsonValue::Object(members)) => {
            proof {
                lemma_view_parts(*value.unwrap());
            }
            let ghost all = member_views(members@);
            proof {
                lemma_member_views(members@);
            }
            let mut out: Vec<(String, bool)> = Vec::new();
            let mut i: usize = 0;
            while i < members.len()
                invariant
                    i <= members@.len(),
                    all == member_views(members@),
                    all.len() == members@.len(),
                    opt_json(value) == Some(JsonView::Object(all)),
                    out@.len() == i,
                    forall|k: int| 0 <= k < i ==> (#[trigger] all[k]).1 is Bool,
                    forall|k: int|
                        0 <= k < i ==> (#[trigger] out@[k]).0@ == all[k].0 && out@[k].1
                            == all[k].1->Bool_0,
                decreases members@.len() - i,
            {
                proof {
                    lemma_member_views(members@);
                }
                match &members[i].1 {
                    JsonValue::Bool(b) => {
                        out.push((members[i].0.clone(), *b));
                    },
                    _ => {
                        assert(!(all[i as int].1 is Bool));
                        return None;
                    },
                }
                i += 1;
            }
            proof {
                lemma_member_views(members@);
                assert(switches(out@) =~= bool_members(all));
            }
            Some(Some(out))
        },
        Some(_) => None,
    }
}

/// The views of an optional list of members.
pub open spec fn opt_members(x: Option<Vec<(String, JsonValue)>>) -> Option<
    Seq<(Seq<char>, JsonView)>,
> {
    match x {
        Some(list) => Some(member_views(list@)),
        None => None,
    }
}

/// How an optional map from names to any values reads.
pub open spec fn optional_raw_map(value: Option<JsonView>) -> Option<
    Option<Seq<(Seq<char>, JsonView)>>,
> {
    match value {
        None => Some(None),
        Some(JsonView::Null) => Some(None),
        Some(JsonView::Object(members)) => Some(Some(members)),
        Some(_) => None,
    }
}

/// Reads an optional map from names to any values.
pub fn read_optional_raw_map(value: Option<&JsonValue>) -> (r: Option<
    Option<Vec<(String, JsonValue)>>,
>)
    ensures
        match r {
            Some(x) => optional_raw_map(opt_json(value)) == Some(opt_members(x)),
            None => optional_raw_map(opt_json(value)) is None,
        },
{
    match value {
        None => Some(None),
        Some(JsonValue::Null) => Some(None),
        Some(JsonValue::Object(members)) => {
            proof {
                lemma_view_parts(*value.unwrap());
            }
            Some(Some(copy_members(members)))
        },
        Some(_) => None,
    }
}

/// The members whose key is none of the known ones, in order.
pub open spec fn others(members: Seq<(Seq<char>, JsonView)>, known: Seq<Seq<char>>) -> Seq<
    (Seq<char>, JsonView),
> {
    members.filter(|m: (Seq<char>, JsonView)| !known.contains(m.0))
}

/// A copy of the members whose key is none of the known ones.
pub fn read_rest(members: &[(String, JsonValue)], known: &[&str]) -> (r: Vec<(String, JsonValue)>)
    ensures
        member_views(r@) == others(member_views(members@), known@.map_values(|k: &str| k@)),
{
    let ghost names = known@.map_values(|k: &str| k@);
    let ghost keep = |m: (Seq<char>, JsonView)| !names.contains(m.0);
    let ghost all = member_views(members@);
    let mut out: Vec<(String, JsonValue)> = Vec::new();
    let mut i: usize = 0;
    proof {
        reveal(Seq::filter);
        lemma_member_views(members@);
        assert(all.subrange(0, 0) =~= Seq::empty());
    }
    while i < members.len()
        invariant
            i <= members@.len(),
            all == member_views(members@),
            all.len() == members@.len(),
            names == known@.map_values(|k: &str| k@),
            keep == |m: (Seq<char>, JsonView)| !names.contains(m.0),
            member_views(out@) == all.subrange(0, i as int).filter(keep),
        decreases members@.len() - i,
    {
        proof {
            reveal(Seq::filter);
            lemma_member_views(members@);
            assert(all.subrange(0, i + 1).drop_last() =~= all.subrange(0, i as int));
        }
        let mut listed = false;
        let mut j: usize = 0;
        while j < known.len() && !listed
            invariant
                j <= known@.len(),
                names == known@.map_values(|k: &str| k@),
                i < members@.len(),
                listed ==> names.contains(members@[i as int].0@),
                !listed ==> forall|k: int| 0 <= k < j ==> names[k] != members@[i as int].0@,
            decreases known@.len() - j + if listed { 0int } else { 1int },
        {
            if same_text(members[i].0.as_str(), known[j]) {
                assert(names[j as int] == members@[i as int].0@);
                listed = true;
            } else {
                j += 1;
            }
        }
        if !listed {
            let item = copy_value(&members[i].1);
            let ghost before = out@;
            out.push((members[i].0.clone(), item));
            proof {
                assert(out@.drop_last() =~= before);
            }
        }
        i += 1;
    }
    assert(all.subrange(0, all.len() as int) =~= all);
    out
}

/// Whether an optional member is readable: missing, `null`, or a value
/// that is.
pub open spec fn optional_ok(value: Option<JsonView>, ok: spec_fn(JsonView) -> bool) -> bool {
    match value {
        None => true,
        Some(JsonView::Null) => true,
        Some(j) => ok(j),
    }
}

/// Whether `x` is what an optional member reads as.
pub open spec fn optional_is<T>(
    value: Option<JsonView>,
    x: Option<T>,
    is: spec_fn(JsonView, T) -> bool,
) -> bool {
    match value {
        None => x is None,
        Some(JsonView::Null) => x is None,
        Some(j) => x matches Some(t) && is(j, t),
    }
}

/// Whether an optional map is readable: missing, `null`, or an object
/// whose values all are.
pub open spec fn optional_map_ok(value: Option<JsonView>, ok: spec_fn(JsonView) -> bool) -> bool {
    match value {
        None => true,
        Some(JsonView::Null) => true,
        Some(JsonView::Object(members)) => forall|i: int|
            0 <= i < members.len() ==> ok((#[trigger] members[i]).1),
        Some(_) => false,
    }
}

/// Whether `x` is what an optional map reads as: an entry for each
/// member, in order, under its key.
pub open spec fn optional_map_is<T>(
    value: Option<JsonView>,
    x: Option<Vec<(String, T)>>,
    is: spec_fn(JsonView, T) -> bool,
) -> bool {
    match value {
        None => x is None,
        Some(JsonView::Null) => x is None,
        Some(JsonView::Object(members)) => x matches Some(list) && list@.len() == members.len()
            && forall|i: int|
            0 <= i < members.len() ==> (#[trigger] list@[i]).0@ == members[i].0 && is(
                members[i].1,
                list@[i].1,
            ),
        Some(_) => false,
    }
}


impl ShareMode {
    /// The value that a name stands for.
    pub open spec fn named(name: Seq<char>) -> Option<ShareMode> {
        if name == "manual"@ {
            Some(ShareMode::Manual)
        } else if name == "auto"@ {
            Some(ShareMode::Auto)
        } else if name == "disabled"@ {
            Some(ShareMode::Disabled)
        } else {
            None
        }
    }

    /// How an optional value of this type reads: missing or `null` is
    /// unset, one of the names is its value, anything else is malformed.
    pub open spec fn decoded(value: Option<JsonView>) -> Option<Option<ShareMode>> {
        match value {
            None => Some(None),
            Some(JsonView::Null) => Some(None),
            Some(JsonView::String(s)) => match Self::named(s) {
                Some(x) => Some(Some(x)),
                None => None,
            },
            Some(_) => None,
        }
    }

    /// The value that a name stands for.
    pub fn from_name(name: &str) -> (r: Option<ShareMode>)
        ensures
            r == Self::named(name@),
    {
        if same_text(name, "manual") {
            Some(ShareMode::Manual)
        } else if same_text(name, "auto") {
            Some(ShareMode::Auto)
        } else if same_text(name, "disabled") {
            Some(ShareMode::Disabled)
        } else {
            None
        }
    }

    /// Reads an optional value of this type.
    pub fn read_optional(value: Option<&JsonValue>) -> (r: Option<Option<ShareMode>>)
        ensures
            r == Self::decoded(opt_json(value)),
    {
        match value {
            None => Some(None),
            Some(JsonValue::Null) => Some(None),
            Some(JsonValue::String(s)) => match Self::from_name(s.as_str()) {
                Some(x) => Some(Some(x)),
                None => None,
            },
            Some(_) => None,
        }
    }
}

impl Layout {
    /// The value that a name stands for.
    pub open spec fn named(name: Seq<char>) -> Option<Layout> {
        if name == "auto"@ {
            Some(Layout::Auto)
        } else if name == "stretch"@ {
            Some(Layout::Stretch)
        } else {
            None
        }
    }

    /// How an optional value of this type reads: missing or `null` is
    /// unset, one of the names is its value, anything else is malformed.
    pub open spec fn decoded(value: Option<JsonView>) -> Option<Option<Layout>> {
        match value {
            None => Some(None),
            Some(JsonView::Null) => Some(None),
            Some(JsonView::String(s)) => match Self::named(s) {
                Some(x) => Some(Some(x)),
                None => None,
            },
            Some(_) => None,
        }
    }

    /// The value that a name stands for.
    pub fn from_name(name: &str) -> (r: Option<Layout>)
        ensures
            r == Self::named(name@),
    {
        if same_text(name, "auto") {
            Some(Layout::Auto)
        } else if same_text(name, "stretch") {
            Some(Layout::Stretch)
        } else {
            None
        }
    }

    /// Reads an optional value of this type.
    pub fn read_optional(value: Option<&JsonValue>) -> (r: Option<Option<Layout>>)
        ensures
            r == Self::decoded(opt_json(value)),
    {
        match value {
            None => Some(None),
            Some(JsonValue::Null) => Some(None),
            Some(JsonValue::String(s)) => match Self::from_name(s.as_str()) {
                Some(x) => Some(Some(x)),
                None => None,
            },
            Some(_) => None,
        }
    }
}

impl AgentMode {
    /// The value that a name stands for.
    pub open spec fn named(name: Seq<char>) -> Option<AgentMode> {
        if name == "subagent"@ {
            Some(AgentMode::Subagent)
        } else if name == "primary"@ {
            Some(AgentMode::Primary)
        } else if name == "all"@ {
            Some(AgentMode::All)
        } else {
            None
        }
    }

    /// How an optional value of this type reads: missing or `null` is
    /// unset, one of the names is its value, anything else is malformed.
    pub open spec fn decoded(value: Option<JsonView>) -> Option<Option<AgentMode>> {
        match value {
            None => Some(None),
            Some(JsonView::Null) => Some(None),
            Some(JsonView::String(s)) => match Self::named(s) {
                Some(x) => Some(Some(x)),
                None => None,
            },
            Some(_) => None,
        }
    }

    /// The value that a name stands for.
    pub fn from_name(name: &str) -> (r: Option<AgentMode>)
        ensures
            r == Self::named(name@),
    {
        if same_text(name, "subagent") {
            Some(AgentMode::Subagent)
        } else if same_text(name, "primary") {
            Some(AgentMode::Primary)
        } else if same_text(name, "all") {
            Some(AgentMode::All)
        } else {
            None
        }
    }

    /// Reads an optional value of this type.
    pub fn read_optional(value: Option<&JsonValue>) -> (r: Option<Option<AgentMode>>)
        ensures
            r == Self::decoded(opt_json(value)),
    {
        match value {
            None => Some(None),
            Some(JsonValue::Null) => Some(None),
            Some(JsonValue::String(s)) => match Self::from_name(s.as_str()) {
                Some(x) => Some(Some(x)),
                None => None,
            },
            Some(_) => None,
        }
    }
}

impl PermissionKind {
    /// The value that a name stands for.
    pub open spec fn named(name: Seq<char>) -> Option<PermissionKind> {
        if name == "ask"@ {
            Some(PermissionKind::Ask)
        } else if name == "allow"@ {
            Some(PermissionKind::Allow)
        } else if name == "deny"@ {
            Some(PermissionKind::Deny)
        } else {
            None
        }
    }

    /// How an optional value of this type reads: missing or `null` is
    /// unset, one of the names is its value, anything else is malformed.
    pub open spec fn decoded(value: Option<JsonView>) -> Option<Option<PermissionKind>> {
        match value {
            None => Some(None),
            Some(JsonView::Null) => Some(None),
            Some(JsonView::String(s)) => match Self::named(s) {
                Some(x) => Some(Some(x)),
                None => None,
            },
            Some(_) => None,
        }
    }

    /// The value that a name stands for.
    pub fn from_name(name: &str) -> (r: Option<PermissionKind>)
        ensures
            r == Self::named(name@),
    {
        if same_text(name, "ask") {
            Some(PermissionKind::Ask)
        } else if same_text(name, "allow") {
            Some(PermissionKind::Allow)
        } else if same_text(name, "deny") {
            Some(PermissionKind::Deny)
        } else {
            None
        }
    }

    /// Reads an optional value of this type.
    pub fn read_optional(value: Option<&JsonValue>) -> (r: Option<Option<PermissionKind>>)
        ensures
            r == Self::decoded(opt_json(value)),
    {
        match value {
            None => Some(None),
            Some(JsonValue::Null) => Some(None),
            Some(JsonValue::String(s)) => match Self::from_name(s.as_str()) {
                Some(x) => Some(Some(x)),
                None => None,
            },
            Some(_) => None,
        }
    }
}

impl WatcherSettings {
    /// Whether a JSON value reads as a value of this type: it is an
    /// object, and each member that the type knows has the form that its
    /// field asks for. Members that the type does not know are ignored.
    pub open spec fn readable(value: JsonView) -> bool {
        value matches JsonView::Object(members) && {
            &&& default_texts(lookup(members, "ignore"@)) is Some
        }
    }

    /// Whether `x` is what a JSON value reads as: field by field, what the
    /// member of its name holds.
    pub open spec fn reads(value: JsonView, x: WatcherSettings) -> bool {
        value matches JsonView::Object(members) && {
            &&& default_texts(lookup(members, "ignore"@)) == Some(texts(x.ignore@))
        }
    }

    /// Reads a value of this type from a JSON value.
    pub fn from_json(value: &JsonValue) -> (r: Option<WatcherSettings>)
        ensures
            match r {
                Some(x) => Self::reads(value@, x),
                None => !Self::readable(value@),
            },
    {
        proof {
            lemma_view_parts(*value);
        }
        match value {
            JsonValue::Object(members) => {
                let m = members.as_slice();
                let ignore = match read_default_texts(find(m, "ignore")) {
                    Some(v) => v,
                    None => {
                        return None;
                    },
                };
                Some(WatcherSettings {
                    ignore,
                })
            },
            _ => None,
        }
    }
}

impl Keybinds {
    /// Whether a JSON value reads as a value of this type: it is an
    /// object, and each member that the type knows has the form that its
    /// field asks for. Members that the type does not know are ignored.
    pub open spec fn readable(value: JsonView) -> bool {
        value matches JsonView::Object(members) && {
            &&& optional_text(lookup(members, "leader"@)) is Some
            &&& optional_text(lookup(members, "app_help"@)) is Some
            &&& optional_text(lookup(members, "app_exit"@)) is Some
            &&& optional_text(lookup(members, "editor_open"@)) is Some
            &&& optional_text(lookup(members, "theme_list"@)) is Some
            &&& optional_text(lookup(members, "project_init"@)) is Some
            &&& optional_text(lookup(members, "tool_details"@)) is Some
            &&& optional_text(lookup(members, "thinking_blocks"@)) is Some
            &&& optional_text(lookup(members, "session_export"@)) is Some
            &&& optional_text(lookup(members, "session_new"@)) is Some
            &&& optional_text(lookup(members, "session_list"@)) is Some
            &&& optional_text(lookup(members, "session_timeline"@)) is Some
            &&& optional_text(lookup(members, "session_share"@)) is Some
            &&& optional_text(lookup(members, "session_unshare"@)) is Some
            &&& optional_text(lookup(members, "session_interrupt"@)) is Some
            &&& optional_text(lookup(members, "session_compact"@)) is Some
            &&& optional_text(lookup(members, "session_child_cycle"@)) is Some
            &&& optional_text(lookup(members, "session_child_cycle_reverse"@)) is Some
            &&& optional_text(lookup(members, "messages_page_up"@)) is Some
            &&& optional_text(lookup(members, "messages_page_down"@)) is Some
            &&& optional_text(lookup(members, "messages_half_page_up"@)) is Some
            &&& optional_text(lookup(members, "messages_half_page_down"@)) is Some
            &&& optional_text(lookup(members, "messages_first"@)) is Some
            &&& optional_text(lookup(members, "messages_last"@)) is Some
            &&& optional_text(lookup(members, "messages_copy"@)) is Some
            &&& optional_text(lookup(members, "messages_undo"@)) is Some
            &&& optional_text(lookup(members, "messages_redo"@)) is Some
            &&& optional_text(lookup(members, "model_list"@)) is Some
            &&& optional_text(lookup(members, "model_cycle_recent"@)) is Some
            &&& optional_text(lookup(members, "model_cycle_recent_reverse"@)) is Some
            &&& optional_text(lookup(members, "agent_list"@)) is Some
            &&& optional_text(lookup(members, "agent_cycle"@)) is Some
            &&& optional_text(lookup(members, "agent_cycle_reverse"@)) is Some
            &&& optional_text(lookup(members, "input_clear"@)) is Some
            &&& optional_text(lookup(members, "input_paste"@)) is Some
            &&& optional_text(lookup(members, "input_submit"@)) is Some
            &&& optional_text(lookup(members, "input_newline"@)) is Some
            &&& optional_text(lookup(members, "switch_mode"@)) is Some
            &&& optional_text(lookup(members, "switch_mode_reverse"@)) is Some
            &&& optional_text(lookup(members, "switch_agent"@)) is Some
            &&& optional_text(lookup(members, "switch_agent_reverse"@)) is Some
            &&& optional_text(lookup(members, "file_list"@)) is Some
            &&& optional_text(lookup(members, "file_close"@)) is Some
            &&& optional_text(lookup(members, "file_search"@)) is Some
            &&& optional_text(lookup(members, "file_diff_toggle"@)) is Some
            &&& optional_text(lookup(members, "messages_previous"@)) is Some
            &&& optional_text(lookup(members, "messages_next"@)) is Some
            &&& optional_text(lookup(members, "messages_layout_toggle"@)) is Some
            &&& optional_text(lookup(members, "messages_revert"@)) is Some
        }
    }

    /// Whether `x` is what a JSON value reads as: field by field, what the
    /// member of its name holds.
    pub open spec fn reads(value: JsonView, x: Keybinds) -> bool {
        value matches JsonView::Object(members) && {
            &&& optional_text(lookup(members, "leader"@)) == Some(opt_text(x.leader))
            &&& optional_text(lookup(members, "app_help"@)) == Some(opt_text(x.app_help))
            &&& optional_text(lookup(members, "app_exit"@)) == Some(opt_text(x.app_exit))
            &&& optional_text(lookup(members, "editor_open"@)) == Some(opt_text(x.editor_open))
            &&& optional_text(lookup(members, "theme_list"@)) == Some(opt_text(x.theme_list))
            &&& optional_text(lookup(members, "project_init"@)) == Some(opt_text(x.project_init))
            &&& optional_text(lookup(members, "tool_details"@)) == Some(opt_text(x.tool_details))
            &&& optional_text(lookup(members, "thinking_blocks"@)) == Some(
                opt_text(x.thinking_blocks),
            )
            &&& optional_text(lookup(members, "session_export"@)) == Some(
                opt_text(x.session_export),
            )
            &&& optional_text(lookup(members, "session_new"@)) == Some(opt_text(x.session_new))
            &&& optional_text(lookup(members, "session_list"@)) == Some(opt_text(x.session_list))
            &&& optional_text(lookup(members, "session_timeline"@)) == Some(
                opt_text(x.session_timeline),
            )
            &&& optional_text(lookup(members, "session_share"@)) == Some(opt_text(x.session_share))
            &&& optional_text(lookup(members, "session_unshare"@)) == Some(
                opt_text(x.session_unshare),
            )
            &&& optional_text(lookup(members, "session_interrupt"@)) == Some(
                opt_text(x.session_interrupt),
            )
            &&& optional_text(lookup(members, "session_compact"@)) == Some(
                opt_text(x.session_compact),
            )
            &&& optional_text(lookup(members, "session_child_cycle"@)) == Some(
                opt_text(x.session_child_cycle),
            )
            &&& optional_text(lookup(members, "session_child_cycle_reverse"@)) == Some(
                opt_text(x.session_child_cycle_reverse),
            )
            &&& optional_text(lookup(members, "messages_page_up"@)) == Some(
                opt_text(x.messages_page_up),
            )
            &&& optional_text(lookup(members, "messages_page_down"@)) == Some(
                opt_text(x.messages_page_down),
            )
            &&& optional_text(lookup(members, "messages_half_page_up"@)) == Some(
                opt_text(x.messages_half_page_up),
            )
            &&& optional_text(lookup(members, "messages_half_page_down"@)) == Some(
                opt_text(x.messages_half_page_down),
            )
            &&& optional_text(lookup(members, "messages_first"@)) == Some(
                opt_text(x.messages_first),
            )
            &&& optional_text(lookup(members, "messages_last"@)) == Some(opt_text(x.messages_last))
            &&& optional_text(lookup(members, "messages_copy"@)) == Some(opt_text(x.messages_copy))
            &&& optional_text(lookup(members, "messages_undo"@)) == Some(opt_text(x.messages_undo))
            &&& optional_text(lookup(members, "messages_redo"@)) == Some(opt_text(x.messages_redo))
            &&& optional_text(lookup(members, "model_list"@)) == Some(opt_text(x.model_list))
            &&& optional_text(lookup(members, "model_cycle_recent"@)) == Some(
                opt_text(x.model_cycle_recent),
            )
            &&& optional_text(lookup(members, "model_cycle_recent_reverse"@)) == Some(
                opt_text(x.model_cycle_recent_reverse),
            )
            &&& optional_text(lookup(members, "agent_list"@)) == Some(opt_text(x.agent_list))
            &&& optional_text(lookup(members, "agent_cycle"@)) == Some(opt_text(x.agent_cycle))
            &&& optional_text(lookup(members, "agent_cycle_reverse"@)) == Some(
                opt_text(x.agent_cycle_reverse),
            )
            &&& optional_text(lookup(members, "input_clear"@)) == Some(opt_text(x.input_clear))
            &&& optional_text(lookup(members, "input_paste"@)) == Some(opt_text(x.input_paste))
            &&& optional_text(lookup(members, "input_submit"@)) == Some(opt_text(x.input_submit))
            &&& optional_text(lookup(members, "input_newline"@)) == Some(opt_text(x.input_newline))
            &&& optional_text(lookup(members, "switch_mode"@)) == Some(opt_text(x.switch_mode))
            &&& optional_text(lookup(members, "switch_mode_reverse"@)) == Some(
                opt_text(x.switch_mode_reverse),
            )
            &&& optional_text(lookup(members, "switch_agent"@)) == Some(opt_text(x.switch_agent))
            &&& optional_text(lookup(members, "switch_agent_reverse"@)) == Some(
                opt_text(x.switch_agent_reverse),
            )
            &&& optional_text(lookup(members, "file_list"@)) == Some(opt_text(x.file_list))
            &&& optional_text(lookup(members, "file_close"@)) == Some(opt_text(x.file_close))
            &&& optional_text(lookup(members, "file_search"@)) == Some(opt_text(x.file_search))
            &&& optional_text(lookup(members, "file_diff_toggle"@)) == Some(
                opt_text(x.file_diff_toggle),
            )
            &&& optional_text(lookup(members, "messages_previous"@)) == Some(
                opt_text(x.messages_previous),
            )
            &&& optional_text(lookup(members, "messages_next"@)) == Some(opt_text(x.messages_next))
            &&& optional_text(lookup(members, "messages_layout_toggle"@)) == Some(
                opt_text(x.messages_layout_toggle),
            )
            &&& optional_text(lookup(members, "messages_revert"@)) == Some(
                opt_text(x.messages_revert),
            )
        }
    }

    /// Reads a value of this type from a JSON value.
    pub fn from_json(value: &JsonValue) -> (r: Option<Keybinds>)
        ensures
            match r {
                Some(x) => Self::reads(value@, x),
                None => !Self::readable(value@),
            },
    {
        proof {
            lemma_view_parts(*value);
        }
        match value {
            JsonValue::Object(members) => {
                let m = members.as_slice();
                let leader = match read_optional_text(find(m, "leader")) {
                    Some(v) => v,
                    None => {
                        return None;
                    },
                };
                let app_help = match read_optional_text(find(m, "app_help")) {
                    Some(v) => v,
                    None => {
                        return None;
                    },
                };
                let app_exit = match read_optional_text(find(m, "app_exit")) {
                    Some(v) => v,
                    None => {
                        return None;
                    },
                };
                let editor_open = match read_optional_text(find(m, "editor_open")) {
                    Some(v) => v,
                    None => {
                        return None;
                    },
                };
                let theme_list = match read_optional_text(find(m, "theme_list")) {
                    Some(v) => v,
                    None => {
                        return None;
                    },
                };
                let project_init = match read_optional_text(find(m, "project_init")) {
                    Some(v) => v,
                    None => {
                        return None;
                    },
                };
                let tool_details = match read_optional_text(find(m, "tool_details")) {
                    Some(v) => v,
                    None => {
                        return None;
                    },
                };
                let thinking_blocks = match read_optional_text(find(m, "thinking_blocks")) {
                    Some(v) => v,
                    None => {
                        return None;
                    },
                };
                let session_export = match read_optional_text(find(m, "session_export")) {
                    Some(v) => v,
                    None => {
                        return None;
                    },
                };
                let session_new = match read_optional_text(find(m, "session_new")) {
                    Some(v) => v,
                    None => {
                        return None;
                    },
                };
                let session_list = match read_optional_text(find(m, "session_list")) {
                    Some(v) => v,
                    None => {
                        return None;
                    },
                };
                let session_timeline = match read_optional_text(find(m, "session_timeline")) {
                    Some(v) => v,
                    None => {
                        return None;
                    },
                };
                let session_share = match read_optional_text(find(m, "session_share")) {
                    Some(v) => v,
                    None => {
                        return None;
                    },
                };
                let session_unshare = match read_optional_text(find(m, "session_unshare")) {
                    Some(v) => v,
                    None => {
                        return None;
                    },
                };
                let session_interrupt = match read_optional_text(find(m, "session_interrupt")) {
                    Some(v) => v,
                    None => {
                        return None;
                    },
                };
                let session_compact = match read_optional_text(find(m, "session_compact")) {
                    Some(v) => v,
                    None => {
                        return None;
                    },
                };
                let session_child_cycle = match read_optional_text(find(m, "session_child_cycle")) {
                    Some(v) => v,
                    None => {
                        return None;
                    },
                };
                let session_child_cycle_reverse = match read_optional_text(
                    find(m, "session_child_cycle_reverse"),
                ) {
                    Some(v) => v,
                    None => {
                        return None;
                    },
                };
                let messages_page_up = match read_optional_text(find(m, "messages_page_up")) {
                    Some(v) => v,
                    None => {
                        return None;
                    },
                };
                let messages_page_down = match read_optional_text(find(m, "messages_page_down")) {
                    Some(v) => v,
                    None => {
                        return None;
                    },
                };
                let messages_half_page_up = match read_optional_text(
                    find(m, "messages_half_page_up"),
                ) {
                    Some(v) => v,
                    None => {
                        return None;
                    },
                };
                let messages_half_page_down = match read_optional_text(
                    find(m, "messages_half_page_down"),
                ) {
                    Some(v) => v,
                    None => {
                        return None;
                    },
                };
                let messages_first = match read_optional_text(find(m, "messages_first")) {
                    Some(v) => v,
                    None => {
                        return None;
                    },
                };
                let messages_last = match read_optional_text(find(m, "messages_last")) {
                    Some(v) => v,
                    None => {
                        return None;
                    },
                };
                let messages_copy = match read_optional_text(find(m, "messages_copy")) {
                    Some(v) => v,
                    None => {
                        return None;
                    },
                };
                let messages_undo = match read_optional_text(find(m, "messages_undo")) {
                    Some(v) => v,
                    None => {
                        return None;
                    },
                };
                let messages_redo = match read_optional_text(find(m, "messages_redo")) {
                    Some(v) => v,
                    None => {
                        return None;
                    },
                };
                let model_list = match read_optional_text(find(m, "model_list")) {
                    Some(v) => v,
                    None => {
                        return None;
                    },
                };
                let model_cycle_recent = match read_optional_text(find(m, "model_cycle_recent")) {
                    Some(v) => v,
                    None => {
                        return None;
                    },
                };
                let model_cycle_recent_reverse = match read_optional_text(
                    find(m, "model_cycle_recent_reverse"),
                ) {
                    Some(v) => v,
                    None => {
                        return None;
                    },
                };
                let agent_list = match read_optional_text(find(m, "agent_list")) {
                    Some(v) => v,
                    None => {
                        return None;
                    },
                };
                let agent_cycle = match read_optional_text(find(m, "agent_cycle")) {
                    Some(v) => v,
                    None => {
                        return None;
                    },
                };
                let agent_cycle_reverse = match read_optional_text(find(m, "agent_cycle_reverse")) {
                    Some(v) => v,
                    None => {
                        return None;
                    },
                };
                let input_clear = match read_optional_text(find(m, "input_clear")) {
                    Some(v) => v,
                    None => {
                        return None;
                    },
                };
                let input_paste = match read_optional_text(find(m, "input_paste")) {
                    Some(v) => v,
                    None => {
                        return None;
                    },
                };
                let input_submit = match read_optional_text(find(m, "input_submit")) {
                    Some(v) => v,
                    None => {
                        return None;
                    },
                };
                let input_newline = match read_optional_text(find(m, "input_newline")) {
                    Some(v) => v,
                    None => {
                        return None;
                    },
                };
                let switch_mode = match read_optional_text(find(m, "switch_mode")) {
                    Some(v) => v,
                    None => {
                        return None;
                    },
                };
                let switch_mode_reverse = match read_optional_text(find(m, "switch_mode_reverse")) {
                    Some(v) => v,
                    None => {
                        return None;
                    },
                };
                let switch_agent = match read_optional_text(find(m, "switch_agent")) {
                    Some(v) => v,
                    None => {
                        return None;
                    },
                };
                let switch_agent_reverse = match read_optional_text(
                    find(m, "switch_agent_reverse"),
                ) {
                    Some(v) => v,
                    None => {
                        return None;
                    },
                };
                let file_list = match read_optional_text(find(m, "file_list")) {
                    Some(v) => v,
                    None => {
                        return None;
                    },
                };
                let file_close = match read_optional_text(find(m, "file_close")) {
                    Some(v) => v,
                    None => {
                        return None;
                    },
                };
                let file_search = match read_optional_text(find(m, "file_search")) {
                    Some(v) => v,
                    None => {
                        return None;
                    },
                };
                let file_diff_toggle = match read_optional_text(find(m, "file_diff_toggle")) {
                    Some(v) => v,
                    None => {
                        return None;
                    },
                };
                let messages_previous = match read_optional_text(find(m, "messages_previous")) {
                    Some(v) => v,
                    None => {
                        return None;
                    },
                };
                let messages_next = match read_optional_text(find(m, "messages_next")) {
                    Some(v) => v,
                    None => {
                        return None;
                    },
                };
                let messages_layout_toggle = match read_optional_text(
                    find(m, "messages_layout_toggle"),
                ) {
                    Some(v) => v,
                    None => {
                        return None;
                    },
                };
                let messages_revert = match read_optional_text(find(m, "messages_revert")) {
                    Some(v) => v,
                    None => {
                        return None;
                    },
                };
                Some(Keybinds {
                    leader,
                    app_help,
                    app_exit,
                    editor_open,
                    theme_list,
                    project_init,
                    tool_details,
                    thinking_blocks,
                    session_export,
                    session_new,
                    session_list,
                    session_timeline,
                    session_share,
                    session_unshare,
                    session_interrupt,
                    session_compact,
                    session_child_cycle,
                    session_child_cycle_reverse,
                    messages_page_up,
                    messages_page_down,
                    messages_half_page_up,
                    messages_half_page_down,
                    messages_first,
                    messages_last,
                    messages_copy,
                    messages_undo,
                    messages_redo,
                    model_list,
                    model_cycle_recent,
                    model_cycle_recent_reverse,
                    agent_list,
                    agent_cycle,
                    agent_cycle_reverse,
                    input_clear,
                    input_paste,
                    input_submit,
                    input_newline,
                    switch_mode,
                    switch_mode_reverse,
                    switch_agent,
                    switch_agent_reverse,
                    file_list,
                    file_close,
                    file_search,
                    file_diff_toggle,
                    messages_previous,
                    messages_next,
                    messages_layout_toggle,
                    messages_revert,
                })
            },
            _ => None,
        }
    }
}

impl Command {
    /// Whether a JSON value reads as a value of this type: it is an
    /// object, and each member that the type knows has the form that its
    /// field asks for. Members that the type does not know are ignored.
    pub open spec fn readable(value: JsonView) -> bool {
        value matches JsonView::Object(members) && {
            &&& required_text(lookup(members, "template"@)) is Some
            &&& optional_text(lookup(members, "description"@)) is Some
            &&& optional_text(lookup(members, "agent"@)) is Some
            &&& optional_text(lookup(members, "model"@)) is Some
            &&& optional_bool(lookup(members, "subtask"@)) is Some
        }
    }

    /// Whether `x` is what a JSON value reads as: field by field, what the
    /// member of its name holds.
    pub open spec fn reads(value: JsonView, x: Command) -> bool {
        value matches JsonView::Object(members) && {
            &&& required_text(lookup(members, "template"@)) == Some(x.template@)
            &&& optional_text(lookup(members, "description"@)) == Some(opt_text(x.description))
            &&& optional_text(lookup(members, "agent"@)) == Some(opt_text(x.agent))
            &&& optional_text(lookup(members, "model"@)) == Some(opt_text(x.model))
            &&& optional_bool(lookup(members, "subtask"@)) == Some(x.subtask)
        }
    }

    /// Reads a value of this type from a JSON value.
    pub fn from_json(value: &JsonValue) -> (r: Option<Command>)
        ensures
            match r {
                Some(x) => Self::reads(value@, x),
                None => !Self::readable(value@),
            },
    {
        proof {
            lemma_view_parts(*value);
        }
        match value {
            JsonValue::Object(members) => {
                let m = members.as_slice();
                let template = match read_required_text(find(m, "template")) {
                    Some(v) => v,
                    None => {
                        return None;
                    },
                };
                let description = match read_optional_text(find(m, "description")) {
                    Some(v) => v,
                    None => {
                        return None;
                    },
                };
                let agent = match read_optional_text(find(m, "agent")) {
                    Some(v) => v,
                    None => {
                        return None;
                    },
                };
                let model = match read_optional_text(find(m, "model")) {
                    Some(v) => v,
                    None => {
                        return None;
                    },
                };
                let subtask = match read_optional_bool(find(m, "subtask")) {
                    Some(v) => v,
                    None => {
                        return None;
                    },
                };
                Some(Command {
                    template,
                    description,
                    agent,
                    model,
                    subtask,
                })
            },
            _ => None,
        }
    }
}

impl LocalMcpConfig {
    /// Whether a JSON value reads as a value of this type: it is an
    /// object, and each member that the type knows has the form that its
    /// field asks for. Members that the type does not know are ignored.
    pub open spec fn readable(value: JsonView) -> bool {
        value matches JsonView::Object(members) && {
            &&& required_texts(lookup(members, "command"@)) is Some
            &&& optional_text_map(lookup(members, "environment"@)) is Some
            &&& optional_bool(lookup(members, "enabled"@)) is Some
        }
    }

    /// Whether `x` is what a JSON value reads as: field by field, what the
    /// member of its name holds.
    pub open spec fn reads(value: JsonView, x: LocalMcpConfig) -> bool {
        value matches JsonView::Object(members) && {
            &&& required_texts(lookup(members, "command"@)) == Some(texts(x.command@))
            &&& optional_text_map(lookup(members, "environment"@)) == Some(opt_pairs(x.environment))
            &&& optional_bool(lookup(members, "enabled"@)) == Some(x.enabled)
        }
    }

    /// Reads a value of this type from a JSON value.
    pub fn from_json(value: &JsonValue) -> (r: Option<LocalMcpConfig>)
        ensures
            match r {
                Some(x) => Self::reads(value@, x),
                None => !Self::readable(value@),
            },
    {
        proof {
            lemma_view_parts(*value);
        }
        match value {
            JsonValue::Object(members) => {
                let m = members.as_slice();
                let command = match read_required_texts(find(m, "command")) {
                    Some(v) => v,
                    None => {
                        return None;
                    },
                };
                let environment = match read_optional_text_map(find(m, "environment")) {
                    Some(v) => v,
                    None => {
                        return None;
                    },
                };
                let enabled = match read_optional_bool(find(m, "enabled")) {
                    Some(v) => v,
                    None => {
                        return None;
                    },
                };
                Some(LocalMcpConfig {
                    command,
                    environment,
                    enabled,
                })
            },
            _ => None,
        }
    }
}

impl RemoteMcpConfig {
    /// Whether a JSON value reads as a value of this type: it is an
    /// object, and each member that the type knows has the form that its
    /// field asks for. Members that the type does not know are ignored.
    pub open spec fn readable(value: JsonView) -> bool {
        value matches JsonView::Object(members) && {
            &&& required_text(lookup(members, "url"@)) is Some
            &&& optional_bool(lookup(members, "enabled"@)) is Some
            &&& optional_text_map(lookup(members, "headers"@)) is Some
        }
    }

    /// Whether `x` is what a JSON value reads as: field by field, what the
    /// member of its name holds.
    pub open spec fn reads(value: JsonView, x: RemoteMcpConfig) -> bool {
        value matches JsonView::Object(members) && {
            &&& required_text(lookup(members, "url"@)) == Some(x.url@)
            &&& optional_bool(lookup(members, "enabled"@)) == Some(x.enabled)
            &&& optional_text_map(lookup(members, "headers"@)) == Some(opt_pairs(x.headers))
        }
    }

    /// Reads a value of this type from a JSON value.
    pub fn from_json(value: &JsonValue) -> (r: Option<RemoteMcpConfig>)
        ensures
            match r {
                Some(x) => Self::reads(value@, x),
                None => !Self::readable(value@),
            },
    {
        proof {
            lemma_view_parts(*value);
        }
        match value {
            JsonValue::Object(members) => {
                let m = members.as_slice();
                let url = match read_required_text(find(m, "url")) {
                    Some(v) => v,
                    None => {
                        return None;
                    },
                };
                let enabled = match read_optional_bool(find(m, "enabled")) {
                    Some(v) => v,
                    None => {
                        return None;
                    },
                };
                let headers = match read_optional_text_map(find(m, "headers")) {
                    Some(v) => v,
                    None => {
                        return None;
                    },
                };
                Some(RemoteMcpConfig {
                    url,
                    enabled,
                    headers,
                })
            },
            _ => None,
        }
    }
}

impl FormatterConfig {
    /// Whether a JSON value reads as a value of this type: it is an
    /// object, and each member that the type knows has the form that its
    /// field asks for. Members that the type does not know are ignored.
    pub open spec fn readable(value: JsonView) -> bool {
        value matches JsonView::Object(members) && {
            &&& optional_bool(lookup(members, "disabled"@)) is Some
            &&& optional_texts(lookup(members, "command"@)) is Some
            &&& optional_text_map(lookup(members, "environment"@)) is Some
            &&& optional_texts(lookup(members, "extensions"@)) is Some
        }
    }

    /// Whether `x` is what a JSON value reads as: field by field, what the
    /// member of its name holds.
    pub open spec fn reads(value: JsonView, x: FormatterConfig) -> bool {
        value matches JsonView::Object(members) && {
            &&& optional_bool(lookup(members, "disabled"@)) == Some(x.disabled)
            &&& optional_texts(lookup(members, "command"@)) == Some(opt_texts(x.command))
            &&& optional_text_map(lookup(members, "environment"@)) == Some(opt_pairs(x.environment))
            &&& optional_texts(lookup(members, "extensions"@)) == Some(opt_texts(x.extensions))
        }
    }

    /// Reads a value of this type from a JSON value.
    pub fn from_json(value: &JsonValue) -> (r: Option<FormatterConfig>)
        ensures
            match r {
                Some(x) => Self::reads(value@, x),
                None => !Self::readable(value@),
            },
    {
        proof {
            lemma_view_parts(*value);
        }
        match value {
            JsonValue::Object(members) => {
                let m = members.as_slice();
                let disabled = match read_optional_bool(find(m, "disabled")) {
                    Some(v) => v,
                    None => {
                        return None;
                    },
                };
                let command = match read_optional_texts(find(m, "command")) {
                    Some(v) => v,
                    None => {
                        return None;
                    },
                };
                let environment = match read_optional_text_map(find(m, "environment")) {
                    Some(v) => v,
                    None => {
                        return None;
                    },
                };
                let extensions = match read_optional_texts(find(m, "extensions")) {
                    Some(v) => v,
                    None => {
                        return None;
                    },
                };
                Some(FormatterConfig {
                    disabled,
                    command,
                    environment,
                    extensions,
                })
            },
            _ => None,
        }
    }
}

impl LspServerConfig {
    /// Whether a JSON value reads as a value of this type: it is an
    /// object, and each member that the type knows has the form that its
    /// field asks for. Members that the type does not know are ignored.
    pub open spec fn readable(value: JsonView) -> bool {
        value matches JsonView::Object(members) && {
            &&& required_texts(lookup(members, "command"@)) is Some
            &&& optional_texts(lookup(members, "extensions"@)) is Some
            &&& optional_bool(lookup(members, "disabled"@)) is Some
            &&& optional_text_map(lookup(members, "env"@)) is Some
            &&& optional_raw_map(lookup(members, "initialization"@)) is Some
        }
    }

    /// Whether `x` is what a JSON value reads as: field by field, what the
    /// member of its name holds.
    pub open spec fn reads(value: JsonView, x: LspServerConfig) -> bool {
        value matches JsonView::Object(members) && {
            &&& required_texts(lookup(members, "command"@)) == Some(texts(x.command@))
            &&& optional_texts(lookup(members, "extensions"@)) == Some(opt_texts(x.extensions))
            &&& optional_bool(lookup(members, "disabled"@)) == Some(x.disabled)
            &&& optional_text_map(lookup(members, "env"@)) == Some(opt_pairs(x.env))
            &&& optional_raw_map(lookup(members, "initialization"@)) == Some(
                opt_members(x.initialization),
            )
        }
    }

    /// Reads a value of this type from a JSON value.
    pub fn from_json(value: &JsonValue) -> (r: Option<LspServerConfig>)
        ensures
            match r {
                Some(x) => Self::reads(value@, x),
                None => !Self::readable(value@),
            },
    {
        proof {
            lemma_view_parts(*value);
        }
        match value {
            JsonValue::Object(members) => {
                let m = members.as_slice();
                let command = match read_required_texts(find(m, "command")) {
                    Some(v) => v,
                    None => {
                        return None;
                    },
                };
                let extensions = match read_optional_texts(find(m, "extensions")) {
                    Some(v) => v,
                    None => {
                        return None;
                    },
                };
                let disabled = match read_optional_bool(find(m, "disabled")) {
                    Some(v) => v,
                    None => {
                        return None;
                    },
                };
                let env = match read_optional_text_map(find(m, "env")) {
                    Some(v) => v,
                    None => {
                        return None;
                    },
                };
                let initialization = match read_optional_raw_map(find(m, "initialization")) {
                    Some(v) => v,
                    None => {
                        return None;
                    },
                };
                Some(LspServerConfig {
                    command,
                    extensions,
                    disabled,
                    env,
                    initialization,
                })
            },
            _ => None,
        }
    }
}

impl HookCommand {
    /// Whether a JSON value reads as a value of this type: it is an
    /// object, and each member that the type knows has the form that its
    /// field asks for. Members that the type does not know are ignored.
    pub open spec fn readable(value: JsonView) -> bool {
        value matches JsonView::Object(members) && {
            &&& required_texts(lookup(members, "command"@)) is Some
            &&& optional_text_map(lookup(members, "environment"@)) is Some
        }
    }

    /// Whether `x` is what a JSON value reads as: field by field, what the
    /// member of its name holds.
    pub open spec fn reads(value: JsonView, x: HookCommand) -> bool {
        value matches JsonView::Object(members) && {
            &&& required_texts(lookup(members, "command"@)) == Some(texts(x.command@))
            &&& optional_text_map(lookup(members, "environment"@)) == Some(opt_pairs(x.environment))
        }
    }

    /// Reads a value of this type from a JSON value.
    pub fn from_json(value: &JsonValue) -> (r: Option<HookCommand>)
        ensures
            match r {
                Some(x) => Self::reads(value@, x),
                None => !Self::readable(value@),
            },
    {
        proof {
            lemma_view_parts(*value);
        }
        match value {
            JsonValue::Object(members) => {
                let m = members.as_slice();
                let command = match read_required_texts(find(m, "command")) {
                    Some(v) => v,
                    None => {
                        return None;
                    },
                };
                let environment = match read_optional_text_map(find(m, "environment")) {
                    Some(v) => v,
                    None => {
                        return None;
                    },
                };
                Some(HookCommand {
                    command,
                    environment,
                })
            },
            _ => None,
        }
    }
}

impl Keybinds {
    /// Reads an optional value of this type: nothing where the member is
    /// missing or `null`.
    pub fn read_optional(value: Option<&JsonValue>) -> (r: Option<Option<Keybinds>>)
        ensures
            match r {
                Some(x) => optional_is(
                    opt_json(value),
                    x,
                    |j: JsonView,
                    t: Keybinds| Keybinds::reads(j, t),
                ),
                None => !optional_ok(opt_json(value), |j: JsonView| Keybinds::readable(j)),
            },
    {
        match value {
            None => Some(None),
            Some(JsonValue::Null) => Some(None),
            Some(v) => match Keybinds::from_json(v) {
                Some(x) => Some(Some(x)),
                None => None,
            },
        }
    }
}

impl WatcherSettings {
    /// Reads an optional value of this type: nothing where the member is
    /// missing or `null`.
    pub fn read_optional(value: Option<&JsonValue>) -> (r: Option<Option<WatcherSettings>>)
        ensures
            match r {
                Some(x) => optional_is(
                    opt_json(value),
                    x,
                    |j: JsonView,
                    t: WatcherSettings| WatcherSettings::reads(j, t),
                ),
                None => !optional_ok(opt_json(value), |j: JsonView| WatcherSettings::readable(j)),
            },
    {
        match value {
            None => Some(None),
            Some(JsonValue::Null) => Some(None),
            Some(v) => match WatcherSettings::from_json(v) {
                Some(x) => Some(Some(x)),
                None => None,
            },
        }
    }
}

impl Command {
    /// Reads an optional map to values of this type, in the order of the
    /// object's members: nothing where the member is missing or `null`.
    pub fn read_optional_map(value: Option<&JsonValue>) -> (r: Option<
        Option<Vec<(String, Command)>>,
    >)
        ensures
            match r {
                Some(x) => optional_map_is(
                    opt_json(value),
                    x,
                    |j: JsonView,
                    t: Command| Command::reads(j, t),
                ),
                None => !optional_map_ok(
                    opt_json(value),
                    |j: JsonView| Command::readable(j),
                ),
            },
    {
        let ghost ok = |j: JsonView| Command::readable(j);
        let ghost is = |j: JsonView, t: Command| Command::reads(j, t);
        match value {
            None => Some(None),
            Some(JsonValue::Null) => Some(None),
            Some(JsonValue::Object(members)) => {
                proof {
                    lemma_view_parts(*value.unwrap());
                }
                let ghost all = member_views(members@);
                proof {
                    lemma_member_views(members@);
                }
                let mut out: Vec<(String, Command)> = Vec::new();
                let mut i: usize = 0;
                while i < members.len()
                    invariant
                        i <= members@.len(),
                        all == member_views(members@),
                        all.len() == members@.len(),
                        opt_json(value) == Some(JsonView::Object(all)),
                        ok == |j: JsonView| Command::readable(j),
                        is == |j: JsonView, t: Command| Command::reads(j, t),
                        out@.len() == i,
                        forall|k: int|
                            0 <= k < i ==> (#[trigger] out@[k]).0@ == all[k].0
                                && is(all[k].1, out@[k].1),
                    decreases members@.len() - i,
                {
                    proof {
                        lemma_member_views(members@);
                    }
                    match Command::from_json(&members[i].1) {
                        Some(item) => {
                            out.push((members[i].0.clone(), item));
                        },
                        None => {
                            assert(!Command::readable(all[i as int].1));
                            assert(opt_json(value) matches Some(JsonView::Object(m)) && m == all);
                            assert(!(|j: JsonView| Command::readable(j))(all[i as int].1));
                            return None;
                        },
                    }
                    i += 1;
                }
                proof {
                    lemma_member_views(members@);
                }
                Some(Some(out))
            },
            Some(_) => None,
        }
    }
}

impl FormatterConfig {
    /// Reads an optional map to values of this type, in the order of the
    /// object's members: nothing where the member is missing or `null`.
    pub fn read_optional_map(value: Option<&JsonValue>) -> (r: Option<
        Option<Vec<(String, FormatterConfig)>>,
    >)
        ensures
            match r {
                Some(x) => optional_map_is(
                    opt_json(value),
                    x,
                    |j: JsonView,
                    t: FormatterConfig| FormatterConfig::reads(j, t),
                ),
                None => !optional_map_ok(
                    opt_json(value),
                    |j: JsonView| FormatterConfig::readable(j),
                ),
            },
    {
        let ghost ok = |j: JsonView| FormatterConfig::readable(j);
        let ghost is = |j: JsonView, t: FormatterConfig| FormatterConfig::reads(j, t);
        match value {
            None => Some(None),
            Some(JsonValue::Null) => Some(None),
            Some(JsonValue::Object(members)) => {
                proof {
                    lemma_view_parts(*value.unwrap());
                }
                let ghost all = member_views(members@);
                proof {
                    lemma_member_views(members@);
                }
                let mut out: Vec<(String, FormatterConfig)> = Vec::new();
                let mut i: usize = 0;
                while i < members.len()
                    invariant
                        i <= members@.len(),
                        all == member_views(members@),
                        all.len() == members@.len(),
                        opt_json(value) == Some(JsonView::Object(all)),
                        ok == |j: JsonView| FormatterConfig::readable(j),
                        is == |j: JsonView, t: FormatterConfig| FormatterConfig::reads(j, t),
                        out@.len() == i,
                        forall|k: int|
                            0 <= k < i ==> (#[trigger] out@[k]).0@ == all[k].0
                                && is(all[k].1, out@[k].1),
                    decreases members@.len() - i,
                {
                    proof {
                        lemma_member_views(members@);
                    }
                    match FormatterConfig::from_json(&members[i].1) {
                        Some(item) => {
                            out.push((members[i].0.clone(), item));
                        },
                        None => {
                            assert(!FormatterConfig::readable(all[i as int].1));
                            assert(opt_json(value) matches Some(JsonView::Object(m)) && m == all);
                            assert(!(|j: JsonView| FormatterConfig::readable(j))(all[i as int].1));
                            return None;
                        },
                    }
                    i += 1;
                }
                proof {
                    lemma_member_views(members@);
                }
                Some(Some(out))
            },
            Some(_) => None,
        }
    }
}

impl Timeout {
    /// How an optional timeout reads: missing or `null` is unset, a
    /// non-negative integer is that many milliseconds, `false` switches
    /// the timeout off, anything else is malformed.
    pub open spec fn decoded(value: Option<JsonView>) -> Option<Option<Timeout>> {
        match value {
            None => Some(None),
            Some(JsonView::Null) => Some(None),
            Some(JsonView::Number(NumberView::Unsigned(n))) => Some(Some(Timeout::Millis(n))),
            Some(JsonView::Bool(b)) => if b {
                None
            } else {
                Some(Some(Timeout::Disabled))
            },
            Some(_) => None,
        }
    }

    /// Reads an optional timeout.
    pub fn read_optional(value: Option<&JsonValue>) -> (r: Option<Option<Timeout>>)
        ensures
            r == Self::decoded(opt_json(value)),
    {
        match value {
            None => Some(None),
            Some(JsonValue::Null) => Some(None),
            Some(JsonValue::Number(JsonNumber::Unsigned(n))) => Some(Some(Timeout::Millis(*n))),
            Some(JsonValue::Bool(b)) => if *b {
                None
            } else {
                Some(Some(Timeout::Disabled))
            },
            Some(_) => None,
        }
    }
}

impl Tui {
    /// The scroll speed that the members give: two where none is given,
    /// else a non-negative integer of thirty-two bits.
    pub open spec fn speed(value: Option<JsonView>) -> Option<u32> {
        match value {
            None => Some(2),
            Some(JsonView::Number(NumberView::Unsigned(n))) => if n <= 0xffff_ffff {
                Some(n as u32)
            } else {
                None
            },
            Some(_) => None,
        }
    }

    /// Whether a JSON value reads as the settings of the terminal view.
    pub open spec fn readable(value: JsonView) -> bool {
        value matches JsonView::Object(members) && Self::speed(lookup(members, "scroll_speed"@))
            is Some
    }

    /// Whether `x` is what a JSON value reads as.
    pub open spec fn reads(value: JsonView, x: Tui) -> bool {
        value matches JsonView::Object(members) && Self::speed(lookup(members, "scroll_speed"@))
            == Some(x.scroll_speed)
    }

    /// Reads the settings of the terminal view.
    pub fn from_json(value: &JsonValue) -> (r: Option<Tui>)
        ensures
            match r {
                Some(x) => Self::reads(value@, x),
                None => !Self::readable(value@),
            },
    {
        proof {
            lemma_view_parts(*value);
        }
        match value {
            JsonValue::Object(members) => match find(members.as_slice(), "scroll_speed") {
                None => Some(Tui { scroll_speed: default_scroll_speed() }),
                Some(JsonValue::Number(JsonNumber::Unsigned(n))) => if *n <= 0xffff_ffff {
                    Some(Tui { scroll_speed: *n as u32 })
                } else {
                    None
                },
                Some(_) => None,
            },
            _ => None,
        }
    }
}

/// Whether the value of every member names a permission.
pub open spec fn all_kind_members(members: Seq<(Seq<char>, JsonView)>) -> bool {
    forall|i: int|
        0 <= i < members.len() ==> (#[trigger] members[i]).1 is String && PermissionKind::named(
            members[i].1->String_0,
        ) is Some
}

/// Whether an entry is what a member reads as: under its key, the
/// permission that its value names.
pub open spec fn kind_entry(member: (Seq<char>, JsonView), entry: (String, PermissionKind)) -> bool {
    entry.0@ == member.0 && member.1 is String && PermissionKind::named(member.1->String_0) == Some(
        entry.1,
    )
}

impl BashPermission {
    /// Whether a JSON value reads as a permission for the shell: the name
    /// of one permission, or an object whose values each name one.
    pub open spec fn readable(value: JsonView) -> bool {
        match value {
            JsonView::String(s) => PermissionKind::named(s) is Some,
            JsonView::Object(members) => all_kind_members(members),
            _ => false,
        }
    }

    /// Whether `x` is what a JSON value reads as: the one permission, or
    /// a permission for each member under its key.
    pub open spec fn reads(value: JsonView, x: BashPermission) -> bool {
        match value {
            JsonView::String(s) => x matches BashPermission::Single(k) && PermissionKind::named(s)
                == Some(k),
            JsonView::Object(members) => x matches BashPermission::Matrix(list) && list@.len()
                == members.len() && forall|i: int|
                0 <= i < members.len() ==> kind_entry(members[i], #[trigger] list@[i]),
            _ => false,
        }
    }

    /// Reads a permission for the shell.
    pub fn from_json(value: &JsonValue) -> (r: Option<BashPermission>)
        ensures
            match r {
                Some(x) => Self::reads(value@, x),
                None => !Self::readable(value@),
            },
    {
        proof {
            lemma_view_parts(*value);
        }
        match value {
            JsonValue::String(s) => match PermissionKind::from_name(s.as_str()) {
                Some(k) => Some(BashPermission::Single(k)),
                None => None,
            },
            JsonValue::Object(members) => {
                let ghost all = member_views(members@);
                proof {
                    lemma_member_views(members@);
                }
                let mut out: Vec<(String, PermissionKind)> = Vec::new();
                let mut i: usize = 0;
                while i < members.len()
                    invariant
                        i <= members@.len(),
                        all == member_views(members@),
                        all.len() == members@.len(),
                        value@ == JsonView::Object(all),
                        out@.len() == i,
                        forall|k: int| 0 <= k < i ==> kind_entry(all[k], #[trigger] out@[k]),
                    decreases members@.len() - i,
                {
                    proof {
                        lemma_member_views(members@);
                    }
                    match &members[i].1 {
                        JsonValue::String(s) => match PermissionKind::from_name(s.as_str()) {
                            Some(k) => {
                                assert(all[i as int].1 == JsonView::String(s@));
                                out.push((members[i].0.clone(), k));
                            },
                            None => {
                                assert(all[i as int].1 == JsonView::String(s@));
                                assert(!all_kind_members(all));
                                return None;
                            },
                        },
                        _ => {
                            assert(!(all[i as int].1 is String));
                            assert(!all_kind_members(all));
                            return None;
                        },
                    }
                    i += 1;
                }
                Some(BashPermission::Matrix(out))
            },
            _ => None,
        }
    }
}

impl McpConfig {
    /// Whether a JSON value reads as a server of the model context
    /// protocol: an object whose member `type` is `local` or `remote`, and
    /// which reads as a server of that kind.
    pub open spec fn readable(value: JsonView) -> bool {
        value matches JsonView::Object(members) && (lookup(members, "type"@) matches Some(
            JsonView::String(kind),
        ) && ((kind == "local"@ && LocalMcpConfig::readable(value)) || (kind == "remote"@
            && RemoteMcpConfig::readable(value))))
    }

    /// Whether `x` is what a JSON value reads as.
    pub open spec fn reads(value: JsonView, x: McpConfig) -> bool {
        value matches JsonView::Object(members) && (lookup(members, "type"@) matches Some(
            JsonView::String(kind),
        ) && match x {
            McpConfig::Local(local) => kind == "local"@ && LocalMcpConfig::reads(value, local),
            McpConfig::Remote(remote) => kind == "remote"@ && RemoteMcpConfig::reads(value, remote),
        })
    }

    /// Reads a server of the model context protocol.
    pub fn from_json(value: &JsonValue) -> (r: Option<McpConfig>)
        ensures
            match r {
                Some(x) => Self::reads(value@, x),
                None => !Self::readable(value@),
            },
    {
        proof {
            lemma_view_parts(*value);
            reveal_strlit("local");
            reveal_strlit("remote");
            assert("local"@.len() == 5 && "remote"@.len() == 6);
        }
        match value {
            JsonValue::Object(members) => match find(members.as_slice(), "type") {
                Some(JsonValue::String(kind)) => {
                    assert(lookup(member_views(members@), "type"@) == Some(JsonView::String(kind@)));
                    if same_text(kind.as_str(), "local") {
                        match LocalMcpConfig::from_json(value) {
                            Some(local) => {
                                let r = McpConfig::Local(local);
                                assert(Self::reads(value@, r));
                                Some(r)
                            },
                            None => {
                                assert(!Self::readable(value@));
                                None
                            },
                        }
                    } else if same_text(kind.as_str(), "remote") {
                        match RemoteMcpConfig::from_json(value) {
                            Some(remote) => {
                                let r = McpConfig::Remote(remote);
                                assert(Self::reads(value@, r));
                                Some(r)
                            },
                            None => {
                                assert(!Self::readable(value@));
                                None
                            },
                        }
                    } else {
                        assert(!Self::readable(value@));
                        None
                    }
                },
                _ => None,
            },
            _ => None,
        }
    }
}

impl LspDisabledConfig {
    /// Whether a JSON value reads as a switched-off language server: an
    /// object whose member `disabled`, where it has one, is a boolean.
    pub open spec fn readable(value: JsonView) -> bool {
        value matches JsonView::Object(members) && (lookup(members, "disabled"@) is None || lookup(
            members,
            "disabled"@,
        )->0 is Bool)
    }

    /// Whether `x` is what a JSON value reads as: the member `disabled`,
    /// or `false` where there is none.
    pub open spec fn reads(value: JsonView, x: LspDisabledConfig) -> bool {
        value matches JsonView::Object(members) && match lookup(members, "disabled"@) {
            None => !x.disabled,
            Some(JsonView::Bool(b)) => x.disabled == b,
            Some(_) => false,
        }
    }

    /// Reads a switched-off language server.
    pub fn from_json(value: &JsonValue) -> (r: Option<LspDisabledConfig>)
        ensures
            match r {
                Some(x) => Self::reads(value@, x),
                None => !Self::readable(value@),
            },
    {
        proof {
            lemma_view_parts(*value);
        }
        match value {
            JsonValue::Object(members) => match find(members.as_slice(), "disabled") {
                None => Some(LspDisabledConfig { disabled: false }),
                Some(JsonValue::Bool(b)) => Some(LspDisabledConfig { disabled: *b }),
                Some(_) => None,
            },
            _ => None,
        }
    }
}

impl LspConfig {
    /// Whether a JSON value reads as a language server: as a switched-off
    /// one or as a configured one.
    pub open spec fn readable(value: JsonView) -> bool {
        LspDisabledConfig::readable(value) || LspServerConfig::readable(value)
    }

    /// Whether `x` is what a JSON value reads as: the switched-off form
    /// where the value reads so, the configured form otherwise.
    pub open spec fn reads(value: JsonView, x: LspConfig) -> bool {
        if LspDisabledConfig::readable(value) {
            x matches LspConfig::Disabled(d) && LspDisabledConfig::reads(value, d)
        } else {
            x matches LspConfig::Configurable(c) && LspServerConfig::reads(value, c)
        }
    }

    /// Reads a language server.
    pub fn from_json(value: &JsonValue) -> (r: Option<LspConfig>)
        ensures
            match r {
                Some(x) => Self::reads(value@, x),
                None => !Self::readable(value@),
            },
    {
        match LspDisabledConfig::from_json(value) {
            Some(d) => Some(LspConfig::Disabled(d)),
            None => match LspServerConfig::from_json(value) {
                Some(c) => Some(LspConfig::Configurable(c)),
                None => None,
            },
        }
    }
}

impl HookCommand {
    /// Whether a JSON value reads as a list of hook commands.
    pub open spec fn list_readable(value: JsonView) -> bool {
        value matches JsonView::Array(items) && forall|i: int|
            0 <= i < items.len() ==> HookCommand::readable(#[trigger] items[i])
    }

    /// Whether `x` is what a JSON value reads as: a command for each
    /// item, in order.
    pub open spec fn list_reads(value: JsonView, x: Vec<HookCommand>) -> bool {
        value matches JsonView::Array(items) && x@.len() == items.len() && forall|i: int|
            0 <= i < items.len() ==> HookCommand::reads(items[i], #[trigger] x@[i])
    }

    /// Reads a list of hook commands.
    pub fn read_list(value: &JsonValue) -> (r: Option<Vec<HookCommand>>)
        ensures
            match r {
                Some(x) => Self::list_reads(value@, x),
                None => !Self::list_readable(value@),
            },
    {
        proof {
            lemma_view_parts(*value);
        }
        match value {
            JsonValue::Array(items) => {
                let ghost all = item_views(items@);
                proof {
                    lemma_item_views(items@);
                }
                let mut out: Vec<HookCommand> = Vec::new();
                let mut i: usize = 0;
                while i < items.len()
                    invariant
                        i <= items@.len(),
                        all == item_views(items@),
                        all.len() == items@.len(),
                        value@ == JsonView::Array(all),
                        out@.len() == i,
                        forall|k: int| 0 <= k < i ==> HookCommand::reads(all[k], #[trigger] out@[k]),
                    decreases items@.len() - i,
                {
                    proof {
                        lemma_item_views(items@);
                    }
                    match HookCommand::from_json(&items[i]) {
                        Some(command) => {
                            out.push(command);
                        },
                        None => {
                            assert(!HookCommand::readable(all[i as int]));
                            assert(value@ is Array);
                            assert(value@->Array_0 == all);
                            assert(!(forall|q: int|
                                0 <= q < all.len() ==> HookCommand::readable(#[trigger] all[q])));
                            return None;
                        },
                    }
                    i += 1;
                }
                Some(out)
            },
            _ => None,
        }
    }

    /// Whether an optional list of hook commands is readable.
    pub open spec fn optional_list_ok(value: Option<JsonView>) -> bool {
        optional_ok(value, |j: JsonView| HookCommand::list_readable(j))
    }

    /// Whether `x` is what an optional list of hook commands reads as.
    pub open spec fn optional_list_is(value: Option<JsonView>, x: Option<Vec<HookCommand>>) -> bool {
        optional_is(value, x, |j: JsonView, t: Vec<HookCommand>| HookCommand::list_reads(j, t))
    }

    /// Reads an optional list of hook commands.
    pub fn read_optional_list(value: Option<&JsonValue>) -> (r: Option<Option<Vec<HookCommand>>>)
        ensures
            match r {
                Some(x) => Self::optional_list_is(opt_json(value), x),
                None => !Self::optional_list_ok(opt_json(value)),
            },
    {
        match value {
            None => Some(None),
            Some(JsonValue::Null) => Some(None),
            Some(v) => match HookCommand::read_list(v) {
                Some(x) => Some(Some(x)),
                None => None,
            },
        }
    }

    /// Whether an optional map to lists of hook commands is readable.
    pub open spec fn optional_list_map_ok(value: Option<JsonView>) -> bool {
        optional_map_ok(value, |j: JsonView| HookCommand::list_readable(j))
    }

    /// Whether `x` is what an optional map to lists of hook commands
    /// reads as.
    pub open spec fn optional_list_map_is(
        value: Option<JsonView>,
        x: Option<Vec<(String, Vec<HookCommand>)>>,
    ) -> bool {
        optional_map_is(value, x, |j: JsonView, t: Vec<HookCommand>| HookCommand::list_reads(j, t))
    }

    /// Reads an optional map to lists of hook commands.
    pub fn read_optional_list_map(value: Option<&JsonValue>) -> (r: Option<
        Option<Vec<(String, Vec<HookCommand>)>>,
    >)
        ensures
            match r {
                Some(x) => Self::optional_list_map_is(opt_json(value), x),
                None => !Self::optional_list_map_ok(opt_json(value)),
            },
    {
        match value {
            None => Some(None),
            Some(JsonValue::Null) => Some(None),
            Some(JsonValue::Object(members)) => {
                proof {
                    lemma_view_parts(*value.unwrap());
                }
                let ghost all = member_views(members@);
                proof {
                    lemma_member_views(members@);
                }
                let mut out: Vec<(String, Vec<HookCommand>)> = Vec::new();
                let mut i: usize = 0;
                while i < members.len()
                    invariant
                        i <= members@.len(),
                        all == member_views(members@),
                        all.len() == members@.len(),
                        opt_json(value) == Some(JsonView::Object(all)),
                        out@.len() == i,
                        forall|k: int|
                            0 <= k < i ==> (#[trigger] out@[k]).0@ == all[k].0
                                && HookCommand::list_reads(all[k].1, out@[k].1),
                    decreases members@.len() - i,
                {
                    proof {
                        lemma_member_views(members@);
                    }
                    match HookCommand::read_list(&members[i].1) {
                        Some(list) => {
                            out.push((members[i].0.clone(), list));
                        },
                        None => {
                            assert(!HookCommand::list_readable(all[i as int].1));
                            assert(opt_json(value) matches Some(JsonView::Object(m)) && m == all);
                            assert(!(|j: JsonView| HookCommand::list_readable(j))(all[i as int].1));
                            assert(!optional_map_ok(
                                opt_json(value),
                                |j: JsonView| HookCommand::list_readable(j),
                            ));
                            return None;
                        },
                    }
                    i += 1;
                }
                Some(Some(out))
            },
            Some(_) => None,
        }
    }
}


impl PermissionMatrix {
    /// Whether a JSON value reads as a value of this type: it is an
    /// object, and each member that the type knows has the form that its
    /// field asks for. Members that the type does not know are ignored.
    pub open spec fn readable(value: JsonView) -> bool {
        value matches JsonView::Object(members) && {
            &&& PermissionKind::decoded(lookup(members, "edit"@)) is Some
            &&& optional_ok(lookup(members, "bash"@), |j: JsonView| BashPermission::readable(j))
            &&& PermissionKind::decoded(lookup(members, "webfetch"@)) is Some
        }
    }

    /// Whether `x` is what a JSON value reads as: field by field, what the
    /// member of its name holds.
    pub open spec fn reads(value: JsonView, x: PermissionMatrix) -> bool {
        value matches JsonView::Object(members) && {
            &&& PermissionKind::decoded(lookup(members, "edit"@)) == Some(x.edit)
            &&& optional_is(
                lookup(members, "bash"@),
                x.bash,
                |j: JsonView,
                t: BashPermission| BashPermission::reads(j, t),
            )
            &&& PermissionKind::decoded(lookup(members, "webfetch"@)) == Some(x.webfetch)
        }
    }

    /// Reads a value of this type from a JSON value.
    pub fn from_json(value: &JsonValue) -> (r: Option<PermissionMatrix>)
        ensures
            match r {
                Some(x) => Self::reads(value@, x),
                None => !Self::readable(value@),
            },
    {
        proof {
            lemma_view_parts(*value);
        }
        match value {
            JsonValue::Object(members) => {
                let m = members.as_slice();
                let edit = match PermissionKind::read_optional(find(m, "edit")) {
                    Some(v) => v,
                    None => {
                        return None;
                    },
                };
                let bash = match BashPermission::read_optional(find(m, "bash")) {
                    Some(v) => v,
                    None => {
                        return None;
                    },
                };
                let webfetch = match PermissionKind::read_optional(find(m, "webfetch")) {
                    Some(v) => v,
                    None => {
                        return None;
                    },
                };
                Some(PermissionMatrix {
                    edit,
                    bash,
                    webfetch,
                })
            },
            _ => None,
        }
    }
}

impl PermissionMatrix {
    /// Reads an optional value of this type: nothing where the member is
    /// missing or `null`.
    pub fn read_optional(value: Option<&JsonValue>) -> (r: Option<Option<PermissionMatrix>>)
        ensures
            match r {
                Some(x) => optional_is(
                    opt_json(value),
                    x,
                    |j: JsonView,
                    t: PermissionMatrix| PermissionMatrix::reads(j, t),
                ),
                None => !optional_ok(opt_json(value), |j: JsonView| PermissionMatrix::readable(j)),
            },
    {
        match value {
            None => Some(None),
            Some(JsonValue::Null) => Some(None),
            Some(v) => match PermissionMatrix::from_json(v) {
                Some(x) => Some(Some(x)),
                None => None,
            },
        }
    }
}

impl ProviderOptions {
    /// Whether a JSON value reads as a value of this type: it is an
    /// object, and each member that the type knows has the form that its
    /// field asks for. Members that the type does not know are ignored.
    pub open spec fn readable(value: JsonView) -> bool {
        value matches JsonView::Object(members) && {
            &&& optional_text(lookup(members, "apiKey"@)) is Some
            &&& optional_text(lookup(members, "baseURL"@)) is Some
            &&& Timeout::decoded(lookup(members, "timeout"@)) is Some
        }
    }

    /// Whether `x` is what a JSON value reads as: field by field, what the
    /// member of its name holds.
    pub open spec fn reads(value: JsonView, x: ProviderOptions) -> bool {
        value matches JsonView::Object(members) && {
            &&& optional_text(lookup(members, "apiKey"@)) == Some(opt_text(x.api_key))
            &&& optional_text(lookup(members, "baseURL"@)) == Some(opt_text(x.base_url))
            &&& Timeout::decoded(lookup(members, "timeout"@)) == Some(x.timeout)
            &&& member_views(x.extra@) == others(members, seq!["apiKey"@, "baseURL"@, "timeout"@])
        }
    }

    /// Reads a value of this type from a JSON value.
    pub fn from_json(value: &JsonValue) -> (r: Option<ProviderOptions>)
        ensures
            match r {
                Some(x) => Self::reads(value@, x),
                None => !Self::readable(value@),
            },
    {
        proof {
            lemma_view_parts(*value);
        }
        match value {
            JsonValue::Object(members) => {
                let m = members.as_slice();
                let api_key = match read_optional_text(find(m, "apiKey")) {
                    Some(v) => v,
                    None => {
                        return None;
                    },
                };
                let base_url = match read_optional_text(find(m, "baseURL")) {
                    Some(v) => v,
                    None => {
                        return None;
                    },
                };
                let timeout = match Timeout::read_optional(find(m, "timeout")) {
                    Some(v) => v,
                    None => {
                        return None;
                    },
                };
                let known = ["apiKey", "baseURL", "timeout"];
                let extra = read_rest(m, known.as_slice());
                proof {
                    assert(known@.map_values(|k: &str| k@) =~= seq![
                        "apiKey"@,
                        "baseURL"@,
                        "timeout"@,
                    ]);
                }
                Some(ProviderOptions {
                    api_key,
                    base_url,
                    timeout,
                    extra,
                })
            },
            _ => None,
        }
    }
}

impl ProviderOptions {
    /// Reads an optional value of this type: nothing where the member is
    /// missing or `null`.
    pub fn read_optional(value: Option<&JsonValue>) -> (r: Option<Option<ProviderOptions>>)
        ensures
            match r {
                Some(x) => optional_is(
                    opt_json(value),
                    x,
                    |j: JsonView,
                    t: ProviderOptions| ProviderOptions::reads(j, t),
                ),
                None => !optional_ok(opt_json(value), |j: JsonView| ProviderOptions::readable(j)),
            },
    {
        match value {
            None => Some(None),
            Some(JsonValue::Null) => Some(None),
            Some(v) => match ProviderOptions::from_json(v) {
                Some(x) => Some(Some(x)),
                None => None,
            },
        }
    }
}

impl ProviderConfig {
    /// Whether a JSON value reads as a value of this type: it is an
    /// object, and each member that the type knows has the form that its
    /// field asks for. Members that the type does not know are ignored.
    pub open spec fn readable(value: JsonView) -> bool {
        value matches JsonView::Object(members) && {
            &&& optional_raw_map(lookup(members, "models"@)) is Some
            &&& optional_ok(lookup(members, "options"@), |j: JsonView| ProviderOptions::readable(j))
        }
    }

    /// Whether `x` is what a JSON value reads as: field by field, what the
    /// member of its name holds.
    pub open spec fn reads(value: JsonView, x: ProviderConfig) -> bool {
        value matches JsonView::Object(members) && {
            &&& optional_raw_map(lookup(members, "models"@)) == Some(opt_members(x.models))
            &&& optional_is(
                lookup(members, "options"@),
                x.options,
                |j: JsonView,
                t: ProviderOptions| ProviderOptions::reads(j, t),
            )
            &&& member_views(x.extra@) == others(members, seq!["models"@, "options"@])
        }
    }

    /// Reads a value of this type from a JSON value.
    pub fn from_json(value: &JsonValue) -> (r: Option<ProviderConfig>)
        ensures
            match r {
                Some(x) => Self::reads(value@, x),
                None => !Self::readable(value@),
            },
    {
        proof {
            lemma_view_parts(*value);
        }
        match value {
            JsonValue::Object(members) => {
                let m = members.as_slice();
                let models = match read_optional_raw_map(find(m, "models")) {
                    Some(v) => v,
                    None => {
                        return None;
                    },
                };
                let options = match ProviderOptions::read_optional(find(m, "options")) {
                    Some(v) => v,
                    None => {
                        return None;
                    },
                };
                let known = ["models", "options"];
                let extra = read_rest(m, known.as_slice());
                proof {
                    assert(known@.map_values(|k: &str| k@) =~= seq!["models"@, "options"@]);
                }
                Some(ProviderConfig {
                    models,
                    options,
                    extra,
                })
            },
            _ => None,
        }
    }
}

impl ProviderConfig {
    /// Reads an optional map to values of this type, in the order of the
    /// object's members: nothing where the member is missing or `null`.
    pub fn read_optional_map(value: Option<&JsonValue>) -> (r: Option<
        Option<Vec<(String, ProviderConfig)>>,
    >)
        ensures
            match r {
                Some(x) => optional_map_is(
                    opt_json(value),
                    x,
                    |j: JsonView,
                    t: ProviderConfig| ProviderConfig::reads(j, t),
                ),
                None => !optional_map_ok(
                    opt_json(value),
                    |j: JsonView| ProviderConfig::readable(j),
                ),
            },
    {
        let ghost ok = |j: JsonView| ProviderConfig::readable(j);
        let ghost is = |j: JsonView, t: ProviderConfig| ProviderConfig::reads(j, t);
        match value {
            None => Some(None),
            Some(JsonValue::Null) => Some(None),
            Some(JsonValue::Object(members)) => {
                proof {
                    lemma_view_parts(*value.unwrap());
                }
                let ghost all = member_views(members@);
                proof {
                    lemma_member_views(members@);
                }
                let mut out: Vec<(String, ProviderConfig)> = Vec::new();
                let mut i: usize = 0;
                while i < members.len()
                    invariant
                        i <= members@.len(),
                        all == member_views(members@),
                        all.len() == members@.len(),
                        opt_json(value) == Some(JsonView::Object(all)),
                        ok == |j: JsonView| ProviderConfig::readable(j),
                        is == |j: JsonView, t: ProviderConfig| ProviderConfig::reads(j, t),
                        out@.len() == i,
                        forall|k: int|
                            0 <= k < i ==> (#[trigger] out@[k]).0@ == all[k].0
                                && is(all[k].1, out@[k].1),
                    decreases members@.len() - i,
                {
                    proof {
                        lemma_member_views(members@);
                    }
                    match ProviderConfig::from_json(&members[i].1) {
                        Some(item) => {
                            out.push((members[i].0.clone(), item));
                        },
                        None => {
                            assert(!ProviderConfig::readable(all[i as int].1));
                            assert(opt_json(value) matches Some(JsonView::Object(m)) && m == all);
                            assert(!(|j: JsonView| ProviderConfig::readable(j))(all[i as int].1));
                            return None;
                        },
                    }
                    i += 1;
                }
                proof {
                    lemma_member_views(members@);
                }
                Some(Some(out))
            },
            Some(_) => None,
        }
    }
}

impl AgentConfig {
    /// Whether a JSON value reads as a value of this type: it is an
    /// object, and each member that the type knows has the form that its
    /// field asks for. Members that the type does not know are ignored.
    pub open spec fn readable(value: JsonView) -> bool {
        value matches JsonView::Object(members) && {
            &&& optional_text(lookup(members, "model"@)) is Some
            &&& optional_number(lookup(members, "temperature"@)) is Some
            &&& optional_number(lookup(members, "top_p"@)) is Some
            &&& optional_text(lookup(members, "prompt"@)) is Some
            &&& optional_bool_map(lookup(members, "tools"@)) is Some
            &&& optional_bool(lookup(members, "disable"@)) is Some
            &&& optional_text(lookup(members, "description"@)) is Some
            &&& AgentMode::decoded(lookup(members, "mode"@)) is Some
            &&& optional_ok(
                lookup(members, "permission"@),
                |j: JsonView| PermissionMatrix::readable(j),
            )
        }
    }

    /// Whether `x` is what a JSON value reads as: field by field, what the
    /// member of its name holds.
    pub open spec fn reads(value: JsonView, x: AgentConfig) -> bool {
        value matches JsonView::Object(members) && {
            &&& optional_text(lookup(members, "model"@)) == Some(opt_text(x.model))
            &&& optional_number(lookup(members, "temperature"@)) == Some(
                opt_number_view(x.temperature),
            )
            &&& optional_number(lookup(members, "top_p"@)) == Some(opt_number_view(x.top_p))
            &&& optional_text(lookup(members, "prompt"@)) == Some(opt_text(x.prompt))
            &&& optional_bool_map(lookup(members, "tools"@)) == Some(opt_switches(x.tools))
            &&& optional_bool(lookup(members, "disable"@)) == Some(x.disable)
            &&& optional_text(lookup(members, "description"@)) == Some(opt_text(x.description))
            &&& AgentMode::decoded(lookup(members, "mode"@)) == Some(x.mode)
            &&& optional_is(
                lookup(members, "permission"@),
                x.permission,
                |j: JsonView,
                t: PermissionMatrix| PermissionMatrix::reads(j, t),
            )
            &&& member_views(x.extra@) == others(
                members,
                seq![
                    "model"@,
                    "temperature"@,
                    "top_p"@,
                    "prompt"@,
                    "tools"@,
                    "disable"@,
                    "description"@,
                    "mode"@,
                    "permission"@,
                ],
            )
        }
    }

    /// Reads a value of this type from a JSON value.
    pub fn from_json(value: &JsonValue) -> (r: Option<AgentConfig>)
        ensures
            match r {
                Some(x) => Self::reads(value@, x),
                None => !Self::readable(value@),
            },
    {
        proof {
            lemma_view_parts(*value);
        }
        match value {
            JsonValue::Object(members) => {
                let m = members.as_slice();
                let model = match read_optional_text(find(m, "model")) {
                    Some(v) => v,
                    None => {
                        return None;
                    },
                };
                let temperature = match read_optional_number(find(m, "temperature")) {
                    Some(v) => v,
                    None => {
                        return None;
                    },
                };
                let top_p = match read_optional_number(find(m, "top_p")) {
                    Some(v) => v,
                    None => {
                        return None;
                    },
                };
                let prompt = match read_optional_text(find(m, "prompt")) {
                    Some(v) => v,
                    None => {
                        return None;
                    },
                };
                let tools = match read_optional_bool_map(find(m, "tools")) {
                    Some(v) => v,
                    None => {
                        return None;
                    },
                };
                let disable = match read_optional_bool(find(m, "disable")) {
                    Some(v) => v,
                    None => {
                        return None;
                    },
                };
                let description = match read_optional_text(find(m, "description")) {
                    Some(v) => v,
                    None => {
                        return None;
                    },
                };
                let mode = match AgentMode::read_optional(find(m, "mode")) {
                    Some(v) => v,
                    None => {
                        return None;
                    },
                };
                let permission = match PermissionMatrix::read_optional(find(m, "permission")) {
                    Some(v) => v,
                    None => {
                        return None;
                    },
                };
                let known = [
                    "model",
                    "temperature",
                    "top_p",
                    "prompt",
                    "tools",
                    "disable",
                    "description",
                    "mode",
                    "permission",
                ];
                let extra = read_rest(m, known.as_slice());
                proof {
                    assert(known@.map_values(|k: &str| k@) =~= seq![
                        "model"@,
                        "temperature"@,
                        "top_p"@,
                        "prompt"@,
                        "tools"@,
                        "disable"@,
                        "description"@,
                        "mode"@,
                        "permission"@,
                    ]);
                }
                Some(AgentConfig {
                    model,
                    temperature,
                    top_p,
                    prompt,
                    tools,
                    disable,
                    description,
                    mode,
                    permission,
                    extra,
                })
            },
            _ => None,
        }
    }
}

impl AgentConfig {
    /// Reads an optional map to values of this type, in the order of the
    /// object's members: nothing where the member is missing or `null`.
    pub fn read_optional_map(value: Option<&JsonValue>) -> (r: Option<
        Option<Vec<(String, AgentConfig)>>,
    >)
        ensures
            match r {
                Some(x) => optional_map_is(
                    opt_json(value),
                    x,
                    |j: JsonView,
                    t: AgentConfig| AgentConfig::reads(j, t),
                ),
                None => !optional_map_ok(
                    opt_json(value),
                    |j: JsonView| AgentConfig::readable(j),
                ),
            },
    {
        let ghost ok = |j: JsonView| AgentConfig::readable(j);
        let ghost is = |j: JsonView, t: AgentConfig| AgentConfig::reads(j, t);
        match value {
            None => Some(None),
            Some(JsonValue::Null) => Some(None),
            Some(JsonValue::Object(members)) => {
                proof {
                    lemma_view_parts(*value.unwrap());
                }
                let ghost all = member_views(members@);
                proof {
                    lemma_member_views(members@);
                }
                let mut out: Vec<(String, AgentConfig)> = Vec::new();
                let mut i: usize = 0;
                while i < members.len()
                    invariant
                        i <= members@.len(),
                        all == member_views(members@),
                        all.len() == members@.len(),
                        opt_json(value) == Some(JsonView::Object(all)),
                        ok == |j: JsonView| AgentConfig::readable(j),
                        is == |j: JsonView, t: AgentConfig| AgentConfig::reads(j, t),
                        out@.len() == i,
                        forall|k: int|
                            0 <= k < i ==> (#[trigger] out@[k]).0@ == all[k].0
                                && is(all[k].1, out@[k].1),
                    decreases members@.len() - i,
                {
                    proof {
                        lemma_member_views(members@);
                    }
                    match AgentConfig::from_json(&members[i].1) {
                        Some(item) => {
                            out.push((members[i].0.clone(), item));
                        },
                        None => {
                            assert(!AgentConfig::readable(all[i as int].1));
                            assert(opt_json(value) matches Some(JsonView::Object(m)) && m == all);
                            assert(!(|j: JsonView| AgentConfig::readable(j))(all[i as int].1));
                            return None;
                        },
                    }
                    i += 1;
                }
                proof {
                    lemma_member_views(members@);
                }
                Some(Some(out))
            },
            Some(_) => None,
        }
    }
}

impl McpConfig {
    /// Reads an optional map to values of this type, in the order of the
    /// object's members: nothing where the member is missing or `null`.
    pub fn read_optional_map(value: Option<&JsonValue>) -> (r: Option<
        Option<Vec<(String, McpConfig)>>,
    >)
        ensures
            match r {
                Some(x) => optional_map_is(
                    opt_json(value),
                    x,
                    |j: JsonView,
                    t: McpConfig| McpConfig::reads(j, t),
                ),
                None => !optional_map_ok(
                    opt_json(value),
                    |j: JsonView| McpConfig::readable(j),
                ),
            },
    {
        let ghost ok = |j: JsonView| McpConfig::readable(j);
        let ghost is = |j: JsonView, t: McpConfig| McpConfig::reads(j, t);
        match value {
            None => Some(None),
            Some(JsonValue::Null) => Some(None),
            Some(JsonValue::Object(members)) => {
                proof {
                    lemma_view_parts(*value.unwrap());
                }
                let ghost all = member_views(members@);
                proof {
                    lemma_member_views(members@);
                }
                let mut out: Vec<(String, McpConfig)> = Vec::new();
                let mut i: usize = 0;
                while i < members.len()
                    invariant
                        i <= members@.len(),
                        all == member_views(members@),
                        all.len() == members@.len(),
                        opt_json(value) == Some(JsonView::Object(all)),
                        ok == |j: JsonView| McpConfig::readable(j),
                        is == |j: JsonView, t: McpConfig| McpConfig::reads(j, t),
                        out@.len() == i,
                        forall|k: int|
                            0 <= k < i ==> (#[trigger] out@[k]).0@ == all[k].0
                                && is(all[k].1, out@[k].1),
                    decreases members@.len() - i,
                {
                    proof {
                        lemma_member_views(members@);
                    }
                    match McpConfig::from_json(&members[i].1) {
                        Some(item) => {
                            out.push((members[i].0.clone(), item));
                        },
                        None => {
                            assert(!McpConfig::readable(all[i as int].1));
                            assert(opt_json(value) matches Some(JsonView::Object(m)) && m == all);
                            assert(!(|j: JsonView| McpConfig::readable(j))(all[i as int].1));
                            return None;
                        },
                    }
                    i += 1;
                }
                proof {
                    lemma_member_views(members@);
                }
                Some(Some(out))
            },
            Some(_) => None,
        }
    }
}

impl LspConfig {
    /// Reads an optional map to values of this type, in the order of the
    /// object's members: nothing where the member is missing or `null`.
    pub fn read_optional_map(value: Option<&JsonValue>) -> (r: Option<
        Option<Vec<(String, LspConfig)>>,
    >)
        ensures
            match r {
                Some(x) => optional_map_is(
                    opt_json(value),
                    x,
                    |j: JsonView,
                    t: LspConfig| LspConfig::reads(j, t),
                ),
                None => !optional_map_ok(
                    opt_json(value),
                    |j: JsonView| LspConfig::readable(j),
                ),
            },
    {
        let ghost ok = |j: JsonView| LspConfig::readable(j);
        let ghost is = |j: JsonView, t: LspConfig| LspConfig::reads(j, t);
        match value {
            None => Some(None),
            Some(JsonValue::Null) => Some(None),
            Some(JsonValue::Object(members)) => {
                proof {
                    lemma_view_parts(*value.unwrap());
                }
                let ghost all = member_views(members@);
                proof {
                    lemma_member_views(members@);
                }
                let mut out: Vec<(String, LspConfig)> = Vec::new();
                let mut i: usize = 0;
                while i < members.len()
                    invariant
                        i <= members@.len(),
                        all == member_views(members@),
                        all.len() == members@.len(),
                        opt_json(value) == Some(JsonView::Object(all)),
                        ok == |j: JsonView| LspConfig::readable(j),
                        is == |j: JsonView, t: LspConfig| LspConfig::reads(j, t),
                        out@.len() == i,
                        forall|k: int|
                            0 <= k < i ==> (#[trigger] out@[k]).0@ == all[k].0
                                && is(all[k].1, out@[k].1),
                    decreases members@.len() - i,
                {
                    proof {
                        lemma_member_views(members@);
                    }
                    match LspConfig::from_json(&members[i].1) {
                        Some(item) => {
                            out.push((members[i].0.clone(), item));
                        },
                        None => {
                            assert(!LspConfig::readable(all[i as int].1));
                            assert(opt_json(value) matches Some(JsonView::Object(m)) && m == all);
                            assert(!(|j: JsonView| LspConfig::readable(j))(all[i as int].1));
                            return None;
                        },
                    }
                    i += 1;
                }
                proof {
                    lemma_member_views(members@);
                }
                Some(Some(out))
            },
            Some(_) => None,
        }
    }
}

impl Tui {
    /// Reads an optional value of this type: nothing where the member is
    /// missing or `null`.
    pub fn read_optional(value: Option<&JsonValue>) -> (r: Option<Option<Tui>>)
        ensures
            match r {
                Some(x) => optional_is(opt_json(value), x, |j: JsonView, t: Tui| Tui::reads(j, t)),
                None => !optional_ok(opt_json(value), |j: JsonView| Tui::readable(j)),
            },
    {
        match value {
            None => Some(None),
            Some(JsonValue::Null) => Some(None),
            Some(v) => match Tui::from_json(v) {
                Some(x) => Some(Some(x)),
                None => None,
            },
        }
    }
}

impl BashPermission {
    /// Reads an optional value of this type: nothing where the member is
    /// missing or `null`.
    pub fn read_optional(value: Option<&JsonValue>) -> (r: Option<Option<BashPermission>>)
        ensures
            match r {
                Some(x) => optional_is(
                    opt_json(value),
                    x,
                    |j: JsonView,
                    t: BashPermission| BashPermission::reads(j, t),
                ),
                None => !optional_ok(opt_json(value), |j: JsonView| BashPermission::readable(j)),
            },
    {
        match value {
            None => Some(None),
            Some(JsonValue::Null) => Some(None),
            Some(v) => match BashPermission::from_json(v) {
                Some(x) => Some(Some(x)),
                None => None,
            },
        }
    }
}

impl HookConfig {
    /// Whether a JSON value reads as a value of this type: it is an
    /// object, and each member that the type knows has the form that its
    /// field asks for. Members that the type does not know are ignored.
    pub open spec fn readable(value: JsonView) -> bool {
        value matches JsonView::Object(members) && {
            &&& HookCommand::optional_list_map_ok(lookup(members, "file_edited"@))
            &&& HookCommand::optional_list_ok(lookup(members, "session_completed"@))
        }
    }

    /// Whether `x` is what a JSON value reads as: field by field, what the
    /// member of its name holds.
    pub open spec fn reads(value: JsonView, x: HookConfig) -> bool {
        value matches JsonView::Object(members) && {
            &&& HookCommand::optional_list_map_is(lookup(members, "file_edited"@), x.file_edited)
            &&& HookCommand::optional_list_is(
                lookup(members, "session_completed"@),
                x.session_completed,
            )
        }
    }

    /// Reads a value of this type from a JSON value.
    pub fn from_json(value: &JsonValue) -> (r: Option<HookConfig>)
        ensures
            match r {
                Some(x) => Self::reads(value@, x),
                None => !Self::readable(value@),
            },
    {
        proof {
            lemma_view_parts(*value);
        }
        match value {
            JsonValue::Object(members) => {
                let m = members.as_slice();
                let file_edited = match HookCommand::read_optional_list_map(find(m, "file_edited")) {
                    Some(v) => v,
                    None => {
                        return None;
                    },
                };
                let session_completed = match HookCommand::read_optional_list(find(m, "session_completed")) {
                    Some(v) => v,
                    None => {
                        return None;
                    },
                };
                Some(HookConfig {
                    file_edited,
                    session_completed,
                })
            },
            _ => None,
        }
    }
}

impl HookConfig {
    /// Reads an optional value of this type: nothing where the member is
    /// missing or `null`.
    pub fn read_optional(value: Option<&JsonValue>) -> (r: Option<Option<HookConfig>>)
        ensures
            match r {
                Some(x) => optional_is(
                    opt_json(value),
                    x,
                    |j: JsonView,
                    t: HookConfig| HookConfig::reads(j, t),
                ),
                None => !optional_ok(opt_json(value), |j: JsonView| HookConfig::readable(j)),
            },
    {
        match value {
            None => Some(None),
            Some(JsonValue::Null) => Some(None),
            Some(v) => match HookConfig::from_json(v) {
                Some(x) => Some(Some(x)),
                None => None,
            },
        }
    }
}

impl ExperimentalConfig {
    /// Whether a JSON value reads as a value of this type: it is an
    /// object, and each member that the type knows has the form that its
    /// field asks for. Members that the type does not know are ignored.
    pub open spec fn readable(value: JsonView) -> bool {
        value matches JsonView::Object(members) && {
            &&& optional_ok(lookup(members, "hook"@), |j: JsonView| HookConfig::readable(j))
            &&& optional_bool(lookup(members, "disable_paste_summary"@)) is Some
        }
    }

    /// Whether `x` is what a JSON value reads as: field by field, what the
    /// member of its name holds.
    pub open spec fn reads(value: JsonView, x: ExperimentalConfig) -> bool {
        value matches JsonView::Object(members) && {
            &&& optional_is(
                lookup(members, "hook"@),
                x.hook,
                |j: JsonView,
                t: HookConfig| HookConfig::reads(j, t),
            )
            &&& optional_bool(lookup(members, "disable_paste_summary"@)) == Some(
                x.disable_paste_summary,
            )
        }
    }

    /// Reads a value of this type from a JSON value.
    pub fn from_json(value: &JsonValue) -> (r: Option<ExperimentalConfig>)
        ensures
            match r {
                Some(x) => Self::reads(value@, x),
                None => !Self::readable(value@),
            },
    {
        proof {
            lemma_view_parts(*value);
        }
        match value {
            JsonValue::Object(members) => {
                let m = members.as_slice();
                let hook = match HookConfig::read_optional(find(m, "hook")) {
                    Some(v) => v,
                    None => {
                        return None;
                    },
                };
                let disable_paste_summary = match read_optional_bool(
                    find(m, "disable_paste_summary"),
                ) {
                    Some(v) => v,
                    None => {
                        return None;
                    },
                };
                Some(ExperimentalConfig {
                    hook,
                    disable_paste_summary,
                })
            },
            _ => None,
        }
    }
}

impl ExperimentalConfig {
    /// Reads an optional value of this type: nothing where the member is
    /// missing or `null`.
    pub fn read_optional(value: Option<&JsonValue>) -> (r: Option<Option<ExperimentalConfig>>)
        ensures
            match r {
                Some(x) => optional_is(
                    opt_json(value),
                    x,
                    |j: JsonView,
                    t: ExperimentalConfig| ExperimentalConfig::reads(j, t),
                ),
                None => !optional_ok(opt_json(value), |j: JsonView| ExperimentalConfig::readable(j)),
            },
    {
        match value {
            None => Some(None),
            Some(JsonValue::Null) => Some(None),
            Some(v) => match ExperimentalConfig::from_json(v) {
                Some(x) => Some(Some(x)),
                None => None,
            },
        }
    }
}

impl Info {
    /// Whether a JSON value reads as a value of this type: it is an
    /// object, and each member that the type knows has the form that its
    /// field asks for. Members that the type does not know are ignored.
    pub open spec fn readable(value: JsonView) -> bool {
        value matches JsonView::Object(members) && {
            &&& optional_text(lookup(members, "$schema"@)) is Some
            &&& optional_text(lookup(members, "theme"@)) is Some
            &&& optional_ok(lookup(members, "keybinds"@), |j: JsonView| Keybinds::readable(j))
            &&& optional_ok(lookup(members, "tui"@), |j: JsonView| Tui::readable(j))
            &&& optional_map_ok(lookup(members, "command"@), |j: JsonView| Command::readable(j))
            &&& optional_ok(lookup(members, "watcher"@), |j: JsonView| WatcherSettings::readable(j))
            &&& optional_texts(lookup(members, "plugin"@)) is Some
            &&& optional_bool(lookup(members, "snapshot"@)) is Some
            &&& ShareMode::decoded(lookup(members, "share"@)) is Some
            &&& optional_bool(lookup(members, "autoshare"@)) is Some
            &&& optional_bool(lookup(members, "autoupdate"@)) is Some
            &&& optional_texts(lookup(members, "disabled_providers"@)) is Some
            &&& optional_text(lookup(members, "model"@)) is Some
            &&& optional_text(lookup(members, "small_model"@)) is Some
            &&& optional_text(lookup(members, "username"@)) is Some
            &&& optional_map_ok(lookup(members, "mode"@), |j: JsonView| AgentConfig::readable(j))
            &&& optional_map_ok(lookup(members, "agent"@), |j: JsonView| AgentConfig::readable(j))
            &&& optional_map_ok(
                lookup(members, "provider"@),
                |j: JsonView| ProviderConfig::readable(j),
            )
            &&& optional_map_ok(lookup(members, "mcp"@), |j: JsonView| McpConfig::readable(j))
            &&& optional_map_ok(
                lookup(members, "formatter"@),
                |j: JsonView| FormatterConfig::readable(j),
            )
            &&& optional_map_ok(lookup(members, "lsp"@), |j: JsonView| LspConfig::readable(j))
            &&& optional_texts(lookup(members, "instructions"@)) is Some
            &&& Layout::decoded(lookup(members, "layout"@)) is Some
            &&& optional_ok(
                lookup(members, "permission"@),
                |j: JsonView| PermissionMatrix::readable(j),
            )
            &&& optional_bool_map(lookup(members, "tools"@)) is Some
            &&& optional_ok(
                lookup(members, "experimental"@),
                |j: JsonView| ExperimentalConfig::readable(j),
            )
        }
    }

    /// Whether `x` is what a JSON value reads as: field by field, what the
    /// member of its name holds.
    pub open spec fn reads(value: JsonView, x: Info) -> bool {
        value matches JsonView::Object(members) && {
            &&& optional_text(lookup(members, "$schema"@)) == Some(opt_text(x.schema))
            &&& optional_text(lookup(members, "theme"@)) == Some(opt_text(x.theme))
            &&& optional_is(
                lookup(members, "keybinds"@),
                x.keybinds,
                |j: JsonView,
                t: Keybinds| Keybinds::reads(j, t),
            )
            &&& optional_is(lookup(members, "tui"@), x.tui, |j: JsonView, t: Tui| Tui::reads(j, t))
            &&& optional_map_is(
                lookup(members, "command"@),
                x.command,
                |j: JsonView,
                t: Command| Command::reads(j, t),
            )
            &&& optional_is(
                lookup(members, "watcher"@),
                x.watcher,
                |j: JsonView,
                t: WatcherSettings| WatcherSettings::reads(j, t),
            )
            &&& optional_texts(lookup(members, "plugin"@)) == Some(opt_texts(x.plugin))
            &&& optional_bool(lookup(members, "snapshot"@)) == Some(x.snapshot)
            &&& ShareMode::decoded(lookup(members, "share"@)) == Some(x.share)
            &&& optional_bool(lookup(members, "autoshare"@)) == Some(x.autoshare)
            &&& optional_bool(lookup(members, "autoupdate"@)) == Some(x.autoupdate)
            &&& optional_texts(lookup(members, "disabled_providers"@)) == Some(
                opt_texts(x.disabled_providers),
            )
            &&& optional_text(lookup(members, "model"@)) == Some(opt_text(x.model))
            &&& optional_text(lookup(members, "small_model"@)) == Some(opt_text(x.small_model))
            &&& optional_text(lookup(members, "username"@)) == Some(opt_text(x.username))
            &&& optional_map_is(
                lookup(members, "mode"@),
                x.mode,
                |j: JsonView,
                t: AgentConfig| AgentConfig::reads(j, t),
            )
            &&& optional_map_is(
                lookup(members, "agent"@),
                x.agent,
                |j: JsonView,
                t: AgentConfig| AgentConfig::reads(j, t),
            )
            &&& optional_map_is(
                lookup(members, "provider"@),
                x.provider,
                |j: JsonView,
                t: ProviderConfig| ProviderConfig::reads(j, t),
            )
            &&& optional_map_is(
                lookup(members, "mcp"@),
                x.mcp,
                |j: JsonView,
                t: McpConfig| McpConfig::reads(j, t),
            )
            &&& optional_map_is(
                lookup(members, "formatter"@),
                x.formatter,
                |j: JsonView,
                t: FormatterConfig| FormatterConfig::reads(j, t),
            )
            &&& optional_map_is(
                lookup(members, "lsp"@),
                x.lsp,
                |j: JsonView,
                t: LspConfig| LspConfig::reads(j, t),
            )
            &&& optional_texts(lookup(members, "instructions"@)) == Some(opt_texts(x.instructions))
            &&& Layout::decoded(lookup(members, "layout"@)) == Some(x.layout)
            &&& optional_is(
                lookup(members, "permission"@),
                x.permission,
                |j: JsonView,
                t: PermissionMatrix| PermissionMatrix::reads(j, t),
            )
            &&& optional_bool_map(lookup(members, "tools"@)) == Some(opt_switches(x.tools))
            &&& optional_is(
                lookup(members, "experimental"@),
                x.experimental,
                |j: JsonView,
                t: ExperimentalConfig| ExperimentalConfig::reads(j, t),
            )
        }
    }

    /// Reads a value of this type from a JSON value.
    pub fn from_json(value: &JsonValue) -> (r: Option<Info>)
        ensures
            match r {
                Some(x) => Self::reads(value@, x),
                None => !Self::readable(value@),
            },
    {
        proof {
            lemma_view_parts(*value);
        }
        match value {
            JsonValue::Object(members) => {
                let m = members.as_slice();
                let schema = match read_optional_text(find(m, "$schema")) {
                    Some(v) => v,
                    None => {
                        return None;
                    },
                };
                let theme = match read_optional_text(find(m, "theme")) {
                    Some(v) => v,
                    None => {
                        return None;
                    },
                };
                let keybinds = match Keybinds::read_optional(find(m, "keybinds")) {
                    Some(v) => v,
                    None => {
                        return None;
                    },
                };
                let tui = match Tui::read_optional(find(m, "tui")) {
                    Some(v) => v,
                    None => {
                        return None;
                    },
                };
                let command = match Command::read_optional_map(find(m, "command")) {
                    Some(v) => v,
                    None => {
                        return None;
                    },
                };
                let watcher = match WatcherSettings::read_optional(find(m, "watcher")) {
                    Some(v) => v,
                    None => {
                        return None;
                    },
                };
                let plugin = match read_optional_texts(find(m, "plugin")) {
                    Some(v) => v,
                    None => {
                        return None;
                    },
                };
                let snapshot = match read_optional_bool(find(m, "snapshot")) {
                    Some(v) => v,
                    None => {
                        return None;
                    },
                };
                let share = match ShareMode::read_optional(find(m, "share")) {
                    Some(v) => v,
                    None => {
                        return None;
                    },
                };
                let autoshare = match read_optional_bool(find(m, "autoshare")) {
                    Some(v) => v,
                    None => {
                        return None;
                    },
                };
                let autoupdate = match read_optional_bool(find(m, "autoupdate")) {
                    Some(v) => v,
                    None => {
                        return None;
                    },
                };
                let disabled_providers = match read_optional_texts(find(m, "disabled_providers")) {
                    Some(v) => v,
                    None => {
                        return None;
                    },
                };
                let model = match read_optional_text(find(m, "model")) {
                    Some(v) => v,
                    None => {
                        return None;
                    },
                };
                let small_model = match read_optional_text(find(m, "small_model")) {
                    Some(v) => v,
                    None => {
                        return None;
                    },
                };
                let username = match read_optional_text(find(m, "username")) {
                    Some(v) => v,
                    None => {
                        return None;
                    },
                };
                let mode = match AgentConfig::read_optional_map(find(m, "mode")) {
                    Some(v) => v,
                    None => {
                        return None;
                    },
                };
                let agent = match AgentConfig::read_optional_map(find(m, "agent")) {
                    Some(v) => v,
                    None => {
                        return None;
                    },
                };
                let provider = match ProviderConfig::read_optional_map(find(m, "provider")) {
                    Some(v) => v,
                    None => {
                        return None;
                    },
                };
                let mcp = match McpConfig::read_optional_map(find(m, "mcp")) {
                    Some(v) => v,
                    None => {
                        return None;
                    },
                };
                let formatter = match FormatterConfig::read_optional_map(find(m, "formatter")) {
                    Some(v) => v,
                    None => {
                        return None;
                    },
                };
                let lsp = match LspConfig::read_optional_map(find(m, "lsp")) {
                    Some(v) => v,
                    None => {
                        return None;
                    },
                };
                let instructions = match read_optional_texts(find(m, "instructions")) {
                    Some(v) => v,
                    None => {
                        return None;
                    },
                };
                let layout = match Layout::read_optional(find(m, "layout")) {
                    Some(v) => v,
                    None => {
                        return None;
                    },
                };
                let permission = match PermissionMatrix::read_optional(find(m, "permission")) {
                    Some(v) => v,
                    None => {
                        return None;
                    },
                };
                let tools = match read_optional_bool_map(find(m, "tools")) {
                    Some(v) => v,
                    None => {
                        return None;
                    },
                };
                let experimental = match ExperimentalConfig::read_optional(find(m, "experimental")) {
                    Some(v) => v,
                    None => {
                        return None;
                    },
                };
                Some(Info {
                    schema,
                    theme,
                    keybinds,
                    tui,
                    command,
                    watcher,
                    plugin,
                    snapshot,
                    share,
                    autoshare,
                    autoupdate,
                    disabled_providers,
                    model,
                    small_model,
                    username,
                    mode,
                    agent,
                    provider,
                    mcp,
                    formatter,
                    lsp,
                    instructions,
                    layout,
                    permission,
                    tools,
                    experimental,
                })
            },
            _ => None,
        }
    }
}

/// The message for a document that is JSON but no configuration.
pub open spec fn shape_message() -> Seq<char> {
    "the document does not have the form of a configuration"@
}

/// Whether `r` is what reading a configuration from a parsed text gives:
/// a JSON error with the parser's message where the text is no JSON, a
/// JSON error where the document has not the form of a configuration, a
/// configuration error that lists the rules it breaks where it breaks
/// any, and else the configuration.
pub open spec fn loads_as(document: Result<JsonView, Seq<char>>, r: Result<Info, OpenCodeError>) -> bool {
    match document {
        Err(message) => r matches Err(OpenCodeError::Json(m)) && m@ == message,
        Ok(value) => match r {
            Ok(info) => Info::reads(value, info) && info.violations().len() == 0,
            Err(OpenCodeError::Json(m)) => !Info::readable(value) && m@ == shape_message(),
            Err(OpenCodeError::Config(m)) => exists|info: Info|
                Info::reads(value, info) && info.violations().len() > 0 && m@ == violations_report(
                    info.violations(),
                ),
            Err(_) => false,
        },
    }
}

/// Reads a configuration from a parsed document and checks its rules.
pub fn info_from_json(value: &JsonValue) -> (r: Result<Info, OpenCodeError>)
    ensures
        loads_as(Ok(value@), r),
{
    match Info::from_json(value) {
        None => Err(
            OpenCodeError::Json("the document does not have the form of a configuration".to_owned()),
        ),
        Some(info) => match info.validate() {
            Ok(_) => Ok(info),
            Err(list) => {
                let message = describe_violations(&list);
                Err(OpenCodeError::Config(message))
            },
        },
    }
}

/// Reads a configuration from a text that may hold comments and trailing
/// commas, and checks its rules.
pub fn parse_info(text: &str) -> (r: Result<Info, OpenCodeError>)
    ensures
        loads_as(json_document(plain_json(text@)), r),
{
    match parse_jsonc(text) {
        Ok(value) => info_from_json(&value),
        Err(message) => Err(OpenCodeError::Json(message)),
    }
}


} // verus!
