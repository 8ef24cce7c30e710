//! A plain model of JSON documents, the reader that produces it, and the
//! readers of single members.

use vstd::prelude::*;
use crate::util::text::{
    blank, is_blank, lemma_texts_push, opt_text, same_text, texts, trim, trimmed,
};

verus! {

/// A JSON number: a non-negative integer, a negative integer, or the numeral
/// of any other number as text.
#[derive(Debug)]
pub enum JsonNumber {
    Unsigned(u64),
    Negative(i64),
    Decimal(String),
}

/// The model of a `JsonNumber`.
pub enum NumberView {
    Unsigned(u64),
    Negative(i64),
    Decimal(Seq<char>),
}

impl View for JsonNumber {
    type V = NumberView;

    open spec fn view(&self) -> NumberView {
        match self {
            JsonNumber::Unsigned(n) => NumberView::Unsigned(*n),
            JsonNumber::Negative(n) => NumberView::Negative(*n),
            JsonNumber::Decimal(s) => NumberView::Decimal(s@),
        }
    }
}

impl Clone for JsonNumber {
    fn clone(&self) -> (r: Self)
        ensures
            r@ == self@,
    {
        match self {
            JsonNumber::Unsigned(n) => JsonNumber::Unsigned(*n),
            JsonNumber::Negative(n) => JsonNumber::Negative(*n),
            JsonNumber::Decimal(s) => JsonNumber::Decimal(s.clone()),
        }
    }
}

/// A JSON value. An object lists its members in key order, each key once.
#[derive(Debug)]
pub enum JsonValue {
    Null,
    Bool(bool),
    Number(JsonNumber),
    String(String),
    Array(Vec<JsonValue>),
    Object(Vec<(String, JsonValue)>),
}

/// The model of a `JsonValue`.
pub enum JsonView {
    Null,
    Bool(bool),
    Number(NumberView),
    String(Seq<char>),
    Array(Seq<JsonView>),
    Object(Seq<(Seq<char>, JsonView)>),
}

/// The model of a value.
pub open spec fn value_view(value: JsonValue) -> JsonView
    decreases value,
{
    match value {
        JsonValue::Null => JsonView::Null,
        JsonValue::Bool(b) => JsonView::Bool(b),
        JsonValue::Number(n) => JsonView::Number(n@),
        JsonValue::String(s) => JsonView::String(s@),
        JsonValue::Array(items) => JsonView::Array(item_views(items@)),
        JsonValue::Object(members) => JsonView::Object(member_views(members@)),
    }
}

/// The models of a sequence of values.
pub open spec fn item_views(items: Seq<JsonValue>) -> Seq<JsonView>
    decreases items,
{
    if items.len() == 0 {
        Seq::empty()
    } else {
        item_views(items.drop_last()).push(value_view(items.last()))
    }
}

/// The models of a sequence of members.
pub open spec fn member_views(members: Seq<(String, JsonValue)>) -> Seq<(Seq<char>, JsonView)>
    decreases members,
{
    if members.len() == 0 {
        Seq::empty()
    } else {
        member_views(members.drop_last()).push((members.last().0@, value_view(members.last().1)))
    }
}

impl View for JsonValue {
    type V = JsonView;

    open spec fn view(&self) -> JsonView {
        value_view(*self)
    }
}

/// The models of a sequence of values are the models of its values.
pub proof fn lemma_item_views(items: Seq<JsonValue>)
    ensures
        item_views(items).len() == items.len(),
        forall|i: int| 0 <= i < items.len() ==> (#[trigger] item_views(items)[i]) == items[i]@,
    decreases items.len(),
{
    if items.len() > 0 {
        lemma_item_views(items.drop_last());
    }
}

/// The models of a sequence of members are the models of its members.
pub proof fn lemma_member_views(members: Seq<(String, JsonValue)>)
    ensures
        member_views(members).len() == members.len(),
        forall|i: int|
            0 <= i < members.len() ==> (#[trigger] member_views(members)[i]) == (
                members[i].0@,
                members[i].1@,
            ),
    decreases members.len(),
{
    if members.len() > 0 {
        lemma_member_views(members.drop_last());
    }
}

/// The view of an array is the views of its items, and the view of an
/// object the views of its members.
pub proof fn lemma_view_parts(value: JsonValue)
    ensures
        value matches JsonValue::Array(items) ==> value@ == JsonView::Array(item_views(items@)),
        value matches JsonValue::Object(members) ==> value@ == JsonView::Object(
            member_views(members@),
        ),
{
}

/// A copy of a number.
pub fn copy_number(n: &JsonNumber) -> (r: JsonNumber)
    ensures
        r@ == n@,
{
    n.clone()
}

/// A copy of a JSON value, part for part.
pub fn copy_value(value: &JsonValue) -> (r: JsonValue)
    ensures
        r@ == value@,
    decreases value,
{
    proof {
        lemma_view_parts(*value);
    }
    match value {
        JsonValue::Null => JsonValue::Null,
        JsonValue::Bool(b) => JsonValue::Bool(*b),
        JsonValue::Number(n) => JsonValue::Number(copy_number(n)),
        JsonValue::String(s) => JsonValue::String(s.clone()),
        JsonValue::Array(items) => {
            let mut out: Vec<JsonValue> = Vec::new();
            let mut i: usize = 0;
            while i < items.len()
                invariant
                    i <= items@.len(),
                    *value == JsonValue::Array(*items),
                    out@.len() == i,
                    forall|k: int| 0 <= k < i ==> (#[trigger] out@[k])@ == items@[k]@,
                decreases items@.len() - i,
            {
                proof {
                    vstd::std_specs::vec::axiom_vec_index_decreases(*items, i as int);
                    assert(decreases_to!(*items => items@[i as int]));
                    assert(value->Array_0 == *items);
                    assert(decreases_to!(*value => value->Array_0));
                }
                let item = copy_value(&items[i]);
                out.push(item);
                i += 1;
            }
            proof {
                lemma_item_views(items@);
                lemma_item_views(out@);
                assert(item_views(out@) =~= item_views(items@));
            }
            JsonValue::Array(out)
        },
        JsonValue::Object(members) => {
            let mut out: Vec<(String, JsonValue)> = Vec::new();
            let mut i: usize = 0;
            while i < members.len()
                invariant
                    i <= members@.len(),
                    *value == JsonValue::Object(*members),
                    out@.len() == i,
                    forall|k: int|
                        0 <= k < i ==> (#[trigger] out@[k]).0@ == members@[k].0@ && out@[k].1@
                            == members@[k].1@,
                decreases members@.len() - i,
            {
                proof {
                    vstd::std_specs::vec::axiom_vec_index_decreases(*members, i as int);
                    assert(decreases_to!(*members => members@[i as int]));
                    assert(decreases_to!(members@[i as int] => members@[i as int].1));
                    assert(value->Object_0 == *members);
                    assert(decreases_to!(*value => value->Object_0));
                }
                let item = copy_value(&members[i].1);
                out.push((members[i].0.clone(), item));
                i += 1;
            }
            proof {
                lemma_member_views(members@);
                lemma_member_views(out@);
                assert(member_views(out@) =~= member_views(members@));
            }
            JsonValue::Object(out)
        },
    }
}

/// A copy of the members of an object.
pub fn copy_members(members: &Vec<(String, JsonValue)>) -> (r: Vec<(String, JsonValue)>)
    ensures
        member_views(r@) == member_views(members@),
{
    let mut out: Vec<(String, JsonValue)> = Vec::new();
    let mut i: usize = 0;
    while i < members.len()
        invariant
            i <= members@.len(),
            out@.len() == i,
            forall|k: int|
                0 <= k < i ==> (#[trigger] out@[k]).0@ == members@[k].0@ && out@[k].1@
                    == members@[k].1@,
        decreases members@.len() - i,
    {
        let item = copy_value(&members[i].1);
        out.push((members[i].0.clone(), item));
        i += 1;
    }
    proof {
        lemma_member_views(members@);
        lemma_member_views(out@);
        assert(member_views(out@) =~= member_views(members@));
    }
    out
}

impl Clone for JsonValue {
    fn clone(&self) -> (r: Self)
        ensures
            r@ == self@,
    {
        copy_value(self)
    }
}

/// The type `serde_json::Value`, of which nothing but its name is used.
#[verifier::external_type_specification]
#[verifier::external_body]
pub struct ExValue(serde_json::Value);

/// The type `serde_json::Number`, of which nothing but its name is used.
#[verifier::external_type_specification]
#[verifier::external_body]
pub struct ExNumber(serde_json::Number);

/// What `serde_json::from_str` reads from a text as a `serde_json::Value`:
/// the document, or the message of the error it reports.
pub uninterp spec fn json_document(text: Seq<char>) -> Result<JsonView, Seq<char>>;

/// The view of what reading a document gave.
pub open spec fn read_view(r: Result<JsonValue, String>) -> Result<JsonView, Seq<char>> {
    match r {
        Ok(value) => Ok(value@),
        Err(message) => Err(message@),
    }
}

/// `serde_json::Number` as one of three cases: `as_u64` where it holds a
/// non-negative integer, `as_i64` where a negative one, else its numeral.
#[verifier::external_body]
pub(crate) fn lift_number(n: &serde_json::Number) -> JsonNumber {
    match (n.as_u64(), n.as_i64()) {
        (Some(u), _) => JsonNumber::Unsigned(u),
        (None, Some(i)) => JsonNumber::Negative(i),
        (None, None) => JsonNumber::Decimal(n.to_string()),
    }
}

/// `serde_json::Value`, variant for variant; the members of an object in
/// the order in which its map yields them.
#[verifier::external_body]
fn lift(value: &serde_json::Value) -> JsonValue {
    match value {
        serde_json::Value::Null => JsonValue::Null,
        serde_json::Value::Bool(b) => JsonValue::Bool(*b),
        serde_json::Value::Number(n) => JsonValue::Number(lift_number(n)),
        serde_json::Value::String(s) => JsonValue::String(s.clone()),
        serde_json::Value::Array(a) => JsonValue::Array(a.iter().map(lift).collect()),
        serde_json::Value::Object(o) => JsonValue::Object(
            o.iter().map(|(k, v)| (k.clone(), lift(v))).collect(),
        ),
    }
}

/// `serde_json::from_str` at the type `serde_json::Value`: the result is a
/// function of the text alone.
#[verifier::external_body]
pub(crate) fn parse_document(text: &str) -> (r: Result<JsonValue, String>)
    ensures
        read_view(r) == json_document(text@),
{
    match serde_json::from_str::<serde_json::Value>(text) {
        Ok(value) => Ok(lift(&value)),
        Err(error) => Err(error.to_string()),
    }
}

/// The value of the first member with this key, if there is one.
pub open spec fn lookup(members: Seq<(Seq<char>, JsonView)>, key: Seq<char>) -> Option<JsonView>
    decreases members.len(),
{
    if members.len() == 0 {
        None
    } else if members[0].0 == key {
        Some(members[0].1)
    } else {
        lookup(members.drop_first(), key)
    }
}

/// The view of an optional reference to a value.
pub open spec fn opt_json(value: Option<&JsonValue>) -> Option<JsonView> {
    match value {
        Some(v) => Some(v@),
        None => None,
    }
}

/// The value of the first member with this key, if there is one.
pub fn find<'a>(members: &'a [(String, JsonValue)], key: &str) -> (r: Option<&'a JsonValue>)
    ensures
        opt_json(r) == lookup(member_views(members@), key@),
{
    let mut i: usize = 0;
    let ghost all = member_views(members@);
    assert(all.skip(0) =~= all);
    while i < members.len()
        invariant
            i <= members@.len(),
            all == member_views(members@),
            lookup(all, key@) == lookup(all.skip(i as int), key@),
        decreases members@.len() - i,
    {
        proof {
            lemma_member_views(members@);
        }
        if same_text(members[i].0.as_str(), key) {
            return Some(&members[i].1);
        }
        assert(all.skip(i as int).drop_first() =~= all.skip(i + 1));
        i += 1;
    }
    proof {
        lemma_member_views(members@);
        assert(all.skip(i as int) =~= Seq::empty());
    }
    None
}

/// How an optional member reads: outside `None` where the value has the
/// wrong type; inside `None` where the member is missing or `null`.
pub open spec fn optional_text(value: Option<JsonView>) -> Option<Option<Seq<char>>> {
    match value {
        None => Some(None),
        Some(JsonView::Null) => Some(None),
        Some(JsonView::String(s)) => Some(Some(s)),
        Some(_) => None,
    }
}

/// Reads an optional string member.
pub fn read_optional_text(value: Option<&JsonValue>) -> (r: Option<Option<String>>)
    ensures
        match r {
            Some(o) => optional_text(opt_json(value)) == Some(opt_text(o)),
            None => optional_text(opt_json(value)) is None,
        },
{
    match value {
        None => Some(None),
        Some(JsonValue::Null) => Some(None),
        Some(JsonValue::String(s)) => Some(Some(s.clone())),
        Some(_) => None,
    }
}

/// How a string that must be given reads.
pub open spec fn required_text(value: Option<JsonView>) -> Option<Seq<char>> {
    match value {
        Some(JsonView::String(s)) => Some(s),
        _ => None,
    }
}

/// Reads a string that must be given.
pub fn read_required_text(value: Option<&JsonValue>) -> (r: Option<String>)
    ensures
        match r {
            Some(s) => required_text(opt_json(value)) == Some(s@),
            None => required_text(opt_json(value)) is None,
        },
{
    match value {
        Some(JsonValue::String(s)) => Some(s.clone()),
        _ => None,
    }
}

/// How an optional non-negative integer of at most `max` reads: outside
/// `None` where the value is anything else but missing or `null`.
pub open spec fn optional_natural(value: Option<JsonView>, max: u64) -> Option<Option<u64>> {
    match value {
        None => Some(None),
        Some(JsonView::Null) => Some(None),
        Some(JsonView::Number(NumberView::Unsigned(n))) => if n <= max {
            Some(Some(n))
        } else {
            None
        },
        Some(_) => None,
    }
}

/// Reads an optional non-negative integer of at most `max`.
pub fn read_optional_natural(value: Option<&JsonValue>, max: u64) -> (r: Option<Option<u64>>)
    ensures
        r == optional_natural(opt_json(value), max),
{
    match value {
        None => Some(None),
        Some(JsonValue::Null) => Some(None),
        Some(JsonValue::Number(JsonNumber::Unsigned(n))) => if *n <= max {
            Some(Some(*n))
        } else {
            None
        },
        Some(_) => None,
    }
}

/// How an optional boolean reads.
pub open spec fn optional_bool(value: Option<JsonView>) -> Option<Option<bool>> {
    match value {
        None => Some(None),
        Some(JsonView::Null) => Some(None),
        Some(JsonView::Bool(b)) => Some(Some(b)),
        Some(_) => None,
    }
}

/// Reads an optional boolean member.
pub fn read_optional_bool(value: Option<&JsonValue>) -> (r: Option<Option<bool>>)
    ensures
        r == optional_bool(opt_json(value)),
{
    match value {
        None => Some(None),
        Some(JsonValue::Null) => Some(None),
        Some(JsonValue::Bool(b)) => Some(Some(*b)),
        Some(_) => None,
    }
}

/// Whether every item is a string.
pub open spec fn all_strings(items: Seq<JsonView>) -> bool {
    forall|i: int| 0 <= i < items.len() ==> (#[trigger] items[i]) is String
}

/// The texts of items that are all strings.
pub open spec fn string_items(items: Seq<JsonView>) -> Seq<Seq<char>> {
    Seq::new(items.len(), |i: int| items[i]->String_0)
}

/// How an array of strings reads: the texts where every item is a string.
pub open spec fn text_array(value: JsonView) -> Option<Seq<Seq<char>>> {
    match value {
        JsonView::Array(items) => if all_strings(items) {
            Some(string_items(items))
        } else {
            None
        },
        _ => None,
    }
}

/// Reads an array of strings.
pub fn read_text_array(value: &JsonValue) -> (r: Option<Vec<String>>)
    ensures
        match r {
            Some(list) => text_array(value@) == Some(texts(list@)),
            None => text_array(value@) is None,
        },
{
    proof {
        lemma_view_parts(*value);
    }
    match value {
        JsonValue::Array(items) => {
            let mut out: Vec<String> = Vec::new();
            let mut i: usize = 0;
            let ghost all = item_views(items@);
            while i < items.len()
                invariant
                    value@ == JsonView::Array(all),
                    all == item_views(items@),
                    i <= items@.len(),
                    all_strings(all.subrange(0, i as int)),
                    texts(out@) == string_items(all.subrange(0, i as int)),
                decreases items@.len() - i,
            {
                proof {
                    lemma_item_views(items@);
                }
                match &items[i] {
                    JsonValue::String(s) => {
                        let copy = s.clone();
                        proof {
                            lemma_texts_push(out@, copy);
                            assert(all[i as int] == JsonView::String(s@));
                            assert(all.subrange(0, i + 1) =~= all.subrange(0, i as int).push(
                                all[i as int],
                            ));
                            assert(string_items(all.subrange(0, i + 1)) =~= string_items(
                                all.subrange(0, i as int),
                            ).push(s@));
                        }
                        out.push(copy);
                    },
                    _ => {
                        assert(!(all[i as int] is String));
                        assert(!all_strings(all));
                        return None;
                    },
                }
                i += 1;
            }
            proof {
                lemma_item_views(items@);
            }
            assert(all.subrange(0, all.len() as int) =~= all);
            Some(out)
        },
        _ => None,
    }
}

/// How a list member of a tool record reads: missing is the empty list,
/// an array of strings is its texts, anything else is malformed.
pub open spec fn name_list(value: Option<JsonView>) -> Option<Seq<Seq<char>>> {
    match value {
        None => Some(Seq::empty()),
        Some(v) => text_array(v),
    }
}

/// Reads a list member of a tool record.
pub fn read_name_list(value: Option<&JsonValue>) -> (r: Option<Vec<String>>)
    ensures
        match r {
            Some(list) => name_list(opt_json(value)) == Some(texts(list@)),
            None => name_list(opt_json(value)) is None,
        },
{
    match value {
        None => {
            let list: Vec<String> = Vec::new();
            assert(texts(list@) =~= Seq::empty());
            Some(list)
        },
        Some(v) => read_text_array(v),
    }
}

/// The trimmed texts of the string items that are not blank, in order.
pub open spec fn trimmed_strings(items: Seq<JsonView>) -> Seq<Seq<char>>
    decreases items.len(),
{
    if items.len() == 0 {
        Seq::empty()
    } else {
        let rest = trimmed_strings(items.drop_last());
        match items.last() {
            JsonView::String(s) => if is_blank(s) {
                rest
            } else {
                rest.push(trimmed(s))
            },
            _ => rest,
        }
    }
}

/// The trimmed texts of the string items that are not blank, in order.
pub fn collect_trimmed_strings(items: &[JsonValue]) -> (r: Vec<String>)
    ensures
        texts(r@) == trimmed_strings(item_views(items@)),
{
    let mut out: Vec<String> = Vec::new();
    let mut i: usize = 0;
    let ghost all = item_views(items@);
    assert(texts(out@) =~= Seq::empty());
    assert(all.subrange(0, 0) =~= Seq::empty());
    while i < items.len()
        invariant
            i <= items@.len(),
            all == item_views(items@),
            texts(out@) == trimmed_strings(all.subrange(0, i as int)),
        decreases items@.len() - i,
    {
        proof {
            lemma_item_views(items@);
            assert(all.subrange(0, i + 1).drop_last() =~= all.subrange(0, i as int));
            assert(all.subrange(0, i + 1).last() == items@[i as int]@);
        }
        match &items[i] {
            JsonValue::String(s) => {
                if !blank(s.as_str()) {
                    let piece = trim(s.as_str());
                    proof {
                        lemma_texts_push(out@, piece);
                    }
                    out.push(piece);
                }
            },
            _ => {},
        }
        i += 1;
    }
    proof {
        lemma_item_views(items@);
    }
    assert(all.subrange(0, all.len() as int) =~= all);
    out
}

} // verus!
