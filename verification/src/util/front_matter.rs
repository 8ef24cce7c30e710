//! Documents that open with a block of `key: value` lines between two
//! `---` lines: the block read as a JSON value, and the text behind it.

use vstd::prelude::*;
use crate::util::error::OpenCodeError;
use crate::util::json::{
    item_views, json_document, lemma_member_views, lift_number, member_views, parse_document,
    JsonNumber, JsonValue, JsonView, NumberView,
};
use crate::util::names::{text_less, text_lt};
use crate::util::text::{
    char_views, eq_ignore_ascii_case, find_char, from_chars, has_prefix, index_of, is_blank, joined,
    lemma_texts_push, push_joined, texts,
    leading_run, leading_space, lemma_trim_len, lines, lines_of, same_chars, same_ignoring_case, split, split_on, starts_with, to_chars, trim_bounds, trim_chars,
    trim_start, trimmed, without_leading,
};

verus! {

/// A document split into the data of its front matter and its content.
#[derive(Debug)]
pub struct FrontMatter<T> {
    pub data: T,
    pub content: String,
}

/// The model of a document whose front matter is a JSON value.
pub struct FrontMatterView {
    pub data: JsonView,
    pub content: Seq<char>,
}

impl View for FrontMatter<JsonValue> {
    type V = FrontMatterView;

    open spec fn view(&self) -> FrontMatterView {
        FrontMatterView { data: self.data@, content: self.content@ }
    }
}

/// The value of a decimal digit.
pub open spec fn digit_of(c: char) -> Option<nat> {
    if c == '0' {
        Some(0)
    } else if c == '1' {
        Some(1)
    } else if c == '2' {
        Some(2)
    } else if c == '3' {
        Some(3)
    } else if c == '4' {
        Some(4)
    } else if c == '5' {
        Some(5)
    } else if c == '6' {
        Some(6)
    } else if c == '7' {
        Some(7)
    } else if c == '8' {
        Some(8)
    } else if c == '9' {
        Some(9)
    } else {
        None
    }
}

/// The number that `acc` becomes as the digits of `d` are written behind
/// it; nothing where `d` holds anything but digits.
pub open spec fn digits_from(acc: nat, d: Seq<char>) -> Option<nat>
    decreases d.len(),
{
    if d.len() == 0 {
        Some(acc)
    } else {
        match digit_of(d[0]) {
            Some(v) => digits_from(acc * 10 + v, d.drop_first()),
            None => None,
        }
    }
}

/// The integer that a numeral stands for: an optional sign and at least
/// one digit, with a value that a signed 64-bit integer can hold.
pub open spec fn int_numeral(t: Seq<char>) -> Option<int> {
    if t.len() == 0 {
        None
    } else {
        let digits = if t[0] == '-' || t[0] == '+' {
            t.skip(1)
        } else {
            t
        };
        if digits.len() == 0 {
            None
        } else {
            match digits_from(0, digits) {
                Some(v) => {
                    let n = if t[0] == '-' {
                        -(v as int)
                    } else {
                        v as int
                    };
                    if -0x8000_0000_0000_0000 <= n <= 0x7fff_ffff_ffff_ffff {
                        Some(n)
                    } else {
                        None
                    }
                },
                None => None,
            }
        }
    }
}

/// An integer as a JSON number.
pub open spec fn int_number(n: int) -> NumberView {
    if n < 0 {
        NumberView::Negative(n as i64)
    } else {
        NumberView::Unsigned(n as u64)
    }
}

/// Writing digits behind a number never makes it smaller.
pub proof fn lemma_digits_grow(acc: nat, d: Seq<char>)
    ensures
        digits_from(acc, d) matches Some(v) ==> v >= acc,
    decreases d.len(),
{
    if d.len() > 0 {
        if let Some(v) = digit_of(d[0]) {
            lemma_digits_grow(acc * 10 + v, d.drop_first());
        }
    }
}

fn digit_value(c: char) -> (r: Option<u64>)
    ensures
        match r {
            Some(v) => digit_of(c) == Some(v as nat) && v < 10,
            None => digit_of(c) is None,
        },
{
    if c == '0' {
        Some(0)
    } else if c == '1' {
        Some(1)
    } else if c == '2' {
        Some(2)
    } else if c == '3' {
        Some(3)
    } else if c == '4' {
        Some(4)
    } else if c == '5' {
        Some(5)
    } else if c == '6' {
        Some(6)
    } else if c == '7' {
        Some(7)
    } else if c == '8' {
        Some(8)
    } else if c == '9' {
        Some(9)
    } else {
        None
    }
}

/// The JSON number of an integer numeral.
pub fn parse_int(t: &[char]) -> (r: Option<JsonNumber>)
    ensures
        match r {
            Some(n) => int_numeral(t@) matches Some(v) && n@ == int_number(v),
            None => int_numeral(t@) is None,
        },
{
    if t.len() == 0 {
        return None;
    }
    let negative = t[0] == '-';
    let start: usize = if t[0] == '-' || t[0] == '+' {
        1
    } else {
        0
    };
    if start == t.len() {
        return None;
    }
    let ghost digits = t@.skip(start as int);
    let mut acc: u64 = 0;
    let mut i: usize = start;
    assert(digits.skip(0) =~= digits);
    while i < t.len()
        invariant
            start <= i <= t@.len(),
            start < t@.len(),
            negative == (t@[0] == '-'),
            start == if t@[0] == '-' || t@[0] == '+' {
                1int
            } else {
                0int
            },
            digits == t@.skip(start as int),
            acc <= 0x8000_0000_0000_0000,
            digits_from(0, digits) == digits_from(acc as nat, digits.skip(i - start)),
        decreases t@.len() - i,
    {
        let ghost tail = digits.skip(i - start);
        proof {
            assert(t@.skip(0) =~= t@);
            assert(tail[0] == t@[i as int]);
            assert(tail.drop_first() =~= digits.skip(i - start + 1));
        }
        let d = match digit_value(t[i]) {
            Some(d) => d,
            None => {
                return None;
            },
        };
        if acc > 922337203685477580 {
            proof {
                lemma_digits_grow((acc * 10 + d) as nat, tail.drop_first());
            }
            return None;
        }
        let next = acc * 10 + d;
        if next > 0x8000_0000_0000_0000 {
            proof {
                lemma_digits_grow(next as nat, tail.drop_first());
            }
            return None;
        }
        acc = next;
        i += 1;
    }
    assert(digits.skip(t@.len() - start) =~= Seq::empty());
    assert(t@.skip(0) =~= t@);
    if negative {
        if acc == 0 {
            Some(JsonNumber::Unsigned(0))
        } else if acc == 0x8000_0000_0000_0000 {
            Some(JsonNumber::Negative(i64::MIN))
        } else {
            Some(JsonNumber::Negative(-(acc as i64)))
        }
    } else if acc == 0x8000_0000_0000_0000 {
        None
    } else {
        Some(JsonNumber::Unsigned(acc))
    }
}

/// The JSON number that a numeral with a fraction or an exponent stands
/// for: what `str::parse` reads as a 64-bit float and
/// `serde_json::Number::from_f64` accepts as finite.
pub uninterp spec fn float_numeral(text: Seq<char>) -> Option<NumberView>;

/// The view of an optional number.
pub open spec fn opt_number(n: Option<JsonNumber>) -> Option<NumberView> {
    match n {
        Some(n) => Some(n@),
        None => None,
    }
}

/// `str::parse` reads the text as a 64-bit float, and
/// `serde_json::Number::from_f64` makes a JSON number of it unless it is
/// infinite or no number. The result is a function of the text alone.
#[verifier::external_body]
fn read_float(text: &str) -> (r: Option<JsonNumber>)
    ensures
        opt_number(r) == float_numeral(text@),
{
    Some(lift_number(&serde_json::Number::from_f64(text.parse().ok()?)?))
}

/// Whether a text begins and ends with `q`.
pub open spec fn enclosed(t: Seq<char>, open: char, close: char) -> bool {
    t.len() > 0 && t[0] == open && t.last() == close
}

/// The value of a scalar: nothing is `null`; a JSON string in double
/// quotes is its text; a text in single quotes is what stands between
/// them; `true`, `false` and `null` in any case are themselves; a text in
/// square brackets is an array literal; a JSON object in braces is
/// itself; an integer or another number is that number; anything else is
/// a string.
pub open spec fn scalar(text: Seq<char>) -> JsonView
    decreases text.len(), 2nat, 0nat,
{
    let t = trimmed(text);
    if t.len() == 0 {
        JsonView::Null
    } else if enclosed(t, '"', '"') && (json_document(t) matches Ok(v) && v is String) {
        json_document(t)->Ok_0
    } else if enclosed(t, '\'', '\'') && t.len() >= 2 {
        JsonView::String(t.subrange(1, t.len() - 1))
    } else if same_ignoring_case(t, "true"@) {
        JsonView::Bool(true)
    } else if same_ignoring_case(t, "false"@) {
        JsonView::Bool(false)
    } else if same_ignoring_case(t, "null"@) {
        JsonView::Null
    } else if enclosed(t, '[', ']') {
        proof {
            lemma_trim_len(text);
        }
        array_literal(t)
    } else if enclosed(t, '{', '}') && json_document(t) is Ok {
        json_document(t)->Ok_0
    } else if int_numeral(t) is Some {
        JsonView::Number(int_number(int_numeral(t)->0))
    } else if float_numeral(t) is Some {
        JsonView::Number(float_numeral(t)->0)
    } else {
        JsonView::String(t)
    }
}

/// The value of a text in square brackets: the JSON array that it is, or
/// else the scalars between its commas, without the empty ones.
pub open spec fn array_literal(t: Seq<char>) -> JsonView
    decreases t.len(), 1nat, 0nat,
{
    match json_document(t) {
        Ok(v) => v,
        Err(_) => if t.len() >= 2 {
            JsonView::Array(literal_items(split_on(t.subrange(1, t.len() - 1), ','), t.len()))
        } else {
            JsonView::Array(Seq::empty())
        },
    }
}

/// The scalars of the pieces that are not blank, in order. Every piece is
/// shorter than `bound`.
pub open spec fn literal_items(pieces: Seq<Seq<char>>, bound: nat) -> Seq<JsonView>
    decreases bound, 0nat, pieces.len(),
    when forall|i: int| 0 <= i < pieces.len() ==> (#[trigger] pieces[i]).len() < bound
{
    if pieces.len() == 0 {
        Seq::empty()
    } else {
        let rest = literal_items(pieces.drop_last(), bound);
        if is_blank(pieces.last()) {
            rest
        } else {
            proof {
                lemma_trim_len(pieces.last());
            }
            rest.push(scalar(trimmed(pieces.last())))
        }
    }
}


/// No piece of a split is longer than the text that was split.
pub proof fn lemma_split_piece_len(s: Seq<char>, sep: char)
    ensures
        split_on(s, sep).len() > 0,
        forall|i: int| 0 <= i < split_on(s, sep).len() ==> (#[trigger] split_on(s, sep)[i]).len() <= s.len(),
    decreases s.len(),
{
    if s.len() > 0 {
        lemma_split_piece_len(s.drop_last(), sep);
    }
}

/// The value of a scalar.
pub fn parse_scalar(value: &[char]) -> (r: JsonValue)
    ensures
        r@ == scalar(value@),
    decreases value@.len(), 2nat, 0nat,
{
    let t = trim_chars(value);
    proof {
        lemma_trim_len(value@);
    }
    let n = t.len();
    if n == 0 {
        return JsonValue::Null;
    }
    let first = t[0];
    let last = t[n - 1];
    let text = from_chars(t.as_slice());
    if first == '"' && last == '"' {
        if let Ok(JsonValue::String(s)) = parse_document(text.as_str()) {
            return JsonValue::String(s);
        }
    }
    if first == '\'' && last == '\'' && n >= 2 {
        let inner = vstd::slice::slice_subrange(t.as_slice(), 1, n - 1);
        return JsonValue::String(from_chars(inner));
    }
    if eq_ignore_ascii_case(t.as_slice(), "true") {
        return JsonValue::Bool(true);
    }
    if eq_ignore_ascii_case(t.as_slice(), "false") {
        return JsonValue::Bool(false);
    }
    if eq_ignore_ascii_case(t.as_slice(), "null") {
        return JsonValue::Null;
    }
    if first == '[' && last == ']' {
        return parse_array_literal(t.as_slice());
    }
    if first == '{' && last == '}' {
        if let Ok(v) = parse_document(text.as_str()) {
            return v;
        }
    }
    if let Some(number) = parse_int(t.as_slice()) {
        return JsonValue::Number(number);
    }
    if let Some(number) = read_float(text.as_str()) {
        return JsonValue::Number(number);
    }
    JsonValue::String(text)
}

/// The value of a text in square brackets.
pub fn parse_array_literal(t: &[char]) -> (r: JsonValue)
    ensures
        r@ == array_literal(t@),
    decreases t@.len(), 1nat, 0nat,
{
    let text = from_chars(t);
    match parse_document(text.as_str()) {
        Ok(v) => v,
        Err(_) => {
            let n = t.len();
            let mut items: Vec<JsonValue> = Vec::new();
            if n < 2 {
                return JsonValue::Array(items);
            }
            let inner = vstd::slice::slice_subrange(t, 1, n - 1);
            let pieces = split(inner, ',');
            let ghost all = char_views(pieces@);
            proof {
                lemma_split_piece_len(inner@, ',');
                assert(all.subrange(0, 0) =~= Seq::empty());
            }
            let mut i: usize = 0;
            while i < pieces.len()
                invariant
                    i <= pieces@.len(),
                    n == t@.len(),
                    n >= 2,
                    all == char_views(pieces@),
                    forall|k: int| 0 <= k < all.len() ==> (#[trigger] all[k]).len() < n,
                    item_views(items@) == literal_items(all.subrange(0, i as int), n as nat),
                decreases pieces@.len() - i,
            {
                proof {
                    assert(all.subrange(0, i + 1).drop_last() =~= all.subrange(0, i as int));
                    assert(all.subrange(0, i + 1).last() == pieces@[i as int]@);
                    assert(all[i as int] == pieces@[i as int]@);
                    lemma_trim_len(pieces@[i as int]@);
                }
                let piece = trim_chars(pieces[i].as_slice());
                if piece.len() > 0 {
                    let item = parse_scalar(piece.as_slice());
                    let ghost before = items@;
                    items.push(item);
                    proof {
                        assert(items@.drop_last() =~= before);
                    }
                }
                i += 1;
            }
            assert(all.subrange(0, all.len() as int) =~= all);
            JsonValue::Array(items)
        },
    }
}

/// The members with `key` bound to `value`: in the place of the member of
/// that key where there is one, else before the first member whose key
/// comes after it, so that members in key order stay in key order.
pub open spec fn put_sorted(
    members: Seq<(Seq<char>, JsonView)>,
    key: Seq<char>,
    value: JsonView,
) -> Seq<(Seq<char>, JsonView)>
    decreases members.len(),
{
    if members.len() == 0 {
        seq![(key, value)]
    } else if members[0].0 == key {
        members.update(0, (key, value))
    } else if text_lt(key, members[0].0) {
        seq![(key, value)] + members
    } else {
        seq![members[0]] + put_sorted(members.drop_first(), key, value)
    }
}

/// Binds `key` to `value` among the members.
pub fn insert_member(members: &mut Vec<(String, JsonValue)>, key: String, value: JsonValue)
    ensures
        member_views(final(members)@) == put_sorted(member_views(old(members)@), key@, value@),
{
    let ghost before = member_views(members@);
    let wanted = to_chars(key.as_str());
    let mut i: usize = 0;
    let mut same = false;
    let mut stop = false;
    proof {
        lemma_member_views(members@);
        assert(before.skip(0) =~= before);
        assert(before.subrange(0, 0) + put_sorted(before, key@, value@) =~= put_sorted(
            before,
            key@,
            value@,
        ));
    }
    while i < members.len() && !stop
        invariant
            i <= members@.len(),
            before == member_views(members@),
            wanted@ == key@,
            put_sorted(before, key@, value@) == before.subrange(0, i as int) + put_sorted(
                before.skip(i as int),
                key@,
                value@,
            ),
            stop ==> i < members@.len() && (same == (before[i as int].0 == key@)) && (!same
                ==> text_lt(key@, before[i as int].0)),
            !stop ==> !same,
        decreases members@.len() - i + if stop { 0int } else { 1int },
    {
        proof {
            lemma_member_views(members@);
        }
        let other = to_chars(members[i].0.as_str());
        if same_chars(other.as_slice(), wanted.as_slice()) {
            same = true;
            stop = true;
        } else if text_less(wanted.as_slice(), other.as_slice()) {
            stop = true;
        } else {
            proof {
                let tail = before.skip(i as int);
                assert(tail[0] == before[i as int]);
                assert(tail.drop_first() =~= before.skip(i + 1));
                assert(before.subrange(0, i + 1) =~= before.subrange(0, i as int) + seq![tail[0]]);
                assert(before.subrange(0, i as int) + (seq![tail[0]] + put_sorted(
                    tail.drop_first(),
                    key@,
                    value@,
                )) =~= before.subrange(0, i + 1) + put_sorted(before.skip(i + 1), key@, value@));
            }
            i += 1;
        }
    }
    proof {
        lemma_member_views(members@);
        let tail = before.skip(i as int);
        if stop {
            assert(tail[0] == before[i as int]);
        } else {
            assert(tail =~= Seq::empty());
        }
    }
    let ghost k = key@;
    let ghost v = value@;
    if same {
        members.set(i, (key, value));
        proof {
            lemma_member_views(members@);
            assert(member_views(members@) =~= before.subrange(0, i as int) + before.skip(
                i as int,
            ).update(0, (k, v)));
        }
    } else {
        members.insert(i, (key, value));
        proof {
            lemma_member_views(members@);
            if stop {
                assert(member_views(members@) =~= before.subrange(0, i as int) + (seq![(k, v)]
                    + before.skip(i as int)));
            } else {
                assert(member_views(members@) =~= before.subrange(0, i as int) + seq![(k, v)]);
            }
        }
    }
}

/// Where the reading of a front-matter block stands: the members read so
/// far, and the key whose list is being read with the items read so far.
pub struct YamlState {
    pub members: Seq<(Seq<char>, JsonView)>,
    pub pending: Option<(Seq<char>, Seq<JsonView>)>,
}

/// The state with the list that is being read, if any, bound to its key.
pub open spec fn flushed(state: YamlState) -> YamlState {
    match state.pending {
        Some((key, items)) => YamlState {
            members: put_sorted(state.members, key, JsonView::Array(items)),
            pending: None,
        },
        None => state,
    }
}

/// The state after a line that is not part of a list: `key: value` binds
/// the scalar to the key, `key:` alone opens a list, a line without a
/// colon is an error if it begins with a dash and is skipped otherwise.
pub open spec fn after_entry(state: YamlState, line: Seq<char>) -> Option<YamlState> {
    match index_of(line, ':') {
        Some(at) => {
            let key = trimmed(line.subrange(0, at));
            let rest = trimmed(line.subrange(at + 1, line.len() as int));
            if rest.len() == 0 {
                Some(YamlState { members: state.members, pending: Some((key, Seq::empty())) })
            } else {
                Some(YamlState { members: put_sorted(state.members, key, scalar(rest)), pending: None })
            }
        },
        None => if trimmed(line)[0] == '-' {
            None
        } else {
            Some(state)
        },
    }
}

/// The state after one more line, or nothing on an error. A blank line
/// changes nothing. While a list is read, a line that begins with a dash
/// adds the scalar behind its dashes to the list; any other line closes
/// the list and is then read as an entry.
pub open spec fn after_line(state: YamlState, line: Seq<char>) -> Option<YamlState> {
    let t = trimmed(line);
    if t.len() == 0 {
        Some(state)
    } else {
        match state.pending {
            Some((key, items)) => if t[0] == '-' {
                Some(
                    YamlState {
                        members: state.members,
                        pending: Some((key, items.push(scalar(trimmed(without_leading(t, '-')))))),
                    },
                )
            } else {
                after_entry(flushed(state), line)
            },
            None => after_entry(state, line),
        }
    }
}

/// The state after the lines, or nothing on an error.
pub open spec fn after_lines(state: YamlState, lines: Seq<Seq<char>>) -> Option<YamlState>
    decreases lines.len(),
{
    if lines.len() == 0 {
        Some(state)
    } else {
        match after_lines(state, lines.drop_last()) {
            Some(s) => after_line(s, lines.last()),
            None => None,
        }
    }
}

/// The object that a front-matter block stands for, or nothing where a
/// list item stands without a key.
pub open spec fn yaml_value(input: Seq<char>) -> Option<JsonView> {
    match after_lines(YamlState { members: Seq::empty(), pending: None }, lines_of(input)) {
        Some(state) => Some(JsonView::Object(flushed(state).members)),
        None => None,
    }
}

/// The message for a list item that stands without a key.
pub open spec fn stray_item_message() -> Seq<char> {
    "unexpected list item without key in front matter"@
}

/// The view of what the exec reader holds as its state.
pub open spec fn state_view(
    members: Seq<(String, JsonValue)>,
    key: Option<String>,
    items: Seq<JsonValue>,
) -> YamlState {
    YamlState {
        members: member_views(members),
        pending: match key {
            Some(k) => Some((k@, item_views(items))),
            None => None,
        },
    }
}

/// Reads a front-matter block as an object.
pub fn parse_yaml_like(input: &[char]) -> (r: Result<JsonValue, OpenCodeError>)
    ensures
        match r {
            Ok(value) => yaml_value(input@) == Some(value@),
            Err(e) => yaml_value(input@) is None && (e matches OpenCodeError::Config(m) && m@
                == stray_item_message()),
        },
{
    let all_lines = lines(input);
    let ghost texts = char_views(all_lines@);
    let ghost start = YamlState { members: Seq::empty(), pending: None };
    let mut members: Vec<(String, JsonValue)> = Vec::new();
    let mut pending_key: Option<String> = None;
    let mut pending_values: Vec<JsonValue> = Vec::new();
    let mut i: usize = 0;
    proof {
        assert(texts.subrange(0, 0) =~= Seq::empty());
    }
    while i < all_lines.len()
        invariant
            i <= all_lines@.len(),
            texts == char_views(all_lines@),
            texts == lines_of(input@),
            start == (YamlState { members: Seq::empty(), pending: None }),
            pending_key is None ==> pending_values@.len() == 0,
            after_lines(start, texts.subrange(0, i as int)) == Some(
                state_view(members@, pending_key, pending_values@),
            ),
        decreases all_lines@.len() - i,
    {
        let line = all_lines[i].as_slice();
        let ghost state = state_view(members@, pending_key, pending_values@);
        proof {
            assert(texts.subrange(0, i + 1).drop_last() =~= texts.subrange(0, i as int));
            assert(texts.subrange(0, i + 1).last() == line@);
        }
        let t = trim_chars(line);
        if t.len() == 0 {
            i += 1;
            continue;
        }
        if pending_key.is_some() {
            if t[0] == '-' {
                let dashes = leading_run(t.as_slice(), '-');
                let rest = vstd::slice::slice_subrange(t.as_slice(), dashes, t.len());
                let piece = trim_chars(rest);
                let item = parse_scalar(piece.as_slice());
                let ghost before = pending_values@;
                pending_values.push(item);
                proof {
                    assert(pending_values@.drop_last() =~= before);
                    lemma_scalar_of_trimmed(rest@);
                }
                i += 1;
                continue;
            }
            let key = pending_key.take().unwrap();
            let mut values: Vec<JsonValue> = Vec::new();
            core::mem::swap(&mut values, &mut pending_values);
            insert_member(&mut members, key, JsonValue::Array(values));
        }
        let ghost open_state = flushed(state);
        assert(state_view(members@, pending_key, pending_values@) == open_state);
        match find_char(line, ':') {
            Some(at) => {
                let key_chars = trim_chars(vstd::slice::slice_subrange(line, 0, at));
                let rest = trim_chars(vstd::slice::slice_subrange(line, at + 1, line.len()));
                let key = from_chars(key_chars.as_slice());
                if rest.len() == 0 {
                    pending_key = Some(key);
                    pending_values = Vec::new();
                } else {
                    let value = parse_scalar(rest.as_slice());
                    proof {
                        lemma_scalar_of_trimmed(line@.subrange(at + 1, line@.len() as int));
                    }
                    insert_member(&mut members, key, value);
                }
            },
            None => {
                if t[0] == '-' {
                    proof {
                        lemma_lines_error(start, texts, i as int + 1);
                    }
                    return Err(
                        OpenCodeError::Config(
                            "unexpected list item without key in front matter".to_owned(),
                        ),
                    );
                }
            },
        }
        i += 1;
    }
    assert(texts.subrange(0, texts.len() as int) =~= texts);
    if let Some(key) = pending_key {
        insert_member(&mut members, key, JsonValue::Array(pending_values));
    }
    Ok(JsonValue::Object(members))
}

/// Trimming a text twice is trimming it once, so the scalar of a trimmed
/// text is the scalar of the text.
pub proof fn lemma_scalar_of_trimmed(text: Seq<char>)
    ensures
        scalar(trimmed(text)) == scalar(text),
{
    crate::util::text::lemma_trim_idempotent(text);
}

/// Where a prefix of the lines fails, so do all the lines.
pub proof fn lemma_lines_error(state: YamlState, lines: Seq<Seq<char>>, n: int)
    requires
        0 <= n <= lines.len(),
        after_lines(state, lines.subrange(0, n)) is None,
    ensures
        after_lines(state, lines) is None,
    decreases lines.len(),
{
    if n < lines.len() {
        assert(lines.drop_last().subrange(0, n) =~= lines.subrange(0, n));
        lemma_lines_error(state, lines.drop_last(), n);
    } else {
        assert(lines.subrange(0, n) =~= lines);
    }
}


/// The position of the first line that holds `---` alone.
pub open spec fn closing(lines: Seq<Seq<char>>) -> Option<int>
    decreases lines.len(),
{
    if lines.len() == 0 {
        None
    } else {
        match closing(lines.drop_last()) {
            Some(k) => Some(k),
            None => if trimmed(lines.last()) == "---"@ {
                Some(lines.len() - 1)
            } else {
                None
            },
        }
    }
}

/// The position that `closing` reports holds `---` alone and is the first
/// to.
pub proof fn lemma_closing(lines: Seq<Seq<char>>)
    ensures
        match closing(lines) {
            Some(k) => 0 <= k < lines.len() && trimmed(lines[k]) == "---"@ && forall|j: int|
                0 <= j < k ==> trimmed(#[trigger] lines[j]) != "---"@,
            None => forall|j: int| 0 <= j < lines.len() ==> trimmed(#[trigger] lines[j]) != "---"@,
        },
    decreases lines.len(),
{
    if lines.len() > 0 {
        lemma_closing(lines.drop_last());
        let front = lines.drop_last();
        assert(forall|j: int| 0 <= j < front.len() ==> front[j] == lines[j]);
    }
}

/// The message for a document whose first line opens no front matter.
pub open spec fn bad_start_message() -> Seq<char> {
    "front matter must start with '---'"@
}

/// The message for front matter that is not closed.
pub open spec fn unterminated_message() -> Seq<char> {
    "unterminated front matter, expected closing '---'"@
}

/// The data of a front-matter block: `null` where the block is blank,
/// else the object that it stands for.
pub open spec fn block_data(yaml: Seq<char>) -> Result<JsonView, Seq<char>> {
    if is_blank(yaml) {
        Ok(JsonView::Null)
    } else {
        match yaml_value(yaml) {
            Some(v) => Ok(v),
            None => Err(stray_item_message()),
        }
    }
}

/// A document without its byte-order marks and leading white space.
pub open spec fn document_start(input: Seq<char>) -> Seq<char> {
    trim_start(without_leading(input, '\u{feff}'))
}

/// What a document reads as. One that does not begin with `---` has an
/// empty object as data and itself, trimmed, as content. Otherwise its
/// first line must be `---` alone, the lines up to the next such line
/// are the block that gives the data, and the lines behind it, joined and
/// trimmed, are the content.
pub open spec fn front_matter(input: Seq<char>) -> Result<FrontMatterView, Seq<char>> {
    let front = document_start(input);
    if !starts_with(front, "---"@) {
        Ok(FrontMatterView { data: JsonView::Object(Seq::empty()), content: trimmed(front) })
    } else {
        let lines = lines_of(front);
        if lines.len() == 0 || trimmed(lines[0]) != "---"@ {
            Err(bad_start_message())
        } else {
            let rest = lines.skip(1);
            match closing(rest) {
                None => Err(unterminated_message()),
                Some(k) => match block_data(joined(rest.subrange(0, k), "\n"@)) {
                    Ok(data) => Ok(
                        FrontMatterView {
                            data,
                            content: trimmed(
                                joined(rest.subrange(k + 1, rest.len() as int), "\n"@),
                            ),
                        },
                    ),
                    Err(e) => Err(e),
                },
            }
        }
    }
}

/// The strings of the lines.
fn line_strings(pieces: &[Vec<char>]) -> (r: Vec<String>)
    ensures
        texts(r@) == char_views(pieces@),
{
    let mut out: Vec<String> = Vec::new();
    let mut i: usize = 0;
    while i < pieces.len()
        invariant
            i <= pieces@.len(),
            texts(out@) == char_views(pieces@.subrange(0, i as int)),
        decreases pieces@.len() - i,
    {
        let piece = from_chars(pieces[i].as_slice());
        proof {
            lemma_texts_push(out@, piece);
        }
        out.push(piece);
        i += 1;
        assert(texts(out@) =~= char_views(pieces@.subrange(0, i as int)));
    }
    assert(pieces@.subrange(0, pieces@.len() as int) =~= pieces@);
    out
}

/// Reads a document with front matter. The error is a configuration
/// error with the message of what is wrong.
pub fn parse_front_matter(input: &str) -> (r: Result<FrontMatter<JsonValue>, OpenCodeError>)
    ensures
        match r {
            Ok(document) => front_matter(input@) == Ok::<FrontMatterView, Seq<char>>(document@),
            Err(e) => e matches OpenCodeError::Config(m) && front_matter(input@) == Err::<
                FrontMatterView,
                Seq<char>,
            >(m@),
        },
{
    let chars = to_chars(input);
    let marks = leading_run(chars.as_slice(), '\u{feff}');
    let unmarked = vstd::slice::slice_subrange(chars.as_slice(), marks, chars.len());
    let spaces = leading_space(unmarked);
    let front = vstd::slice::slice_subrange(unmarked, spaces, unmarked.len());
    assert(front@ == document_start(input@));
    if !has_prefix(front, "---") {
        let content = trim_chars(front);
        let members: Vec<(String, JsonValue)> = Vec::new();
        return Ok(
            FrontMatter {
                data: JsonValue::Object(members),
                content: from_chars(content.as_slice()),
            },
        );
    }
    let all_lines = lines(front);
    let ghost texts_all = char_views(all_lines@);
    if all_lines.len() == 0 {
        return Err(OpenCodeError::Config("front matter must start with '---'".to_owned()));
    }
    let first = trim_chars(all_lines[0].as_slice());
    let marker = to_chars("---");
    if !same_chars(first.as_slice(), marker.as_slice()) {
        assert(texts_all[0] == all_lines@[0]@);
        return Err(OpenCodeError::Config("front matter must start with '---'".to_owned()));
    }
    assert(texts_all[0] == all_lines@[0]@);
    let rest = vstd::slice::slice_subrange(all_lines.as_slice(), 1, all_lines.len());
    let ghost rest_texts = texts_all.skip(1);
    assert(char_views(rest@) =~= rest_texts);
    let mut k: usize = 0;
    let mut found = false;
    while k < rest.len() && !found
        invariant
            k <= rest@.len(),
            marker@ == "---"@,
            rest_texts == char_views(rest@),
            forall|j: int| 0 <= j < k ==> trimmed(#[trigger] rest_texts[j]) != "---"@,
            found ==> k < rest@.len() && trimmed(rest_texts[k as int]) == "---"@,
        decreases rest@.len() - k + if found { 0int } else { 1int },
    {
        let line = trim_chars(rest[k].as_slice());
        assert(rest_texts[k as int] == rest@[k as int]@);
        if same_chars(line.as_slice(), marker.as_slice()) {
            found = true;
        } else {
            k += 1;
        }
    }
    proof {
        lemma_closing(rest_texts);
    }
    if !found {
        return Err(
            OpenCodeError::Config("unterminated front matter, expected closing '---'".to_owned()),
        );
    }
    assert(closing(rest_texts) == Some(k as int));
    let yaml_lines = line_strings(vstd::slice::slice_subrange(rest, 0, k));
    let content_lines = line_strings(vstd::slice::slice_subrange(rest, k + 1, rest.len()));
    proof {
        assert(char_views(rest@.subrange(0, k as int)) =~= rest_texts.subrange(0, k as int));
        assert(char_views(rest@.subrange(k + 1, rest@.len() as int)) =~= rest_texts.subrange(
            k + 1,
            rest_texts.len() as int,
        ));
    }
    let mut yaml: Vec<char> = Vec::new();
    push_joined(&mut yaml, yaml_lines.as_slice(), "\n");
    assert(yaml@ =~= joined(rest_texts.subrange(0, k as int), "\n"@));
    let (a, b) = trim_bounds(yaml.as_slice());
    let data = if a == b {
        JsonValue::Null
    } else {
        match parse_yaml_like(yaml.as_slice()) {
            Ok(value) => value,
            Err(e) => {
                return Err(e);
            },
        }
    };
    let mut content: Vec<char> = Vec::new();
    push_joined(&mut content, content_lines.as_slice(), "\n");
    assert(content@ =~= joined(rest_texts.subrange(k + 1, rest_texts.len() as int), "\n"@));
    let body = trim_chars(content.as_slice());
    Ok(FrontMatter { data, content: from_chars(body.as_slice()) })
}

} // verus!
