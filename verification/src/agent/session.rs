//! Identity of one role invocation.

use vstd::prelude::*;
use crate::util::text::{from_chars, to_chars};

verus! {

/// The 128 bits of a session's universally unique identifier, the first
/// byte of its text form in the highest bits.
#[derive(Debug, Clone, Copy, PartialEq, Eq, Hash, Structural)]
pub struct SessionId {
    pub value: u128,
}

impl SessionId {
    /// The identifier whose bits are all zero.
    pub fn nil() -> (r: Self)
        ensures
            r.value == 0,
    {
        SessionId { value: 0 }
    }

    /// Whether the bits carry the marks of a random identifier: version 4
    /// in the version field, and the standard variant.
    pub open spec fn is_random(self) -> bool {
        self.value & 0x0000_0000_0000_f000_c000_0000_0000_0000
            == 0x0000_0000_0000_4000_8000_0000_0000_0000
    }
}

/// `Uuid::new_v4` draws a random identifier; `as_u128` gives its bits. The
/// version and variant fields of every outcome are those of a random
/// identifier; nothing else is known of it.
#[verifier::external_body]
fn random_bits() -> (r: u128)
    ensures
        r & 0x0000_0000_0000_f000_c000_0000_0000_0000 == 0x0000_0000_0000_4000_8000_0000_0000_0000,
{
    uuid::Uuid::new_v4().as_u128()
}

/// One role invocation, known by a fresh identifier.
#[derive(Debug)]
pub struct Session {
    id: SessionId,
}

impl Session {
    /// A session under a freshly drawn random identifier.
    pub fn new() -> (r: Self)
        ensures
            r.spec_id().is_random(),
    {
        Session { id: SessionId { value: random_bits() } }
    }

    /// A session under a given identifier.
    pub fn with_id(id: SessionId) -> (r: Self)
        ensures
            r.spec_id() == id,
    {
        Session { id }
    }

    /// The identifier.
    pub closed spec fn spec_id(&self) -> SessionId {
        self.id
    }

    /// The identifier.
    pub fn id(&self) -> (r: SessionId)
        ensures
            r == self.spec_id(),
    {
        self.id
    }
}


/// The character of a hexadecimal digit, in lower case.
pub open spec fn hex_char(d: u128) -> char {
    if d == 0 {
        '0'
    } else if d == 1 {
        '1'
    } else if d == 2 {
        '2'
    } else if d == 3 {
        '3'
    } else if d == 4 {
        '4'
    } else if d == 5 {
        '5'
    } else if d == 6 {
        '6'
    } else if d == 7 {
        '7'
    } else if d == 8 {
        '8'
    } else if d == 9 {
        '9'
    } else if d == 10 {
        'a'
    } else if d == 11 {
        'b'
    } else if d == 12 {
        'c'
    } else if d == 13 {
        'd'
    } else if d == 14 {
        'e'
    } else {
        'f'
    }
}

/// The hexadecimal digit of `value` at place `index`, place 0 the highest
/// of thirty-two.
pub open spec fn nibble(value: u128, index: int) -> u128 {
    (value >> ((4 * (31 - index)) as u128)) & 0xf
}

/// Whether a hyphen stands at this place of the text form.
pub open spec fn is_hyphen_place(place: int) -> bool {
    place == 8 || place == 13 || place == 18 || place == 23
}

/// The number of the digit that stands at this place of the text form.
pub open spec fn digit_index(place: int) -> int {
    place - (if place > 8 {
        1int
    } else {
        0int
    }) - (if place > 13 {
        1int
    } else {
        0int
    }) - (if place > 18 {
        1int
    } else {
        0int
    }) - (if place > 23 {
        1int
    } else {
        0int
    })
}

/// The text form of an identifier: thirty-two hexadecimal digits in lower
/// case, in groups of eight, four, four, four and twelve with a hyphen
/// between them.
pub open spec fn hyphenated(value: u128) -> Seq<char> {
    Seq::new(
        36,
        |place: int|
            if is_hyphen_place(place) {
                '-'
            } else {
                hex_char(nibble(value, digit_index(place)))
            },
    )
}

/// Whether the first `n` characters of a text are those of the text form
/// of `v`.
pub open spec fn agrees(text: Seq<char>, v: u128, n: int) -> bool {
    forall|p: int| 0 <= p < n ==> text[p] == #[trigger] hyphenated(v)[p]
}

fn hex_digit(d: u128) -> (c: char)
    requires
        d < 16,
    ensures
        c == hex_char(d),
{
    if d == 0 {
        '0'
    } else if d == 1 {
        '1'
    } else if d == 2 {
        '2'
    } else if d == 3 {
        '3'
    } else if d == 4 {
        '4'
    } else if d == 5 {
        '5'
    } else if d == 6 {
        '6'
    } else if d == 7 {
        '7'
    } else if d == 8 {
        '8'
    } else if d == 9 {
        '9'
    } else if d == 10 {
        'a'
    } else if d == 11 {
        'b'
    } else if d == 12 {
        'c'
    } else if d == 13 {
        'd'
    } else if d == 14 {
        'e'
    } else {
        'f'
    }
}

fn hex_value(c: char) -> (r: Option<u128>)
    ensures
        match r {
            Some(d) => d < 16 && hex_char(d) == c,
            None => forall|d: u128| hex_char(d) != c,
        },
{
    if c == '0' {
        Some(0)
    } else if c == '1' {
        Some(1)
    } else if c == '2' {
        Some(2)
    } else if c == '3' {
        Some(3)
    } else if c == '4' {
        Some(4)
    } else if c == '5' {
        Some(5)
    } else if c == '6' {
        Some(6)
    } else if c == '7' {
        Some(7)
    } else if c == '8' {
        Some(8)
    } else if c == '9' {
        Some(9)
    } else if c == 'a' {
        Some(10)
    } else if c == 'b' {
        Some(11)
    } else if c == 'c' {
        Some(12)
    } else if c == 'd' {
        Some(13)
    } else if c == 'e' {
        Some(14)
    } else if c == 'f' {
        Some(15)
    } else {
        None
    }
}

proof fn lemma_nibble_bound(value: u128, shift: u128)
    requires
        shift < 128,
    ensures
        (value >> shift) & 0xf < 16,
{
    assert((value >> shift) & 0xf < 16) by (bit_vector);
}

proof fn lemma_push_digit(acc: u128, d: u128, shift: u128)
    requires
        d < 16,
        4 <= shift < 128,
        acc >> 124 == 0,
    ensures
        (((acc << 4) | d) >> shift) & 0xf == (acc >> ((shift - 4) as u128)) & 0xf,
        ((acc << 4) | d) & 0xf == d,
{
    assert((((acc << 4) | d) >> shift) & 0xf == (acc >> ((shift - 4) as u128)) & 0xf) by (bit_vector)
        requires
            d < 16,
            4 <= shift < 128,
            acc >> 124 == 0,
    ;
    assert(((acc << 4) | d) & 0xf == d) by (bit_vector)
        requires
            d < 16,
    ;
}

proof fn lemma_grow(acc: u128, d: u128, width: u128)
    requires
        d < 16,
        width <= 120,
        width == 0 ==> acc == 0,
        width > 0 ==> acc >> width == 0,
    ensures
        ((acc << 4) | d) >> ((width + 4) as u128) == 0,
{
    if width == 0 {
        assert(((0u128 << 4) | d) >> 4 == 0) by (bit_vector)
            requires
                d < 16,
        ;
    } else {
        assert(((acc << 4) | d) >> ((width + 4) as u128) == 0) by (bit_vector)
            requires
                d < 16,
                0 < width <= 120,
                acc >> width == 0,
        ;
    }
}

proof fn lemma_high_zero(acc: u128, width: u128)
    requires
        width <= 124,
        width == 0 ==> acc == 0,
        width > 0 ==> acc >> width == 0,
    ensures
        acc >> 124 == 0,
{
    if width == 0 {
        assert(0u128 >> 124 == 0) by (bit_vector);
    } else {
        assert(acc >> 124 == 0) by (bit_vector)
            requires
                0 < width <= 124,
                acc >> width == 0,
        ;
    }
}

proof fn lemma_rebuild(value: u128, shift: u128)
    requires
        shift <= 120,
    ensures
        ((value >> ((shift + 4) as u128)) << 4) | ((value >> shift) & 0xf) == value >> shift,
{
    assert(((value >> ((shift + 4) as u128)) << 4) | ((value >> shift) & 0xf) == value >> shift)
        by (bit_vector)
        requires
            shift <= 120,
    ;
}

proof fn lemma_top(value: u128)
    ensures
        (0u128 << 4) | ((value >> 124) & 0xf) == value >> 124,
        value >> 0 == value,
{
    assert((0u128 << 4) | ((value >> 124) & 0xf) == value >> 124) by (bit_vector);
    assert(value >> 0 == value) by (bit_vector);
}

impl SessionId {
    /// The text form.
    pub fn to_string(&self) -> (r: String)
        ensures
            r@ == hyphenated(self.value),
    {
        let mut out: Vec<char> = Vec::new();
        let mut place: usize = 0;
        let mut index: u32 = 0;
        while place < 36
            invariant
                place <= 36,
                index == digit_index(place as int),
                out@.len() == place,
                forall|p: int| 0 <= p < place ==> out@[p] == hyphenated(self.value)[p],
            decreases 36 - place,
        {
            if place == 8 || place == 13 || place == 18 || place == 23 {
                out.push('-');
            } else {
                let shift: u32 = 4 * (31 - index);
                proof {
                    lemma_nibble_bound(self.value, shift as u128);
                }
                let d = (self.value >> shift) & 0xf;
                out.push(hex_digit(d));
                index += 1;
            }
            place += 1;
        }
        assert(out@ =~= hyphenated(self.value));
        from_chars(out.as_slice())
    }

    /// The identifier that a text is the text form of, if it is one.
    pub fn parse(text: &str) -> (r: Option<SessionId>)
        ensures
            match r {
                Some(id) => text@ == hyphenated(id.value),
                None => forall|v: u128| text@ != hyphenated(v),
            },
            forall|v: u128| text@ == hyphenated(v) ==> r == Some(SessionId { value: v }),
    {
        let chars = to_chars(text);
        if chars.len() != 36 {
            return None;
        }
        let mut acc: u128 = 0;
        let mut place: usize = 0;
        let mut index: u32 = 0;
        while place < 36
            invariant
                chars@ == text@,
                chars@.len() == 36,
                place <= 36,
                index == digit_index(place as int),
                index <= 32,
                index == 0 ==> acc == 0,
                0 < index < 32 ==> acc >> ((4 * index) as u128) == 0,
                forall|p: int|
                    0 <= p < place ==> chars@[p] == if is_hyphen_place(p) {
                        '-'
                    } else {
                        hex_char(
                            (acc >> ((4 * (index - 1 - digit_index(p))) as u128)) & 0xf,
                        )
                    },
                forall|v: u128|
                    #[trigger] agrees(chars@, v, place as int) && index > 0 ==> acc == v >> ((4 * (32
                        - index)) as u128),
            decreases 36 - place,
        {
            let c = chars[place];
            if place == 8 || place == 13 || place == 18 || place == 23 {
                if c != '-' {
                    assert forall|v: u128| text@ != hyphenated(v) by {
                        assert(hyphenated(v)[place as int] == '-');
                    }
                    return None;
                }
                proof {
                    assert forall|v: u128| #[trigger]
                        agrees(chars@, v, place + 1) implies agrees(chars@, v, place as int) by {}
                }
            } else {
                match hex_value(c) {
                    None => {
                        assert forall|v: u128| text@ != hyphenated(v) by {
                            assert(hyphenated(v)[place as int] == hex_char(
                                nibble(v, digit_index(place as int)),
                            ));
                        }
                        return None;
                    },
                    Some(d) => {
                        let ghost before = acc;
                        proof {
                            if index < 31 {
                                lemma_grow(before, d, (4 * index) as u128);
                            }
                            lemma_high_zero(before, (4 * index) as u128);
                        }
                        acc = (acc << 4) | d;
                        proof {
                            assert forall|p: int| 0 <= p <= place implies chars@[p]
                                == if is_hyphen_place(p) {
                                '-'
                            } else {
                                hex_char((acc >> ((4 * (index - digit_index(p))) as u128)) & 0xf)
                            } by {
                                if !is_hyphen_place(p) {
                                    if p == place {
                                        lemma_push_digit(before, d, 4);
                                        assert(acc >> 0 == acc) by (bit_vector);
                                    } else {
                                        lemma_push_digit(
                                            before,
                                            d,
                                            (4 * (index - digit_index(p))) as u128,
                                        );
                                    }
                                }
                            }
                            assert forall|v: u128| #[trigger]
                                agrees(chars@, v, place + 1) implies acc == v >> ((4 * (31
                                - index)) as u128) by {
                                assert(agrees(chars@, v, place as int));
                                assert(chars@[place as int] == hyphenated(v)[place as int]);
                                let n = nibble(v, index as int);
                                lemma_nibble_bound(v, (4 * (31 - index)) as u128);
                                assert(hex_char(n) == hex_char(d));
                                assert(n == d);
                                if index == 0 {
                                    lemma_top(v);
                                } else {
                                    assert(before == v >> ((4 * (32 - index)) as u128));
                                    lemma_rebuild(v, (4 * (31 - index)) as u128);
                                }
                            }
                        }
                        index += 1;
                    },
                }
            }
            place += 1;
        }
        proof {
            assert(acc >> 0 == acc) by (bit_vector);
            assert(text@ =~= hyphenated(acc));
            assert forall|v: u128| text@ == hyphenated(v) implies acc == v by {
                assert(agrees(chars@, v, 36));
                lemma_top(v);
            }
        }
        Some(SessionId { value: acc })
    }
}

/// Reading the text form of an identifier gives the identifier back.
pub proof fn lemma_text_form_unique(a: u128, b: u128)
    requires
        hyphenated(a) == hyphenated(b),
    ensures
        a == b,
{
    assert forall|i: int| 0 <= i < 32 implies nibble(a, i) == nibble(b, i) by {
        let place = i + (if i >= 8 {
            1int
        } else {
            0int
        }) + (if i >= 12 {
            1int
        } else {
            0int
        }) + (if i >= 16 {
            1int
        } else {
            0int
        }) + (if i >= 20 {
            1int
        } else {
            0int
        });
        assert(digit_index(place) == i);
        assert(hyphenated(a)[place] == hex_char(nibble(a, i)));
        assert(hyphenated(b)[place] == hex_char(nibble(b, i)));
        lemma_nibble_bound(a, (4 * (31 - i)) as u128);
        lemma_nibble_bound(b, (4 * (31 - i)) as u128);
    }
    lemma_nibbles_fix(a, b, 32);
    lemma_top(a);
    lemma_top(b);
}

proof fn lemma_nibbles_fix(a: u128, b: u128, k: int)
    requires
        0 < k <= 32,
        forall|i: int| 0 <= i < 32 ==> nibble(a, i) == nibble(b, i),
    ensures
        a >> ((4 * (32 - k)) as u128) == b >> ((4 * (32 - k)) as u128),
    decreases k,
{
    assert(nibble(a, k - 1) == nibble(b, k - 1));
    if k == 1 {
        lemma_top(a);
        lemma_top(b);
    } else {
        lemma_nibbles_fix(a, b, k - 1);
        lemma_rebuild(a, (4 * (32 - k)) as u128);
        lemma_rebuild(b, (4 * (32 - k)) as u128);
    }
}

} // verus!
