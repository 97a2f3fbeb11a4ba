//! A 128-bit unique identifier, carried on the wire in its canonical
//! hyphenated hexadecimal form. Formatting and parsing are verified; only
//! drawing a fresh random identifier calls outside code.

use vstd::prelude::*;
use vstd::string::*;

use crate::json::{res_view, DecodeError, DecodeErrorV, JsonV, JsonValue};

verus! {

broadcast use vstd::string::group_string_axioms, vstd::array::group_array_axioms;

/// A 128-bit identifier, as its sixteen big-endian bytes.
#[derive(Debug, Clone, Copy, PartialEq, Eq, PartialOrd, Ord, Hash)]
pub struct Uuid {
    /// The sixteen bytes, most significant first.
    pub bytes: [u8; 16],
}

impl View for Uuid {
    type V = Seq<u8>;

    open spec fn view(&self) -> Seq<u8> {
        self.bytes@
    }
}

/// The lowercase hexadecimal digit for a value below sixteen.
pub open spec fn hex_char(d: u8) -> char {
    if d == 0 {
        '0'
    } else if d == 1 {
        '1'
    } else if d == 2 {
        '2'
    } else if d == 3 {
        '3'
    } else if d == 4 {
        '4'
    } else if d == 5 {
        '5'
    } else if d == 6 {
        '6'
    } else if d == 7 {
        '7'
    } else if d == 8 {
        '8'
    } else if d == 9 {
        '9'
    } else if d == 10 {
        'a'
    } else if d == 11 {
        'b'
    } else if d == 12 {
        'c'
    } else if d == 13 {
        'd'
    } else if d == 14 {
        'e'
    } else {
        'f'
    }
}

/// The value a character denotes as a hexadecimal digit, either case.
pub open spec fn hex_val(c: char) -> Option<u8> {
    if c == '0' {
        Some(0u8)
    } else if c == '1' {
        Some(1u8)
    } else if c == '2' {
        Some(2u8)
    } else if c == '3' {
        Some(3u8)
    } else if c == '4' {
        Some(4u8)
    } else if c == '5' {
        Some(5u8)
    } else if c == '6' {
        Some(6u8)
    } else if c == '7' {
        Some(7u8)
    } else if c == '8' {
        Some(8u8)
    } else if c == '9' {
        Some(9u8)
    } else if c == 'a' || c == 'A' {
        Some(10u8)
    } else if c == 'b' || c == 'B' {
        Some(11u8)
    } else if c == 'c' || c == 'C' {
        Some(12u8)
    } else if c == 'd' || c == 'D' {
        Some(13u8)
    } else if c == 'e' || c == 'E' {
        Some(14u8)
    } else if c == 'f' || c == 'F' {
        Some(15u8)
    } else {
        None
    }
}

/// The positions of the dashes in the hyphenated form.
pub open spec fn is_dash_pos(j: int) -> bool {
    j == 8 || j == 13 || j == 18 || j == 23
}

/// Where byte `i`'s first hexadecimal digit sits in the hyphenated form.
pub open spec fn hex_pos(i: int) -> int {
    if i < 4 {
        2 * i
    } else if i < 6 {
        2 * i + 1
    } else if i < 8 {
        2 * i + 2
    } else if i < 10 {
        2 * i + 3
    } else {
        2 * i + 4
    }
}

/// Which byte the character at a non-dash position belongs to.
pub open spec fn byte_of_pos(j: int) -> int {
    if j < 8 {
        j / 2
    } else if j < 13 {
        (j - 1) / 2
    } else if j < 18 {
        (j - 2) / 2
    } else if j < 23 {
        (j - 3) / 2
    } else {
        (j - 4) / 2
    }
}

/// The character at position `j` of the hyphenated form of `bs`.
pub open spec fn uuid_char_at(bs: Seq<u8>, j: int) -> char {
    if is_dash_pos(j) {
        '-'
    } else {
        let i = byte_of_pos(j);
        if j == hex_pos(i) {
            hex_char(bs[i] / 16)
        } else {
            hex_char(bs[i] % 16)
        }
    }
}

/// The canonical hyphenated form: groups of 4, 2, 2, 2 and 6 bytes in
/// lowercase hexadecimal, separated by dashes.
pub open spec fn uuid_chars(bs: Seq<u8>) -> Seq<char> {
    Seq::new(36, |j: int| uuid_char_at(bs, j))
}

/// The text has the canonical hyphenated shape: 36 characters, dashes at
/// positions 8, 13, 18 and 23, hexadecimal digits everywhere else.
pub open spec fn is_uuid_str(s: Seq<char>) -> bool {
    &&& s.len() == 36
    &&& s[8] == '-'
    &&& s[13] == '-'
    &&& s[18] == '-'
    &&& s[23] == '-'
    &&& forall|j: int| 0 <= j < 36 && !is_dash_pos(j) ==> (#[trigger] hex_val(s[j])) is Some
}

/// The byte at index `i` that the hyphenated text denotes.
pub open spec fn parsed_byte(s: Seq<char>, i: int) -> u8 {
    (hex_val(s[hex_pos(i)])->Some_0 * 16 + hex_val(s[hex_pos(i) + 1])->Some_0) as u8
}

/// What parsing a hyphenated text yields: its sixteen bytes where it has
/// the canonical shape, and nothing otherwise.
pub open spec fn uuid_parse(s: Seq<char>) -> Option<Seq<u8>> {
    if is_uuid_str(s) {
        Some(Seq::new(16, |i: int| parsed_byte(s, i)))
    } else {
        None
    }
}

/// A one-character string slice for a hexadecimal digit.
fn hex_str(d: u8) -> (r: &'static str)
    requires
        d < 16,
    ensures
        r@ =~= seq![hex_char(d)],
{
    proof {
        reveal_strlit("0");
        reveal_strlit("1");
        reveal_strlit("2");
        reveal_strlit("3");
        reveal_strlit("4");
        reveal_strlit("5");
        reveal_strlit("6");
        reveal_strlit("7");
        reveal_strlit("8");
        reveal_strlit("9");
        reveal_strlit("a");
        reveal_strlit("b");
        reveal_strlit("c");
        reveal_strlit("d");
        reveal_strlit("e");
        reveal_strlit("f");
    }
    match d {
        0 => "0",
        1 => "1",
        2 => "2",
        3 => "3",
        4 => "4",
        5 => "5",
        6 => "6",
        7 => "7",
        8 => "8",
        9 => "9",
        10 => "a",
        11 => "b",
        12 => "c",
        13 => "d",
        14 => "e",
        _ => "f",
    }
}

/// The value a character denotes as a hexadecimal digit.
fn hex_val_of(c: char) -> (r: Option<u8>)
    ensures
        r == hex_val(c),
{
    match c {
        '0' => Some(0),
        '1' => Some(1),
        '2' => Some(2),
        '3' => Some(3),
        '4' => Some(4),
        '5' => Some(5),
        '6' => Some(6),
        '7' => Some(7),
        '8' => Some(8),
        '9' => Some(9),
        'a' | 'A' => Some(10),
        'b' | 'B' => Some(11),
        'c' | 'C' => Some(12),
        'd' | 'D' => Some(13),
        'e' | 'E' => Some(14),
        'f' | 'F' => Some(15),
        _ => None,
    }
}

/// Where byte `i`'s first hexadecimal digit sits in the hyphenated form.
fn hex_pos_of(i: usize) -> (r: usize)
    requires
        i < 16,
    ensures
        r as int == hex_pos(i as int),
        r <= 34,
{
    if i < 4 {
        2 * i
    } else if i < 6 {
        2 * i + 1
    } else if i < 8 {
        2 * i + 2
    } else if i < 10 {
        2 * i + 3
    } else {
        2 * i + 4
    }
}

/// Reads the byte whose two hexadecimal digits start at position `p`.
fn parse_byte_at(s: &str, p: usize) -> (r: Option<u8>)
    requires
        p < 35,
        p + 1 < s@.len(),
    ensures
        match r {
            Some(b) => hex_val(s@[p as int]) is Some && hex_val(s@[p + 1]) is Some && b == (hex_val(
                s@[p as int],
            )->Some_0 * 16 + hex_val(s@[p + 1])->Some_0) as u8,
            None => hex_val(s@[p as int]) is None || hex_val(s@[p + 1]) is None,
        },
{
    let hi = match hex_val_of(s.get_char(p)) {
        Some(h) => h,
        None => {
            return None;
        },
    };
    let lo = match hex_val_of(s.get_char(p + 1)) {
        Some(l) => l,
        None => {
            return None;
        },
    };
    Some(hi * 16 + lo)
}

/// Relies on `conjure_object::Uuid::new_v4` (the `uuid` crate's version-4
/// generator): sixteen random bytes with the version nibble set to 4 and
/// the variant bits set to the RFC 9562 pattern. Nothing else is promised
/// of a random identifier.
#[verifier::external_body]
fn random_v4_bytes() -> (r: [u8; 16])
    ensures
        r@[6] & 0xf0 == 0x40,
        r@[8] & 0xc0 == 0x80,
{
    *conjure_object::Uuid::new_v4().as_bytes()
}

/// Sixteen bytes with the version-4 and RFC variant bits in place.
pub open spec fn is_v4_bytes(b: Seq<u8>) -> bool {
    b.len() == 16 && b[6] & 0xf0 == 0x40 && b[8] & 0xc0 == 0x80
}

impl Uuid {
    /// The version-4 and RFC variant bits are in place.
    pub open spec fn is_version4(self) -> bool {
        is_v4_bytes(self@)
    }

    /// An identifier from its sixteen big-endian bytes.
    pub fn from_bytes(bytes: [u8; 16]) -> (r: Uuid)
        ensures
            r@ == bytes@,
    {
        Uuid { bytes }
    }

    /// A fresh random version-4 identifier. Two calls are expected to
    /// differ; nothing beyond the version and variant bits is promised.
    pub fn new_v4() -> (r: Uuid)
        ensures
            r.is_version4(),
    {
        Uuid { bytes: random_v4_bytes() }
    }

    /// The canonical hyphenated lowercase form.
    pub fn to_hyphenated(&self) -> (r: String)
        ensures
            r@ == uuid_chars(self@),
    {
        let mut s = String::new();
        let mut i: usize = 0;
        proof {
            assert(s@ =~= uuid_chars(self@).take(0));
        }
        while i < 16
            invariant
                i <= 16,
                i == 0 ==> s@ == uuid_chars(self@).take(0),
                i > 0 ==> s@ == uuid_chars(self@).take(hex_pos(i - 1) + 2),
            decreases 16 - i,
        {
            let ghost flat = uuid_chars(self@);
            if i == 4 || i == 6 || i == 8 || i == 10 {
                s.append("-");
                proof {
                    reveal_strlit("-");
                    assert("-"@ =~= seq!['-']);
                    assert(flat[hex_pos(i as int) - 1] == '-');
                    assert(s@ =~= flat.take(hex_pos(i as int)));
                }
            } else {
                proof {
                    if i > 0 {
                        assert(hex_pos(i - 1) + 2 == hex_pos(i as int));
                    }
                    assert(s@ =~= flat.take(hex_pos(i as int)));
                }
            }
            push_byte_hex(&mut s, self.bytes[i]);
            proof {
                assert(flat[hex_pos(i as int)] == hex_char(self@[i as int] / 16));
                assert(flat[hex_pos(i as int) + 1] == hex_char(self@[i as int] % 16));
                assert(s@ =~= flat.take(hex_pos(i as int) + 2));
            }
            i += 1;
        }
        proof {
            assert(uuid_chars(self@).take(hex_pos(15) + 2) =~= uuid_chars(self@));
        }
        s
    }

    /// Parses the canonical hyphenated form, either digit case; any other
    /// shape yields nothing.
    pub fn parse(s: &str) -> (r: Option<Uuid>)
        ensures
            match r {
                Some(u) => uuid_parse(s@) == Some(u@),
                None => uuid_parse(s@) is None,
            },
    {
        if s.unicode_len() != 36 {
            return None;
        }
        if s.get_char(8) != '-' || s.get_char(13) != '-' || s.get_char(18) != '-' || s.get_char(23)
            != '-' {
            return None;
        }
        let mut bytes: [u8; 16] = [0;16];
        let mut i: usize = 0;
        while i < 16
            invariant
                i <= 16,
                s@.len() == 36,
                forall|k: int|
                    0 <= k < i ==> hex_val(s@[#[trigger] hex_pos(k)]) is Some && hex_val(
                        s@[hex_pos(k) + 1],
                    ) is Some && bytes@[k] == parsed_byte(s@, k),
            decreases 16 - i,
        {
            let p = hex_pos_of(i);
            match parse_byte_at(s, p) {
                Some(b) => {
                    bytes[i] = b;
                },
                None => {
                    proof {
                        assert(!is_dash_pos(hex_pos(i as int)));
                        assert(!is_dash_pos(hex_pos(i as int) + 1));
                        assert(!is_uuid_str(s@));
                    }
                    return None;
                },
            }
            i += 1;
        }
        proof {
            assert forall|j: int| 0 <= j < 36 && !is_dash_pos(j) implies (#[trigger] hex_val(
                s@[j],
            )) is Some by {
                let k = byte_of_pos(j);
                assert(j == hex_pos(k) || j == hex_pos(k) + 1);
            }
            assert(is_uuid_str(s@));
            assert(bytes@ =~= Seq::new(16, |i: int| parsed_byte(s@, i)));
        }
        Some(Uuid { bytes })
    }

    /// Encodes the identifier as its wire form: the hyphenated string.
    pub fn to_json(&self) -> (r: JsonValue)
        ensures
            r@ == JsonV::Str(uuid_chars(self@)),
    {
        JsonValue::String(self.to_hyphenated())
    }

    /// Decodes the wire form: a string in the canonical hyphenated shape.
    pub fn from_json(v: &JsonValue) -> (r: Result<Uuid, DecodeError>)
        ensures
            res_view(r) == Uuid::spec_from_json(v@),
    {
        match v {
            JsonValue::String(s) => match Uuid::parse(s.as_str()) {
                Some(u) => Ok(u),
                None => Err(DecodeError::TypeMismatch(String::from_str("Uuid"))),
            },
            _ => Err(DecodeError::TypeMismatch(String::from_str("Uuid"))),
        }
    }

    /// What decoding a wire value yields: the parsed identifier, or a
    /// mismatch for a malformed string or any non-string shape.
    pub open spec fn spec_from_json(v: JsonV) -> Result<Seq<u8>, DecodeErrorV> {
        match v {
            JsonV::Str(s) => match uuid_parse(s) {
                Some(b) => Ok(b),
                None => Err(DecodeErrorV::TypeMismatch("Uuid"@)),
            },
            _ => Err(DecodeErrorV::TypeMismatch("Uuid"@)),
        }
    }
}

/// Appends a byte's two hexadecimal digits.
fn push_byte_hex(s: &mut String, b: u8)
    ensures
        final(s)@ == old(s)@ + seq![hex_char(b / 16), hex_char(b % 16)],
{
    s.append(hex_str(b / 16));
    s.append(hex_str(b % 16));
    proof {
        assert(final(s)@ =~= old(s)@ + seq![hex_char(b / 16), hex_char(b % 16)]);
    }
}

/// A hexadecimal digit formats to a character that parses back to it.
proof fn lemma_hex_char_val(d: u8)
    requires
        d < 16,
    ensures
        hex_val(hex_char(d)) == Some(d),
{
}

/// Parsing the canonical form an identifier formats to gives back the
/// identifier: the hyphenated text carries all sixteen bytes faithfully.
pub proof fn lemma_uuid_round_trip(bs: Seq<u8>)
    requires
        bs.len() == 16,
    ensures
        uuid_parse(uuid_chars(bs)) == Some(bs),
{
    let s = uuid_chars(bs);
    assert forall|j: int| 0 <= j < 36 && !is_dash_pos(j) implies (#[trigger] hex_val(
        s[j],
    )) is Some by {
        let i = byte_of_pos(j);
        lemma_hex_char_val(bs[i] / 16);
        lemma_hex_char_val(bs[i] % 16);
    }
    assert(is_uuid_str(s));
    assert forall|i: int| 0 <= i < 16 implies parsed_byte(s, i) == bs[i] by {
        assert(byte_of_pos(hex_pos(i)) == i);
        assert(byte_of_pos(hex_pos(i) + 1) == i);
        assert(!is_dash_pos(hex_pos(i)));
        assert(!is_dash_pos(hex_pos(i) + 1));
        lemma_hex_char_val(bs[i] / 16);
        lemma_hex_char_val(bs[i] % 16);
    }
    assert(uuid_parse(s)->Some_0 =~= bs);
}

} // verus!
