//! The standard base64 text form used for binary values in plain text:
//! the usual alphabet, `=` padding, and strict decoding that rejects
//! non-canonical trailing bits.

use vstd::prelude::*;
use vstd::string::*;

verus! {

broadcast use vstd::string::group_string_axioms;

/// The output byte for a six-bit value, over the standard alphabet
/// `A-Z a-z 0-9 + /`.
pub open spec fn b64_byte(d: u8) -> u8 {
    if d < 26 {
        (65 + d) as u8
    } else if d < 52 {
        (97 + (d - 26)) as u8
    } else if d < 62 {
        (48 + (d - 52)) as u8
    } else if d == 62 {
        43
    } else {
        47
    }
}

/// The output character for a six-bit value.
pub open spec fn b64_char(d: u8) -> char {
    b64_byte(d) as char
}

/// The six-bit value a character denotes, if it is of the alphabet.
pub open spec fn b64_val(c: char) -> Option<u8> {
    let n = c as nat;
    if 65 <= n <= 90 {
        Some((n - 65) as u8)
    } else if 97 <= n <= 122 {
        Some((n - 97 + 26) as u8)
    } else if 48 <= n <= 57 {
        Some((n - 48 + 52) as u8)
    } else if n == 43 {
        Some(62u8)
    } else if n == 47 {
        Some(63u8)
    } else {
        None
    }
}

/// The four characters of a full three-byte group.
pub open spec fn b64_group3(a: u8, b: u8, c: u8) -> Seq<char> {
    seq![
        b64_char(a >> 2),
        b64_char(((a & 3) << 4 | b >> 4) as u8),
        b64_char(((b & 15) << 2 | c >> 6) as u8),
        b64_char(c & 63),
    ]
}

/// The four characters of a trailing two-byte group: one pad.
pub open spec fn b64_group2(a: u8, b: u8) -> Seq<char> {
    seq![
        b64_char(a >> 2),
        b64_char(((a & 3) << 4 | b >> 4) as u8),
        b64_char((b & 15) << 2),
        '=',
    ]
}

/// The four characters of a trailing one-byte group: two pads.
pub open spec fn b64_group1(a: u8) -> Seq<char> {
    seq![b64_char(a >> 2), b64_char((a & 3) << 4), '=', '=']
}

/// The base64 text of a byte sequence: full groups, then a padded
/// remainder group if one or two bytes are left over.
pub open spec fn b64_encode(bs: Seq<u8>) -> Seq<char>
    decreases bs.len(),
{
    if bs.len() == 0 {
        Seq::empty()
    } else if bs.len() == 1 {
        b64_group1(bs[0])
    } else if bs.len() == 2 {
        b64_group2(bs[0], bs[1])
    } else {
        b64_group3(bs[0], bs[1], bs[2]) + b64_encode(bs.skip(3))
    }
}

/// What decoding a base64 text yields: the bytes, or nothing for any text
/// that is not the canonical encoding of some byte sequence — a length
/// off the group size, a character outside the alphabet, padding off the
/// end, or non-zero bits under the padding.
pub open spec fn b64_decode(s: Seq<char>) -> Option<Seq<u8>>
    decreases s.len(),
{
    if s.len() == 0 {
        Some(Seq::empty())
    } else if s.len() < 4 {
        None
    } else {
        let v0 = b64_val(s[0]);
        let v1 = b64_val(s[1]);
        if v0 is None || v1 is None {
            None
        } else if s.len() == 4 && s[2] == '=' && s[3] == '=' {
            if v1->Some_0 & 15 == 0 {
                Some(seq![(v0->Some_0 << 2 | v1->Some_0 >> 4) as u8])
            } else {
                None
            }
        } else if s.len() == 4 && s[3] == '=' {
            let v2 = b64_val(s[2]);
            if v2 is None {
                None
            } else if v2->Some_0 & 3 == 0 {
                Some(
                    seq![
                        (v0->Some_0 << 2 | v1->Some_0 >> 4) as u8,
                        (v1->Some_0 << 4 | v2->Some_0 >> 2) as u8,
                    ],
                )
            } else {
                None
            }
        } else {
            let v2 = b64_val(s[2]);
            let v3 = b64_val(s[3]);
            if v2 is None || v3 is None {
                None
            } else {
                match b64_decode(s.skip(4)) {
                    Some(rest) => Some(
                        seq![
                            (v0->Some_0 << 2 | v1->Some_0 >> 4) as u8,
                            (v1->Some_0 << 4 | v2->Some_0 >> 2) as u8,
                            (v2->Some_0 << 6 | v3->Some_0) as u8,
                        ] + rest,
                    ),
                    None => None,
                }
            }
        }
    }
}

/// Relies on `String::from_utf8`: bytes below 128 are valid UTF-8 and
/// decode to exactly those characters, one per byte.
#[verifier::external_body]
fn ascii_to_string(bytes: Vec<u8>) -> (r: String)
    requires
        forall|i: int| 0 <= i < bytes@.len() ==> bytes@[i] < 128,
    ensures
        r@ == bytes@.map_values(|b: u8| b as char),
{
    match String::from_utf8(bytes) {
        Ok(s) => s,
        Err(_) => String::new(),
    }
}

/// The alphabet stays below 128, so the output is ASCII.
proof fn lemma_b64_byte_ascii(d: u8)
    ensures
        b64_byte(d) < 128,
        b64_byte(d) != 61,
{
}

/// A six-bit value's character maps back to the value.
proof fn lemma_b64_char_val(d: u8)
    requires
        d < 64,
    ensures
        b64_val(b64_char(d)) == Some(d),
{
}

/// The output byte for a six-bit value.
fn b64_byte_of(d: u8) -> (r: u8)
    requires
        d < 64,
    ensures
        r == b64_byte(d),
        r < 128,
{
    if d < 26 {
        65 + d
    } else if d < 52 {
        97 + (d - 26)
    } else if d < 62 {
        48 + (d - 52)
    } else if d == 62 {
        43
    } else {
        47
    }
}

/// The six-bit value a character denotes, if any.
fn b64_val_of(c: char) -> (r: Option<u8>)
    ensures
        r == b64_val(c),
{
    let n = c as u32;
    if 65 <= n && n <= 90 {
        Some((n - 65) as u8)
    } else if 97 <= n && n <= 122 {
        Some((n - 97 + 26) as u8)
    } else if 48 <= n && n <= 57 {
        Some((n - 48 + 52) as u8)
    } else if n == 43 {
        Some(62)
    } else if n == 47 {
        Some(63)
    } else {
        None
    }
}

/// Encodes bytes as their canonical base64 text.
pub fn encode(bs: &Vec<u8>) -> (r: String)
    ensures
        r@ == b64_encode(bs@),
{
    let mut out: Vec<u8> = Vec::new();
    let mut i: usize = 0;
    proof {
        assert(bs@.skip(0) =~= bs@);
        assert(out@.map_values(|b: u8| b as char) =~= Seq::<char>::empty());
    }
    while bs.len() - i >= 3
        invariant
            i <= bs@.len(),
            forall|j: int| 0 <= j < out@.len() ==> out@[j] < 128,
            b64_encode(bs@) == out@.map_values(|b: u8| b as char) + b64_encode(
                bs@.skip(i as int),
            ),
        decreases bs@.len() - i,
    {
        let ghost pre = out@;
        let a = bs[i];
        let b = bs[i + 1];
        let c = bs[i + 2];
        proof {
            assert(a >> 2 < 64 && ((a & 3) << 4 | b >> 4) < 64 && ((b & 15) << 2 | c >> 6) < 64
                && c & 63 < 64) by (bit_vector);
        }
        out.push(b64_byte_of(a >> 2));
        out.push(b64_byte_of((a & 3) << 4 | b >> 4));
        out.push(b64_byte_of((b & 15) << 2 | c >> 6));
        out.push(b64_byte_of(c & 63));
        proof {
            assert(bs@.skip(i as int)[0] == a && bs@.skip(i as int)[1] == b && bs@.skip(
                i as int,
            )[2] == c);
            assert(bs@.skip(i as int).skip(3) =~= bs@.skip(i + 3));
            assert(out@.map_values(|x: u8| x as char) =~= pre.map_values(|x: u8| x as char)
                + b64_group3(a, b, c));
        }
        i += 3;
    }
    let ghost pre = out@;
    if bs.len() - i == 1 {
        let a = bs[i];
        proof {
            assert(a >> 2 < 64 && (a & 3) << 4 < 64) by (bit_vector);
        }
        out.push(b64_byte_of(a >> 2));
        out.push(b64_byte_of((a & 3) << 4));
        out.push(61);
        out.push(61);
        proof {
            assert(bs@.skip(i as int) =~= seq![a]);
            assert(61u8 as char == '=');
            assert(out@.map_values(|x: u8| x as char) =~= pre.map_values(|x: u8| x as char)
                + b64_group1(a));
        }
    } else if bs.len() - i == 2 {
        let a = bs[i];
        let b = bs[i + 1];
        proof {
            assert(a >> 2 < 64 && ((a & 3) << 4 | b >> 4) < 64 && (b & 15) << 2 < 64)
                by (bit_vector);
        }
        out.push(b64_byte_of(a >> 2));
        out.push(b64_byte_of((a & 3) << 4 | b >> 4));
        out.push(b64_byte_of((b & 15) << 2));
        out.push(61);
        proof {
            assert(bs@.skip(i as int) =~= seq![a, b]);
            assert(61u8 as char == '=');
            assert(out@.map_values(|x: u8| x as char) =~= pre.map_values(|x: u8| x as char)
                + b64_group2(a, b));
        }
    } else {
        proof {
            assert(bs@.skip(i as int) =~= Seq::<u8>::empty());
            assert(out@.map_values(|x: u8| x as char) =~= pre.map_values(|x: u8| x as char));
        }
    }
    proof {
        assert(b64_encode(bs@) =~= out@.map_values(|b: u8| b as char));
    }
    ascii_to_string(out)
}

/// Decodes canonical base64 text; any other text yields nothing.
pub fn decode(s: &str) -> (r: Option<Vec<u8>>)
    ensures
        match r {
            Some(bs) => b64_decode(s@) == Some(bs@),
            None => b64_decode(s@) is None,
        },
{
    let n = s.unicode_len();
    if n == 0 {
        let empty: Vec<u8> = Vec::new();
        proof {
            assert(b64_decode(s@) == Some(empty@));
        }
        return Some(empty);
    }
    if n % 4 != 0 {
        proof {
            lemma_b64_decode_bad_len(s@);
        }
        return None;
    }
    let mut out: Vec<u8> = Vec::new();
    let mut i: usize = 0;
    proof {
        assert(s@.skip(0) =~= s@);
        match b64_decode(s@) {
            Some(rest) => {
                assert(out@ + rest =~= rest);
            },
            None => {},
        }
    }
    while n - i > 4
        invariant
            n == s@.len(),
            n % 4 == 0,
            i % 4 == 0,
            i + 4 <= n,
            i <= n,
            b64_decode(s@) == (match b64_decode(s@.skip(i as int)) {
                Some(rest) => Some(out@ + rest),
                None => None,
            }),
        decreases n - i,
    {
        let ghost tail = s@.skip(i as int);
        let v0 = match b64_val_of(s.get_char(i)) {
            Some(v) => v,
            None => {
                return None;
            },
        };
        let v1 = match b64_val_of(s.get_char(i + 1)) {
            Some(v) => v,
            None => {
                return None;
            },
        };
        let v2 = match b64_val_of(s.get_char(i + 2)) {
            Some(v) => v,
            None => {
                return None;
            },
        };
        let v3 = match b64_val_of(s.get_char(i + 3)) {
            Some(v) => v,
            None => {
                return None;
            },
        };
        let ghost pre = out@;
        out.push(v0 << 2 | v1 >> 4);
        out.push(v1 << 4 | v2 >> 2);
        out.push(v2 << 6 | v3);
        proof {
            assert(tail.len() > 4);
            assert(tail[0] == s@[i as int] && tail[1] == s@[i + 1] && tail[2] == s@[i + 2]
                && tail[3] == s@[i + 3]);
            assert(tail.skip(4) =~= s@.skip(i + 4));
            assert(out@ =~= pre + seq![
                (v0 << 2 | v1 >> 4) as u8,
                (v1 << 4 | v2 >> 2) as u8,
                (v2 << 6 | v3) as u8,
            ]);
            match b64_decode(s@.skip(i + 4)) {
                Some(rest) => {
                    assert(pre + (seq![
                        (v0 << 2 | v1 >> 4) as u8,
                        (v1 << 4 | v2 >> 2) as u8,
                        (v2 << 6 | v3) as u8,
                    ] + rest) =~= out@ + rest);
                },
                None => {},
            }
        }
        i += 4;
    }
    let ghost tail = s@.skip(i as int);
    proof {
        assert(tail.len() == 4);
        assert(tail[0] == s@[i as int] && tail[1] == s@[i + 1] && tail[2] == s@[i + 2] && tail[3]
            == s@[i + 3]);
        assert(tail.skip(4) =~= Seq::<char>::empty());
    }
    let v0 = match b64_val_of(s.get_char(i)) {
        Some(v) => v,
        None => {
            return None;
        },
    };
    let v1 = match b64_val_of(s.get_char(i + 1)) {
        Some(v) => v,
        None => {
            return None;
        },
    };
    let c2 = s.get_char(i + 2);
    let c3 = s.get_char(i + 3);
    proof {
        assert(b64_val('=') is None);
    }
    if c2 == '=' && c3 == '=' {
        if v1 & 15 != 0 {
            return None;
        }
        out.push(v0 << 2 | v1 >> 4);
        proof {
            assert(b64_decode(tail) == Some(seq![(v0 << 2 | v1 >> 4) as u8]));
            assert(out@ =~= out@.drop_last() + seq![(v0 << 2 | v1 >> 4) as u8]);
        }
        return Some(out);
    }
    if c3 == '=' {
        let v2 = match b64_val_of(c2) {
            Some(v) => v,
            None => {
                return None;
            },
        };
        if v2 & 3 != 0 {
            return None;
        }
        out.push(v0 << 2 | v1 >> 4);
        out.push(v1 << 4 | v2 >> 2);
        proof {
            assert(b64_decode(tail) == Some(seq![
                (v0 << 2 | v1 >> 4) as u8,
                (v1 << 4 | v2 >> 2) as u8,
            ]));
            assert(out@ =~= out@.drop_last().drop_last() + seq![
                (v0 << 2 | v1 >> 4) as u8,
                (v1 << 4 | v2 >> 2) as u8,
            ]);
        }
        return Some(out);
    }
    let v2 = match b64_val_of(c2) {
        Some(v) => v,
        None => {
            return None;
        },
    };
    let v3 = match b64_val_of(c3) {
        Some(v) => v,
        None => {
            return None;
        },
    };
    out.push(v0 << 2 | v1 >> 4);
    out.push(v1 << 4 | v2 >> 2);
    out.push(v2 << 6 | v3);
    proof {
        assert(b64_decode(Seq::<char>::empty()) == Some(Seq::<u8>::empty()));
        assert(b64_decode(tail.skip(4)) == Some(Seq::<u8>::empty()));
        assert(seq![
            (v0 << 2 | v1 >> 4) as u8,
            (v1 << 4 | v2 >> 2) as u8,
            (v2 << 6 | v3) as u8,
        ] + Seq::<u8>::empty() =~= seq![
            (v0 << 2 | v1 >> 4) as u8,
            (v1 << 4 | v2 >> 2) as u8,
            (v2 << 6 | v3) as u8,
        ]);
        assert(b64_decode(tail) == Some(seq![
            (v0 << 2 | v1 >> 4) as u8,
            (v1 << 4 | v2 >> 2) as u8,
            (v2 << 6 | v3) as u8,
        ]));
        assert(out@ =~= out@.drop_last().drop_last().drop_last() + seq![
            (v0 << 2 | v1 >> 4) as u8,
            (v1 << 4 | v2 >> 2) as u8,
            (v2 << 6 | v3) as u8,
        ]);
    }
    Some(out)
}

/// A text whose length is not a multiple of four decodes to nothing.
proof fn lemma_b64_decode_bad_len(s: Seq<char>)
    requires
        s.len() % 4 != 0,
    ensures
        b64_decode(s) is None,
    decreases s.len(),
{
    if s.len() >= 4 {
        assert(s.skip(4).len() % 4 != 0);
        lemma_b64_decode_bad_len(s.skip(4));
    }
}

/// Decoding the canonical text of any byte sequence gives those bytes
/// back: binary survives its plain-text form.
pub proof fn lemma_b64_round_trip(bs: Seq<u8>)
    ensures
        b64_decode(b64_encode(bs)) == Some(bs),
    decreases bs.len(),
{
    if bs.len() == 0 {
        assert(b64_decode(b64_encode(bs)) == Some(Seq::<u8>::empty()));
        assert(Seq::<u8>::empty() =~= bs);
    } else if bs.len() == 1 {
        let a = bs[0];
        let s = b64_group1(a);
        assert(a >> 2 < 64 && (a & 3) << 4 < 64) by (bit_vector);
        lemma_b64_char_val(a >> 2);
        lemma_b64_char_val((a & 3) << 4);
        assert(((a & 3) << 4) & 15 == 0) by (bit_vector);
        assert((a >> 2) << 2 | ((a & 3) << 4) >> 4 == a) by (bit_vector);
        assert(b64_char(a >> 2) != '=' && b64_char((a & 3) << 4) != '=') by {
            lemma_b64_byte_ascii(a >> 2);
            lemma_b64_byte_ascii((a & 3) << 4);
        }
        assert(b64_decode(s) == Some(seq![a]));
        assert(seq![a] =~= bs);
    } else if bs.len() == 2 {
        let a = bs[0];
        let b = bs[1];
        let s = b64_group2(a, b);
        assert(a >> 2 < 64 && ((a & 3) << 4 | b >> 4) < 64 && (b & 15) << 2 < 64) by (bit_vector);
        lemma_b64_char_val(a >> 2);
        lemma_b64_char_val((a & 3) << 4 | b >> 4);
        lemma_b64_char_val((b & 15) << 2);
        lemma_b64_byte_ascii(a >> 2);
        lemma_b64_byte_ascii((a & 3) << 4 | b >> 4);
        lemma_b64_byte_ascii((b & 15) << 2);
        assert(((b & 15) << 2) & 3 == 0) by (bit_vector);
        assert((a >> 2) << 2 | ((a & 3) << 4 | b >> 4) >> 4 == a) by (bit_vector);
        assert(((a & 3) << 4 | b >> 4) << 4 | ((b & 15) << 2) >> 2 == b) by (bit_vector);
        assert(b64_decode(s) == Some(seq![a, b]));
        assert(seq![a, b] =~= bs);
    } else {
        let a = bs[0];
        let b = bs[1];
        let c = bs[2];
        let s = b64_group3(a, b, c) + b64_encode(bs.skip(3));
        assert(b64_encode(bs) == s);
        assert(a >> 2 < 64 && ((a & 3) << 4 | b >> 4) < 64 && ((b & 15) << 2 | c >> 6) < 64 && c
            & 63 < 64) by (bit_vector);
        lemma_b64_char_val(a >> 2);
        lemma_b64_char_val((a & 3) << 4 | b >> 4);
        lemma_b64_char_val((b & 15) << 2 | c >> 6);
        lemma_b64_char_val(c & 63);
        lemma_b64_byte_ascii(a >> 2);
        lemma_b64_byte_ascii((a & 3) << 4 | b >> 4);
        lemma_b64_byte_ascii((b & 15) << 2 | c >> 6);
        lemma_b64_byte_ascii(c & 63);
        lemma_b64_encode_len(bs.skip(3));
        assert(s.len() == 4 + b64_encode(bs.skip(3)).len());
        assert(s[0] == b64_char(a >> 2) && s[1] == b64_char((a & 3) << 4 | b >> 4) && s[2]
            == b64_char((b & 15) << 2 | c >> 6) && s[3] == b64_char(c & 63));
        assert(s[2] != '=' && s[3] != '=');
        assert(s.skip(4) =~= b64_encode(bs.skip(3)));
        lemma_b64_round_trip(bs.skip(3));
        assert((a >> 2) << 2 | ((a & 3) << 4 | b >> 4) >> 4 == a) by (bit_vector);
        assert(((a & 3) << 4 | b >> 4) << 4 | (((b & 15) << 2 | c >> 6)) >> 2 == b) by (bit_vector);
        assert((((b & 15) << 2 | c >> 6)) << 6 | (c & 63) == c) by (bit_vector);
        assert(b64_decode(s) == Some(seq![a, b, c] + bs.skip(3)));
        assert(seq![a, b, c] + bs.skip(3) =~= bs);
    }
}

/// The text's length: four characters for every started group of three
/// bytes.
proof fn lemma_b64_encode_len(bs: Seq<u8>)
    ensures
        bs.len() == 0 ==> b64_encode(bs).len() == 0,
        bs.len() > 0 ==> b64_encode(bs).len() == 4 * ((bs.len() + 2) / 3),
    decreases bs.len(),
{
    if bs.len() == 0 {
    } else if bs.len() == 1 {
        assert(b64_encode(bs) == b64_group1(bs[0]));
        assert(b64_group1(bs[0]).len() == 4);
    } else if bs.len() == 2 {
        assert(b64_encode(bs) == b64_group2(bs[0], bs[1]));
        assert(b64_group2(bs[0], bs[1]).len() == 4);
    } else if bs.len() == 3 {
        assert(bs.skip(3) =~= Seq::<u8>::empty());
        assert(b64_encode(bs.skip(3)) == Seq::<char>::empty());
        assert(b64_encode(bs) == b64_group3(bs[0], bs[1], bs[2]) + b64_encode(bs.skip(3)));
        assert(b64_group3(bs[0], bs[1], bs[2]).len() == 4);
    } else {
        lemma_b64_encode_len(bs.skip(3));
        assert(bs.skip(3).len() == bs.len() - 3);
        assert((bs.len() + 2) / 3 == ((bs.len() - 3) + 2) / 3 + 1);
    }
}

} // verus!
