//! Verified building blocks for the plain-text forms used on the wire:
//! character-sequence comparison and decimal formatting of integers.

use vstd::prelude::*;
use vstd::string::*;

verus! {

/// Strict lexicographic order on character sequences, by code point.
pub open spec fn seq_char_lt(a: Seq<char>, b: Seq<char>) -> bool
    decreases a.len(),
{
    if b.len() == 0 {
        false
    } else if a.len() == 0 {
        true
    } else if a[0] != b[0] {
        (a[0] as nat) < (b[0] as nat)
    } else {
        seq_char_lt(a.drop_first(), b.drop_first())
    }
}

/// Lexicographic order is a strict total order: any two sequences compare
/// one way, the other way, or are equal, and never two of these at once.
pub proof fn lemma_seq_char_lt_trichotomy(a: Seq<char>, b: Seq<char>)
    ensures
        seq_char_lt(a, b) || a == b || seq_char_lt(b, a),
        seq_char_lt(a, b) ==> a != b && !seq_char_lt(b, a),
    decreases a.len(),
{
    if b.len() == 0 {
        if a.len() == 0 {
            assert(a =~= b);
        } else {
            assert(seq_char_lt(b, a));
        }
    } else if a.len() == 0 {
        assert(seq_char_lt(a, b));
    } else if a[0] != b[0] {
        assert((a[0] as nat) != (b[0] as nat)) by {
            vstd::utf8::char_u32_cast(a[0], a[0] as u32);
            vstd::utf8::char_u32_cast(b[0], b[0] as u32);
        }
        if (a[0] as nat) < (b[0] as nat) {
            assert(seq_char_lt(a, b));
        } else {
            assert(seq_char_lt(b, a));
        }
    } else {
        lemma_seq_char_lt_trichotomy(a.drop_first(), b.drop_first());
        if a.drop_first() == b.drop_first() {
            assert(a =~= seq![a[0]] + a.drop_first());
            assert(b =~= seq![b[0]] + b.drop_first());
        }
    }
}

/// Lexicographic order is transitive.
pub proof fn lemma_seq_char_lt_trans(a: Seq<char>, b: Seq<char>, c: Seq<char>)
    requires
        seq_char_lt(a, b),
        seq_char_lt(b, c),
    ensures
        seq_char_lt(a, c),
    decreases a.len() + b.len() + c.len(),
{
    if a.len() == 0 {
    } else {
        assert(b.len() > 0);
        assert(c.len() > 0);
        if a[0] == b[0] && b[0] == c[0] {
            lemma_seq_char_lt_trans(a.drop_first(), b.drop_first(), c.drop_first());
        }
    }
}

/// Compares two strings for equality of their character sequences.
pub fn str_eq(a: &str, b: &str) -> (r: bool)
    ensures
        r == (a@ == b@),
{
    let alen = a.unicode_len();
    let blen = b.unicode_len();
    if alen != blen {
        return false;
    }
    let mut i: usize = 0;
    while i < alen
        invariant
            i <= alen,
            alen == a@.len(),
            blen == b@.len(),
            alen == blen,
            forall|j: int| 0 <= j < i ==> a@[j] == b@[j],
        decreases alen - i,
    {
        if a.get_char(i) != b.get_char(i) {
            return false;
        }
        i += 1;
    }
    proof {
        assert(a@ =~= b@);
    }
    true
}

proof fn lemma_seq_char_lt_skip(a: Seq<char>, b: Seq<char>, i: int)
    requires
        0 <= i < a.len(),
        0 <= i < b.len(),
        a[i] == b[i],
    ensures
        seq_char_lt(a.skip(i), b.skip(i)) == seq_char_lt(a.skip(i + 1), b.skip(i + 1)),
{
    assert(a.skip(i).drop_first() =~= a.skip(i + 1));
    assert(b.skip(i).drop_first() =~= b.skip(i + 1));
    assert(a.skip(i)[0] == a[i]);
    assert(b.skip(i)[0] == b[i]);
}

/// Decides whether `a` comes strictly before `b` in lexicographic order.
pub fn str_lt(a: &str, b: &str) -> (r: bool)
    ensures
        r == seq_char_lt(a@, b@),
{
    let alen = a.unicode_len();
    let blen = b.unicode_len();
    let mut i: usize = 0;
    proof {
        assert(a@.skip(0) =~= a@);
        assert(b@.skip(0) =~= b@);
    }
    loop
        invariant
            i <= alen,
            i <= blen,
            alen == a@.len(),
            blen == b@.len(),
            seq_char_lt(a@, b@) == seq_char_lt(a@.skip(i as int), b@.skip(i as int)),
        decreases alen - i,
    {
        if i == blen {
            proof {
                assert(b@.skip(i as int).len() == 0);
            }
            return false;
        }
        if i == alen {
            proof {
                assert(a@.skip(i as int).len() == 0);
                assert(b@.skip(i as int).len() > 0);
            }
            return true;
        }
        let ca = a.get_char(i);
        let cb = b.get_char(i);
        if ca != cb {
            proof {
                assert(a@.skip(i as int)[0] == a@[i as int]);
                assert(b@.skip(i as int)[0] == b@[i as int]);
            }
            return (ca as u32) < (cb as u32);
        }
        proof {
            lemma_seq_char_lt_skip(a@, b@, i as int);
        }
        i += 1;
    }
}

/// The character for a single decimal digit.
pub open spec fn digit_char(d: nat) -> char {
    if d == 0 {
        '0'
    } else if d == 1 {
        '1'
    } else if d == 2 {
        '2'
    } else if d == 3 {
        '3'
    } else if d == 4 {
        '4'
    } else if d == 5 {
        '5'
    } else if d == 6 {
        '6'
    } else if d == 7 {
        '7'
    } else if d == 8 {
        '8'
    } else {
        '9'
    }
}

/// The decimal digit string of a natural number, most significant digit first.
pub open spec fn dec_digits(n: nat) -> Seq<char>
    decreases n,
{
    if n < 10 {
        seq![digit_char(n)]
    } else {
        dec_digits(n / 10).push(digit_char(n % 10))
    }
}

/// The decimal string of an integer: a leading `-` for negative values.
pub open spec fn int_dec_str(v: int) -> Seq<char> {
    if v < 0 {
        seq!['-'] + dec_digits((-v) as nat)
    } else {
        dec_digits(v as nat)
    }
}

/// A one-character string slice for a decimal digit.
fn digit_str(d: u64) -> (r: &'static str)
    requires
        d < 10,
    ensures
        r@ =~= seq![digit_char(d as nat)],
{
    proof {
        reveal_strlit("0");
        reveal_strlit("1");
        reveal_strlit("2");
        reveal_strlit("3");
        reveal_strlit("4");
        reveal_strlit("5");
        reveal_strlit("6");
        reveal_strlit("7");
        reveal_strlit("8");
        reveal_strlit("9");
    }
    match d {
        0 => "0",
        1 => "1",
        2 => "2",
        3 => "3",
        4 => "4",
        5 => "5",
        6 => "6",
        7 => "7",
        8 => "8",
        _ => "9",
    }
}

/// The digits of `s`, reversed and turned into characters.
spec fn digits_rev_chars(s: Seq<u64>) -> Seq<char>
    decreases s.len(),
{
    if s.len() == 0 {
        Seq::empty()
    } else {
        seq![digit_char(s.last() as nat)] + digits_rev_chars(s.drop_last())
    }
}

/// The digit string still owed once `cur` remains to be broken down and the
/// digits of `ds` have already been collected, least significant first.
spec fn partial_digits(cur: nat, ds: Seq<u64>) -> Seq<char> {
    if cur > 0 {
        dec_digits(cur) + digits_rev_chars(ds)
    } else {
        digits_rev_chars(ds)
    }
}

proof fn lemma_rev_chars_unsnoc(s: Seq<u64>)
    requires
        s.len() > 0,
    ensures
        digits_rev_chars(s) == digits_rev_chars(s.drop_first()) + seq![
            digit_char(s.first() as nat),
        ],
    decreases s.len(),
{
    if s.len() == 1 {
        assert(s.drop_last() =~= s.drop_first());
        assert(digits_rev_chars(s) =~= digits_rev_chars(s.drop_first()) + seq![
            digit_char(s.first() as nat),
        ]);
    } else {
        lemma_rev_chars_unsnoc(s.drop_last());
        assert(s.drop_last().drop_first() =~= s.drop_first().drop_last());
        assert(s.drop_first().last() == s.last());
        assert(s.drop_last().first() == s.first());
        assert(digits_rev_chars(s) =~= digits_rev_chars(s.drop_first()) + seq![
            digit_char(s.first() as nat),
        ]);
    }
}

/// Formats an unsigned integer in decimal.
pub fn u64_to_string(v: u64) -> (r: String)
    ensures
        r@ == dec_digits(v as nat),
{
    let mut digits: Vec<u64> = Vec::new();
    let mut cur: u64 = v % 10;
    digits.push(v % 10);
    proof {
        assert(digits_rev_chars(digits@.drop_last()) =~= Seq::<char>::empty());
        assert(digits_rev_chars(digits@) =~= seq![digit_char((v % 10) as nat)]);
    }
    cur = v / 10;
    proof {
        if cur > 0 {
            assert(dec_digits(v as nat) =~= partial_digits(cur as nat, digits@));
        } else {
            assert(dec_digits(v as nat) =~= partial_digits(cur as nat, digits@));
        }
    }
    while cur > 0
        invariant
            forall|j: int| 0 <= j < digits@.len() ==> digits@[j] < 10,
            dec_digits(v as nat) == partial_digits(cur as nat, digits@),
        decreases cur,
    {
        let ghost prev = digits@;
        let d = cur % 10;
        digits.push(d);
        proof {
            assert(digits@.drop_last() =~= prev);
            assert(digits_rev_chars(digits@) =~= seq![digit_char(d as nat)] + digits_rev_chars(
                prev,
            ));
            if cur >= 10 {
                assert(dec_digits(cur as nat) =~= dec_digits((cur / 10) as nat) + seq![
                    digit_char((cur % 10) as nat),
                ]);
                assert(partial_digits((cur / 10) as nat, digits@) =~= partial_digits(
                    cur as nat,
                    prev,
                ));
            } else {
                assert(dec_digits(cur as nat) =~= seq![digit_char(cur as nat)]);
                assert(partial_digits((cur / 10) as nat, digits@) =~= partial_digits(
                    cur as nat,
                    prev,
                ));
            }
        }
        cur = cur / 10;
    }
    let mut s = String::new();
    let mut i: usize = digits.len();
    while i > 0
        invariant
            i <= digits@.len(),
            forall|j: int| 0 <= j < digits@.len() ==> digits@[j] < 10,
            s@ == digits_rev_chars(digits@.skip(i as int)),
        decreases i,
    {
        i -= 1;
        let ds = digit_str(digits[i]);
        s.append(ds);
        proof {
            lemma_rev_chars_unsnoc(digits@.skip(i as int));
            assert(digits@.skip(i as int).drop_first() =~= digits@.skip(i as int + 1));
            assert(digits@.skip(i as int).first() == digits@[i as int]);
            assert(s@ =~= digits_rev_chars(digits@.skip(i as int)));
        }
    }
    proof {
        assert(digits@.skip(0) =~= digits@);
    }
    s
}

/// Formats a signed integer in decimal.
pub fn i64_to_string(v: i64) -> (r: String)
    ensures
        r@ == int_dec_str(v as int),
{
    if v >= 0 {
        u64_to_string(v as u64)
    } else {
        let mag: u64 = ((-(v + 1)) as u64) + 1;
        let mut s = String::from_str("-");
        proof {
            reveal_strlit("-");
        }
        s.append(u64_to_string(mag).as_str());
        proof {
            assert(s@ =~= int_dec_str(v as int));
        }
        s
    }
}

/// Relies on `char`'s `ToString` (through `Display`): the returned string
/// contains exactly the one character.
#[verifier::external_body]
pub(crate) fn char_to_string(c: char) -> (r: String)
    ensures
        r@ == seq![c],
{
    c.to_string()
}

/// The decimal string of `true` or `false`.
pub open spec fn bool_str(b: bool) -> Seq<char> {
    if b {
        "true"@
    } else {
        "false"@
    }
}

/// Formats a boolean as `true` or `false`.
pub fn bool_to_string(b: bool) -> (r: String)
    ensures
        r@ == bool_str(b),
{
    if b {
        String::from_str("true")
    } else {
        String::from_str("false")
    }
}

} // verus!
