//! UUIDs as 128-bit numbers, through the `uuid` crate.

use uuid::Uuid;
use vstd::arithmetic::power::pow;
use vstd::prelude::*;

verus! {

/// The lower-case hexadecimal digit for `d`.
pub open spec fn hex_char(d: int) -> char {
    if d < 10 {
        (48 + d) as char
    } else {
        (87 + d) as char
    }
}

/// The `j`-th of the 32 hexadecimal digits of a UUID, counted from the most significant one.
pub open spec fn nibble(v: u128, j: int) -> int {
    v as int / pow(16, (31 - j) as nat) % 16
}

/// A UUID as text: 32 lower-case hexadecimal digits in groups of 8, 4, 4, 4 and 12, parted by
/// hyphens.
pub open spec fn hyphenated(v: u128) -> Seq<char> {
    Seq::new(
        36,
        |i: int|
            if i == 8 || i == 13 || i == 18 || i == 23 {
                '-'
            } else if i < 8 {
                hex_char(nibble(v, i))
            } else if i < 13 {
                hex_char(nibble(v, i - 1))
            } else if i < 18 {
                hex_char(nibble(v, i - 2))
            } else if i < 23 {
                hex_char(nibble(v, i - 3))
            } else {
                hex_char(nibble(v, i - 4))
            },
    )
}

/// The version number of a UUID: the upper half of its seventh byte.
pub open spec fn version_num(v: u128) -> u128 {
    v / 0x1000_0000_0000_0000_0000 % 16
}

/// The UUID that `uuid::Uuid::parse_str` reads from a text, if it reads one.
pub uninterp spec fn uuid_parsed(s: Seq<char>) -> Option<u128>;

/// `uuid::Uuid::now_v7`: a fresh UUID of version 7. Its other bits come from the clock and from
/// random numbers; nothing is claimed of them.
#[verifier::external_body]
pub(crate) fn now_v7() -> (r: u128)
    ensures
        version_num(r) == 7,
{
    Uuid::now_v7().as_u128()
}

/// `<uuid::Uuid as Display>`: the hyphenated lower-case form.
#[verifier::external_body]
pub(crate) fn uuid_string(v: u128) -> (r: String)
    ensures
        r@ == hyphenated(v),
{
    Uuid::from_u128(v).to_string()
}

/// `uuid::Uuid::parse_str`: depends on the text alone, and reads the hyphenated form back.
#[verifier::external_body]
pub(crate) fn parse_uuid(s: &str) -> (r: Option<u128>)
    ensures
        r == uuid_parsed(s@),
        forall|v: u128| s@ == #[trigger] hyphenated(v) ==> r == Some(v),
{
    match Uuid::parse_str(s) {
        Ok(u) => Some(u.as_u128()),
        Err(_) => None,
    }
}

/// The version number of a UUID.
pub fn uuid_version(v: u128) -> (r: u128)
    ensures
        r == version_num(v),
{
    v / 0x1000_0000_0000_0000_0000 % 16
}

proof fn lemma_digits(a: u128, b: u128, m: nat)
    requires
        forall|j: int| 0 <= j < 32 ==> #[trigger] nibble(a, j) == nibble(b, j),
        m <= 32,
    ensures
        a as int / pow(16, m) == b as int / pow(16, m),
    decreases 32 - m,
{
    vstd::arithmetic::power::lemma_pow_positive(16, m);
    if m == 32 {
        assert(pow(16, 32) == 0x1_0000_0000_0000_0000_0000_0000_0000_0000) by {
            reveal_with_fuel(vstd::arithmetic::power::pow, 33);
        }
        vstd::arithmetic::div_mod::lemma_basic_div(a as int, pow(16, 32));
        vstd::arithmetic::div_mod::lemma_basic_div(b as int, pow(16, 32));
    } else {
        lemma_digits(a, b, m + 1);
        let p = pow(16, m);
        vstd::arithmetic::power::lemma_pow_adds(16, m, 1);
        vstd::arithmetic::power::lemma_pow1(16);
        assert(pow(16, m + 1) == p * 16);
        vstd::arithmetic::div_mod::lemma_div_denominator(a as int, p, 16);
        vstd::arithmetic::div_mod::lemma_div_denominator(b as int, p, 16);
        let x = a as int / p;
        let y = b as int / p;
        assert(nibble(a, 31 - m) == nibble(b, 31 - m));
        assert(x % 16 == y % 16);
        assert(x / 16 == y / 16);
    }
}

proof fn lemma_hex_char(x: int, y: int)
    requires
        0 <= x < 16,
        0 <= y < 16,
        hex_char(x) == hex_char(y),
    ensures
        x == y,
{
}

/// Different UUIDs have different texts.
pub proof fn texts_tell_uuids_apart(a: u128, b: u128)
    requires
        hyphenated(a) == hyphenated(b),
    ensures
        a == b,
{
    assert forall|j: int| 0 <= j < 32 implies #[trigger] nibble(a, j) == nibble(b, j) by {
        let i = if j < 8 {
            j
        } else if j < 12 {
            j + 1
        } else if j < 16 {
            j + 2
        } else if j < 20 {
            j + 3
        } else {
            j + 4
        };
        assert(hyphenated(a)[i] == hyphenated(b)[i]);
        assert(hyphenated(a)[i] == hex_char(nibble(a, j)));
        assert(hyphenated(b)[i] == hex_char(nibble(b, j)));
        lemma_hex_char(nibble(a, j), nibble(b, j));
    }
    lemma_digits(a, b, 0);
    vstd::arithmetic::power::lemma_pow0(16);
}

/// The number that hexadecimal digits write; hyphens between them count for nothing.
pub open spec fn hex_number(s: Seq<char>) -> nat
    decreases s.len(),
{
    if s.len() == 0 {
        0
    } else {
        let c = s.last();
        let before = hex_number(s.drop_last());
        if '0' <= c && c <= '9' {
            before * 16 + (c as nat - '0' as nat) as nat
        } else if 'a' <= c && c <= 'f' {
            before * 16 + (c as nat - 'a' as nat + 10) as nat
        } else {
            before
        }
    }
}

/// How many digits stand before place `i` of a text.
spec fn digits_before(i: int) -> int {
    if i <= 8 {
        i
    } else if i <= 13 {
        i - 1
    } else if i <= 18 {
        i - 2
    } else if i <= 23 {
        i - 3
    } else {
        i - 4
    }
}

proof fn lemma_prefix(v: u128, i: int)
    requires
        0 <= i <= 36,
    ensures
        hex_number(hyphenated(v).subrange(0, i)) == v as int / pow(
            16,
            (32 - digits_before(i)) as nat,
        ),
    decreases i,
{
    let s = hyphenated(v).subrange(0, i);
    let k = (32 - digits_before(i)) as nat;
    vstd::arithmetic::power::lemma_pow_positive(16, k);
    if i == 0 {
        assert(pow(16, 32) == 0x1_0000_0000_0000_0000_0000_0000_0000_0000) by {
            reveal_with_fuel(vstd::arithmetic::power::pow, 33);
        }
        vstd::arithmetic::div_mod::lemma_basic_div(v as int, pow(16, 32));
    } else {
        lemma_prefix(v, i - 1);
        assert(s.drop_last() =~= hyphenated(v).subrange(0, i - 1));
        if i - 1 != 8 && i - 1 != 13 && i - 1 != 18 && i - 1 != 23 {
            let j = digits_before(i - 1);
            assert(digits_before(i) == j + 1);
            assert(s.last() == hex_char(nibble(v, j)));
            let p = pow(16, k);
            vstd::arithmetic::power::lemma_pow_adds(16, k, 1);
            vstd::arithmetic::power::lemma_pow1(16);
            assert(pow(16, k + 1) == p * 16);
            vstd::arithmetic::div_mod::lemma_div_denominator(v as int, p, 16);
            let x = v as int / p;
            assert(nibble(v, j) == x % 16);
            assert(x == x / 16 * 16 + x % 16);
        } else {
            assert(s.last() == '-');
            assert(digits_before(i) == digits_before(i - 1));
        }
    }
}

/// The text of a UUID has 36 characters in groups of 8, 4, 4, 4 and 12 digits, and its digits write
/// the number.
pub proof fn texts_write_their_number(v: u128)
    ensures
        hyphenated(v).len() == 36,
        hex_number(hyphenated(v)) == v,
        hyphenated(v)[8] == '-' && hyphenated(v)[13] == '-' && hyphenated(v)[18] == '-'
            && hyphenated(v)[23] == '-',
{
    lemma_prefix(v, 36);
    vstd::arithmetic::power::lemma_pow0(16);
    assert(hyphenated(v).subrange(0, 36) =~= hyphenated(v));
}

} // verus!
