//! The token that ties the window to the server of one launch.
use vstd::arithmetic::div_mod::lemma_div_denominator;
use vstd::arithmetic::power::{lemma_pow_adds, lemma_pow_positive, pow};
use vstd::prelude::*;

verus! {

/// The `i`-th of the 32 hexadecimal digits of a 128-bit number, the highest first.
pub open spec fn nibble(x: u128, i: int) -> int {
    (x as int / pow(16, (31 - i) as nat)) % 16
}

/// The lower-case character of a hexadecimal digit.
pub open spec fn hex_digit(d: int) -> char {
    if d < 10 {
        (48 + d) as char
    } else {
        (87 + d) as char
    }
}

/// A number in 32 lower-case hexadecimal digits.
pub open spec fn hex_text(x: u128) -> Seq<char> {
    Seq::new(32, |i: int| hex_digit(nibble(x, i)))
}

/// Whether a number is a random UUID: version 4, in the variant of RFC 9562.
pub open spec fn random_uuid(x: u128) -> bool {
    nibble(x, 12) == 4 && 8 <= nibble(x, 16) < 12
}

/// Draws a random UUID with `uuid::Uuid::new_v4`, as a number. The claim is that it has the
/// version and the variant of such a one; its other bits are left to chance. Like the call
/// itself, it panics where the system has no random numbers to give.
#[verifier::external_body]
fn new_uuid() -> (r: u128)
    ensures
        random_uuid(r),
{
    uuid::Uuid::new_v4().as_u128()
}

/// Writes a UUID with `uuid::Uuid::simple`. The claim is that the text is the UUID's 32
/// hexadecimal digits, in lower case, with nothing between them.
#[verifier::external_body]
fn simple_text(x: u128) -> (r: String)
    ensures
        r@ == hex_text(x),
{
    uuid::Uuid::from_u128(x).simple().to_string()
}

/// The token made of two UUIDs.
pub fn token_of(first: u128, second: u128) -> (r: String)
    ensures
        r@ == hex_text(first) + hex_text(second),
{
    let mut token = simple_text(first);
    token.append(simple_text(second).as_str());
    token
}

/// Whether a text can be the token of a launch.
pub open spec fn is_token(s: Seq<char>) -> bool {
    exists|first: u128, second: u128|
        random_uuid(first) && random_uuid(second) && s == #[trigger] hex_text(first)
            + #[trigger] hex_text(second)
}

/// Draws the token of this launch: two random UUIDs, one after the other. It panics where the
/// system has no random numbers to give.
pub fn launch_token() -> (r: String)
    ensures
        is_token(r@),
{
    token_of(new_uuid(), new_uuid())
}

/// Whether a character is a lower-case hexadecimal digit.
pub open spec fn hex_char(c: char) -> bool {
    '0' <= c <= '9' || 'a' <= c <= 'f'
}

/// A token has 64 characters, each a lower-case hexadecimal digit, so it can stand in a
/// header, a variable or a script as it is.
pub proof fn law_token_is_hex(s: Seq<char>)
    requires
        is_token(s),
    ensures
        s.len() == 64,
        forall|i: int| 0 <= i < s.len() ==> hex_char(#[trigger] s[i]),
{
    let (first, second) = choose|first: u128, second: u128|
        random_uuid(first) && random_uuid(second) && s == #[trigger] hex_text(first)
            + #[trigger] hex_text(second);
    assert forall|i: int| 0 <= i < s.len() implies hex_char(#[trigger] s[i]) by {
        if i < 32 {
            assert(s[i] == hex_digit(nibble(first, i)));
        } else {
            assert(s[i] == hex_digit(nibble(second, i - 32)));
        }
    }
}

/// Sixteen to the power of 32 is above every 128-bit number.
proof fn lemma_sixteen_to_32()
    ensures
        pow(16, 32) > u128::MAX,
{
    assert(pow(16, 4) == 0x1_0000) by {
        reveal_with_fuel(pow, 5);
    }
    lemma_pow_adds(16, 4, 4);
    lemma_pow_adds(16, 8, 8);
    lemma_pow_adds(16, 16, 16);
    let a = pow(16, 8);
    let b = pow(16, 16);
    assert(a == 0x1_0000_0000);
    assert(b == 0x1_0000_0000_0000_0000) by (nonlinear_arith)
        requires
            a == 0x1_0000_0000,
            b == a * a,
    ;
    let c = pow(16, 32);
    assert(c == 0x1_0000_0000_0000_0000_0000_0000_0000_0000int) by (nonlinear_arith)
        requires
            b == 0x1_0000_0000_0000_0000,
            c == b * b,
    ;
}

/// Numbers with the same digits agree in their first `k` digits.
proof fn lemma_same_digits(x: u128, y: u128, k: int)
    requires
        0 <= k <= 32,
        forall|i: int| 0 <= i < 32 ==> nibble(x, i) == nibble(y, i),
    ensures
        x as int / pow(16, (32 - k) as nat) == y as int / pow(16, (32 - k) as nat),
    decreases k,
{
    lemma_pow_positive(16, (32 - k) as nat);
    if k == 0 {
        lemma_sixteen_to_32();
        assert(x as int / pow(16, 32) == 0) by (nonlinear_arith)
            requires
                0 <= x < pow(16, 32),
        ;
        assert(y as int / pow(16, 32) == 0) by (nonlinear_arith)
            requires
                0 <= y < pow(16, 32),
        ;
    } else {
        lemma_same_digits(x, y, k - 1);
        let p = pow(16, (32 - k) as nat);
        let i = k - 1;
        assert(nibble(x, i) == nibble(y, i));
        lemma_pow_adds(16, (32 - k) as nat, 1);
        assert(pow(16, 1) == 16) by {
            reveal_with_fuel(pow, 2);
        }
        lemma_div_denominator(x as int, p, 16);
        lemma_div_denominator(y as int, p, 16);
        assert((32 - k) as nat + 1 == (32 - (k - 1)) as nat);
        assert(31 - i == 32 - k);
    }
}

/// The digits tell numbers apart: UUIDs with the same text are the same.
pub proof fn law_hex_tells_apart(x: u128, y: u128)
    requires
        hex_text(x) == hex_text(y),
    ensures
        x == y,
{
    assert forall|i: int| 0 <= i < 32 implies nibble(x, i) == nibble(y, i) by {
        assert(hex_text(x)[i] == hex_digit(nibble(x, i)));
        assert(hex_text(y)[i] == hex_digit(nibble(y, i)));
    }
    lemma_same_digits(x, y, 32);
    assert(pow(16, 0) == 1) by {
        reveal(pow);
    }
}

/// Any two random UUIDs can be the token, each in its place, and a token shows that it is made
/// of two.
pub proof fn law_token_is_two_uuids(first: u128, second: u128)
    requires
        random_uuid(first),
        random_uuid(second),
    ensures
        is_token(hex_text(first) + hex_text(second)),
        (hex_text(first) + hex_text(second)).take(32) == hex_text(first),
        (hex_text(first) + hex_text(second)).skip(32) == hex_text(second),
        hex_text(first)[12] == '4',
        hex_text(first)[16] == '8' || hex_text(first)[16] == '9' || hex_text(first)[16] == 'a'
            || hex_text(first)[16] == 'b',
{
    assert(hex_text(first)[12] == hex_digit(nibble(first, 12)));
    assert(hex_text(first)[16] == hex_digit(nibble(first, 16)));
}

/// Hexadecimal notation: the last digit is the remainder by sixteen, and the digits before it
/// are those of the quotient.
pub proof fn law_hex_digits(x: u128, i: int)
    requires
        0 <= i < 31,
    ensures
        hex_text(x).len() == 32,
        hex_text(x)[31] == "0123456789abcdef"@[x as int % 16],
        hex_text((x as int / 16) as u128)[i + 1] == hex_text(x)[i],
{
    reveal_strlit("0123456789abcdef");
    assert(pow(16, 0) == 1) by {
        reveal(pow);
    }
    assert(hex_text(x)[31] == hex_digit(nibble(x, 31)));
    let d = x as int % 16;
    assert(nibble(x, 31) == d);
    assert(hex_digit(d) == "0123456789abcdef"@[d]);
    let y = (x as int / 16) as u128;
    let p = pow(16, (30 - i) as nat);
    lemma_pow_positive(16, (30 - i) as nat);
    lemma_pow_adds(16, 1, (30 - i) as nat);
    assert(pow(16, 1) == 16) by {
        reveal_with_fuel(pow, 2);
    }
    assert(1 + (30 - i) as nat == (31 - i) as nat);
    lemma_div_denominator(x as int, 16, p);
    assert(hex_text(y)[i + 1] == hex_digit(nibble(y, i + 1)));
    assert(hex_text(x)[i] == hex_digit(nibble(x, i)));
}

} // verus!
