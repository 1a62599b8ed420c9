//! Text that travels in a wait lease request: job names, tokens and identifiers.

use crate::bytes::same_bytes;
use vstd::prelude::*;
use vstd::string::{StrSliceExecFns, StringExecFns};
use vstd::utf8::{encode_utf8, encode_utf8_decode_utf8};

verus! {

/// The characters with the Unicode property White_Space.
pub open spec fn is_white_space(c: char) -> bool {
    ||| 0x9 <= c as u32 <= 0xd
    ||| c as u32 == 0x20
    ||| c as u32 == 0x85
    ||| c as u32 == 0xa0
    ||| c as u32 == 0x1680
    ||| 0x2000 <= c as u32 <= 0x200a
    ||| c as u32 == 0x2028
    ||| c as u32 == 0x2029
    ||| c as u32 == 0x202f
    ||| c as u32 == 0x205f
    ||| c as u32 == 0x3000
}

/// How many white space characters `s` begins with.
pub open spec fn leading_space(s: Seq<char>) -> nat
    decreases s.len(),
{
    if s.len() > 0 && is_white_space(s.first()) {
        1 + leading_space(s.drop_first())
    } else {
        0
    }
}

/// How many white space characters `s` ends with.
pub open spec fn trailing_space(s: Seq<char>) -> nat
    decreases s.len(),
{
    if s.len() > 0 && is_white_space(s.last()) {
        1 + trailing_space(s.drop_last())
    } else {
        0
    }
}

/// `s` without the white space at its two ends.
pub open spec fn trimmed(s: Seq<char>) -> Seq<char> {
    let rest = s.skip(leading_space(s) as int);
    rest.take(rest.len() - trailing_space(rest))
}

proof fn leading_space_ends(s: Seq<char>)
    ensures
        leading_space(s) <= s.len(),
        leading_space(s) < s.len() ==> !is_white_space(s[leading_space(s) as int]),
    decreases s.len(),
{
    if s.len() > 0 && is_white_space(s.first()) {
        leading_space_ends(s.drop_first());
    }
}

proof fn trailing_space_ends(s: Seq<char>)
    ensures
        trailing_space(s) <= s.len(),
        trailing_space(s) < s.len() ==> !is_white_space(s[s.len() - 1 - trailing_space(s)]),
    decreases s.len(),
{
    if s.len() > 0 && is_white_space(s.last()) {
        trailing_space_ends(s.drop_last());
    }
}

/// What is left without the white space at the ends neither begins nor ends with white
/// space, so taking it off again takes nothing off.
pub proof fn trimming_is_idempotent(s: Seq<char>)
    ensures
        trimmed(s).len() > 0 ==> !is_white_space(trimmed(s).first()) && !is_white_space(
            trimmed(s).last(),
        ),
        trimmed(trimmed(s)) == trimmed(s),
{
    let rest = s.skip(leading_space(s) as int);
    let t = trimmed(s);
    leading_space_ends(s);
    trailing_space_ends(rest);
    if t.len() > 0 {
        assert(t.first() == rest.first() && rest.first() == s[leading_space(s) as int]);
        assert(t.last() == rest[rest.len() - 1 - trailing_space(rest)]);
    }
    assert(t.skip(0) =~= t);
    assert(t.take(t.len() as int) =~= t);
}

fn white_space(c: char) -> (r: bool)
    ensures
        r == is_white_space(c),
{
    let n: u32 = c as u32;
    (0x9 <= n && n <= 0xd) || n == 0x20 || n == 0x85 || n == 0xa0 || n == 0x1680 || (0x2000 <= n
        && n <= 0x200a) || n == 0x2028 || n == 0x2029 || n == 0x202f || n == 0x205f || n == 0x3000
}

fn characters(s: &str) -> (chars: Vec<char>)
    ensures
        chars@ == s@,
{
    let mut chars: Vec<char> = Vec::new();
    for c in it: s.chars()
        invariant
            it.seq() == s@,
            chars@ == s@.take(it.index() as int),
    {
        chars.push(c);
    }
    chars
}

/// Whether two string slices hold the same characters.
pub(crate) fn same(a: &str, b: &str) -> (r: bool)
    ensures
        r == (a@ == b@),
{
    proof {
        encode_utf8_decode_utf8(a@);
        encode_utf8_decode_utf8(b@);
    }
    same_bytes(a.as_bytes(), b.as_bytes())
}

/// `s` without the white space at its two ends.
pub fn trim(s: &str) -> (r: &str)
    ensures
        r@ == trimmed(s@),
{
    let chars = characters(s);
    let len: usize = chars.len();
    let mut from: usize = 0;
    assert(s@.skip(0) =~= s@);
    while from < len && white_space(chars[from])
        invariant
            chars@ == s@,
            len == s@.len(),
            from <= len,
            leading_space(s@) == from + leading_space(s@.skip(from as int)),
        decreases len - from,
    {
        assert(s@.skip(from as int).drop_first() =~= s@.skip(from + 1));
        from = from + 1;
    }
    let ghost rest = s@.skip(from as int);
    assert(leading_space(rest) == 0);
    let mut to: usize = len;
    assert(rest.take(rest.len() as int) =~= rest);
    while to > from && white_space(chars[to - 1])
        invariant
            chars@ == s@,
            len == s@.len(),
            from <= to <= len,
            rest == s@.skip(from as int),
            trailing_space(rest) == (len - to) + trailing_space(rest.take(to - from)),
        decreases to,
    {
        assert(rest.take(to - from).drop_last() =~= rest.take(to - from - 1));
        assert(rest.take(to - from).last() == s@[to - 1]);
        to = to - 1;
    }
    proof {
        let left = rest.take(to - from);
        if left.len() > 0 {
            assert(left.last() == s@[to - 1]);
        }
        assert(trailing_space(left) == 0);
        assert(s@.subrange(from as int, to as int) =~= left);
    }
    s.substring_char(from, to)
}

/// The digits of a hexadecimal number, in either case.
pub open spec fn is_hex_digit(c: char) -> bool {
    '0' <= c <= '9' || 'a' <= c <= 'f' || 'A' <= c <= 'F'
}

/// The number of hexadecimal digits in the token of a wait lease.
pub const TOKEN_DIGITS: usize = 64;

/// The longest job name, in bytes of its UTF-8 form.
pub const MAX_JOB_ID_BYTES: usize = 128;

/// A token is a fixed number of hexadecimal digits.
pub open spec fn valid_token(token: Seq<char>) -> bool {
    &&& token.len() == TOKEN_DIGITS
    &&& forall|i: int| 0 <= i < token.len() ==> is_hex_digit(#[trigger] token[i])
}

/// A job name that may be put on record, once the white space at its ends is gone.
pub open spec fn valid_job_id(job_id: Seq<char>) -> bool {
    &&& job_id.len() > 0
    &&& encode_utf8(job_id).len() <= MAX_JOB_ID_BYTES
}

/// Whether `token` has the form of a wait lease token.
pub fn token_is_valid(token: &str) -> (r: bool)
    ensures
        r == valid_token(token@),
{
    let chars = characters(token);
    if chars.len() != TOKEN_DIGITS {
        return false;
    }
    let mut i: usize = 0;
    while i < chars.len()
        invariant
            chars@ == token@,
            i <= chars.len(),
            forall|k: int| 0 <= k < i ==> is_hex_digit(#[trigger] token@[k]),
        decreases chars.len() - i,
    {
        let c = chars[i];
        let digit = ('0' <= c && c <= '9') || ('a' <= c && c <= 'f') || ('A' <= c && c <= 'F');
        if !digit {
            assert(!is_hex_digit(token@[i as int]));
            return false;
        }
        i = i + 1;
    }
    true
}

/// Whether `job_id`, already trimmed, is a job name that may be put on record.
pub fn job_id_is_valid(job_id: &str) -> (r: bool)
    ensures
        r == valid_job_id(job_id@),
{
    !job_id.is_empty() && job_id.as_bytes().len() <= MAX_JOB_ID_BYTES
}

/// The lower case hexadecimal digit for a number below sixteen.
pub open spec fn hex_digit(n: int) -> char {
    if n < 10 {
        (48 + n) as char
    } else {
        (87 + n) as char
    }
}

/// Two lower case hexadecimal digits for each byte, the high digit first.
pub open spec fn hex_text(bytes: Seq<u8>) -> Seq<char> {
    Seq::new(
        2 * bytes.len(),
        |i: int|
            if i % 2 == 0 {
                hex_digit(bytes[i / 2] as int / 16)
            } else {
                hex_digit(bytes[i / 2] as int % 16)
            },
    )
}

fn hex_digit_text(n: u8) -> (r: &'static str)
    requires
        n < 16,
    ensures
        r@ == seq![hex_digit(n as int)],
{
    proof {
        reveal_strlit("0");
        reveal_strlit("1");
        reveal_strlit("2");
        reveal_strlit("3");
        reveal_strlit("4");
        reveal_strlit("5");
        reveal_strlit("6");
        reveal_strlit("7");
        reveal_strlit("8");
        reveal_strlit("9");
        reveal_strlit("a");
        reveal_strlit("b");
        reveal_strlit("c");
        reveal_strlit("d");
        reveal_strlit("e");
        reveal_strlit("f");
    }
    match n {
        0 => "0",
        1 => "1",
        2 => "2",
        3 => "3",
        4 => "4",
        5 => "5",
        6 => "6",
        7 => "7",
        8 => "8",
        9 => "9",
        10 => "a",
        11 => "b",
        12 => "c",
        13 => "d",
        14 => "e",
        _ => "f",
    }
}

/// The bytes written as lower case hexadecimal digits.
pub fn hex_encode(bytes: &[u8]) -> (text: String)
    ensures
        text@ == hex_text(bytes@),
{
    let mut text = String::new();
    let mut i: usize = 0;
    while i < bytes.len()
        invariant
            i <= bytes@.len(),
            text@ == hex_text(bytes@.take(i as int)),
        decreases bytes@.len() - i,
    {
        let byte: u8 = bytes[i];
        text.append(hex_digit_text(byte / 16));
        text.append(hex_digit_text(byte % 16));
        proof {
            assert(bytes@.take(i + 1) =~= bytes@.take(i as int).push(byte));
        }
        i = i + 1;
    }
    assert(bytes@.take(i as int) =~= bytes@);
    text
}

/// A decimal digit or a lower case letter up to `f`.
pub open spec fn is_lower_hex_digit(c: char) -> bool {
    '0' <= c <= '9' || 'a' <= c <= 'f'
}

/// `hex_encode` writes two hexadecimal digits for each byte, in lower case.
pub proof fn hex_text_is_hex(bytes: Seq<u8>)
    ensures
        hex_text(bytes).len() == 2 * bytes.len(),
        forall|i: int|
            0 <= i < hex_text(bytes).len() ==> is_hex_digit(#[trigger] hex_text(bytes)[i])
                && is_lower_hex_digit(hex_text(bytes)[i]),
{
    assert forall|i: int| 0 <= i < hex_text(bytes).len() implies is_hex_digit(
        #[trigger] hex_text(bytes)[i],
    ) && is_lower_hex_digit(hex_text(bytes)[i]) by {
        let b = bytes[i / 2] as int;
        assert(0 <= b / 16 < 16 && 0 <= b % 16 < 16);
    }
}

/// Different bytes are written differently.
pub proof fn hex_text_tells_bytes_apart(a: Seq<u8>, b: Seq<u8>)
    requires
        hex_text(a) == hex_text(b),
    ensures
        a == b,
{
    assert(hex_text(a).len() == 2 * a.len() && hex_text(b).len() == 2 * b.len());
    assert forall|i: int| 0 <= i < a.len() implies a[i] == b[i] by {
        let x = a[i] as int;
        let y = b[i] as int;
        let (high, low) = (2 * i, 2 * i + 1);
        assert(high / 2 == i && low / 2 == i && high % 2 == 0 && low % 2 == 1);
        assert(hex_text(a)[high] == hex_digit(x / 16) && hex_text(b)[high] == hex_digit(y / 16));
        assert(hex_text(a)[low] == hex_digit(x % 16) && hex_text(b)[low] == hex_digit(y % 16));
        assert(0 <= x / 16 < 16 && 0 <= y / 16 < 16);
        assert(x / 16 == y / 16 && x % 16 == y % 16);
    }
    assert(a =~= b);
}

/// What is taken off at the two ends is white space and nothing else is taken off: the
/// rest stands in the text as it stood.
pub proof fn trimming_takes_only_the_ends(s: Seq<char>)
    ensures
        exists|from: int, to: int|
            {
                &&& 0 <= from <= to <= s.len()
                &&& trimmed(s) == #[trigger] s.subrange(from, to)
                &&& forall|i: int| 0 <= i < from || to <= i < s.len() ==> is_white_space(#[trigger] s[i])
            },
{
    let from = leading_space(s) as int;
    let rest = s.skip(from);
    let to = from + (rest.len() - trailing_space(rest));
    leading_space_ends(s);
    trailing_space_ends(rest);
    leading_is_space(s);
    trailing_is_space(rest);
    assert(trimmed(s) =~= s.subrange(from, to));
    assert forall|i: int| 0 <= i < from || to <= i < s.len() implies is_white_space(
        #[trigger] s[i],
    ) by {
        if i >= to {
            assert(rest[i - from] == s[i]);
        }
    }
}

proof fn leading_is_space(s: Seq<char>)
    ensures
        forall|i: int| 0 <= i < leading_space(s) ==> is_white_space(#[trigger] s[i]),
    decreases s.len(),
{
    if s.len() > 0 && is_white_space(s.first()) {
        leading_is_space(s.drop_first());
        leading_space_ends(s);
        assert forall|i: int| 0 <= i < leading_space(s) implies is_white_space(#[trigger] s[i]) by {
            if i > 0 {
                assert(s.drop_first()[i - 1] == s[i]);
            }
        }
    }
}

proof fn trailing_is_space(s: Seq<char>)
    ensures
        trailing_space(s) <= s.len(),
        forall|i: int| s.len() - trailing_space(s) <= i < s.len() ==> is_white_space(#[trigger] s[i]),
    decreases s.len(),
{
    if s.len() > 0 && is_white_space(s.last()) {
        let front = s.drop_last();
        trailing_is_space(front);
        assert forall|i: int| s.len() - trailing_space(s) <= i < s.len() implies is_white_space(
            #[trigger] s[i],
        ) by {
            if i < front.len() {
                assert(front[i] == s[i]);
            }
        }
    }
}

/// White space are the characters that Unicode lists as such.
pub proof fn white_space_is_listed(c: char)
    ensures
        is_white_space(c) <==> seq![
            0x9u32, 0xau32, 0xbu32, 0xcu32, 0xdu32, 0x20u32, 0x85u32, 0xa0u32, 0x1680u32,
            0x2000u32, 0x2001u32, 0x2002u32, 0x2003u32, 0x2004u32, 0x2005u32, 0x2006u32,
            0x2007u32, 0x2008u32, 0x2009u32, 0x200au32, 0x2028u32, 0x2029u32, 0x202fu32,
            0x205fu32, 0x3000u32,
        ].contains(c as u32),
{
    let list = seq![
        0x9u32, 0xau32, 0xbu32, 0xcu32, 0xdu32, 0x20u32, 0x85u32, 0xa0u32, 0x1680u32,
        0x2000u32, 0x2001u32, 0x2002u32, 0x2003u32, 0x2004u32, 0x2005u32, 0x2006u32,
        0x2007u32, 0x2008u32, 0x2009u32, 0x200au32, 0x2028u32, 0x2029u32, 0x202fu32,
        0x205fu32, 0x3000u32,
    ];
    assert(list[0] == 0x9 && list[1] == 0xa && list[2] == 0xb && list[3] == 0xc && list[4] == 0xd);
    assert(list[5] == 0x20 && list[6] == 0x85 && list[7] == 0xa0 && list[8] == 0x1680);
    assert(list[9] == 0x2000 && list[10] == 0x2001 && list[11] == 0x2002 && list[12] == 0x2003);
    assert(list[13] == 0x2004 && list[14] == 0x2005 && list[15] == 0x2006 && list[16] == 0x2007);
    assert(list[17] == 0x2008 && list[18] == 0x2009 && list[19] == 0x200a && list[20] == 0x2028);
    assert(list[21] == 0x2029 && list[22] == 0x202f && list[23] == 0x205f && list[24] == 0x3000);
}

/// The number that a hexadecimal digit stands for.
pub open spec fn digit_value(c: char) -> int {
    if '0' <= c <= '9' {
        c as int - '0' as int
    } else if 'a' <= c <= 'f' {
        c as int - 'a' as int + 10
    } else {
        c as int - 'A' as int + 10
    }
}

/// Reading the two digits of a byte gives the byte back.
pub proof fn hex_text_spells_bytes(bytes: Seq<u8>, i: int)
    requires
        0 <= i < bytes.len(),
    ensures
        digit_value(hex_text(bytes)[2 * i]) * 16 + digit_value(hex_text(bytes)[2 * i + 1])
            == bytes[i],
{
    let b = bytes[i] as int;
    let (high, low) = (2 * i, 2 * i + 1);
    assert(high / 2 == i && low / 2 == i && high % 2 == 0 && low % 2 == 1);
    assert(0 <= b / 16 < 16 && 0 <= b % 16 < 16);
    assert(hex_text(bytes)[high] == hex_digit(b / 16));
    assert(hex_text(bytes)[low] == hex_digit(b % 16));
}

/// A token is sixty-four hexadecimal digits, in either case; a job name has between one
/// and a hundred and twenty-eight bytes.
pub proof fn names_have_their_form(token: Seq<char>, job_id: Seq<char>)
    ensures
        valid_token(token) <==> token.len() == 64 && forall|i: int|
            0 <= i < token.len() ==> ('0' <= #[trigger] token[i] <= '9' || 'a' <= token[i] <= 'f'
                || 'A' <= token[i] <= 'F'),
        valid_job_id(job_id) <==> job_id.len() >= 1 && encode_utf8(job_id).len() <= 128,
{
    if valid_token(token) {
        assert forall|i: int| 0 <= i < token.len() implies ('0' <= #[trigger] token[i] <= '9'
            || 'a' <= token[i] <= 'f' || 'A' <= token[i] <= 'F') by {
            assert(is_hex_digit(token[i]));
        }
    }
}

} // verus!
