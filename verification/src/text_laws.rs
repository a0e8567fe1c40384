//! What the small forms mean: decimal and hexadecimal digits, white space, frames and timestamps.

use vstd::prelude::*;
use vstd::utf8::encode_utf8;

use crate::clock::timestamp_of;
use crate::digest::lower_hex;
use crate::frame::{framed, length_of, unframed};
use crate::hex_text::{
    hex_bytes, hex_value, is_hex, is_lower_hex, law_hex_reads_back, lemma_lower_hex_digits,
};
use crate::swarm::{base32_hash, hash_cause, hash_fault, hash_in};
use crate::text::{decimal, decimal_digit, is_blank, is_white_space, opt_text, signed_decimal, texts};

verus! {

// ---------------------------------------------------------------------------------------------
// Texts
// ---------------------------------------------------------------------------------------------

/// A list of strings is taken in one by one, and so is an optional string.
pub proof fn law_strings_are_taken_one_by_one(list: Seq<String>, o: Option<String>)
    ensures
        texts(list).len() == list.len(),
        forall|i: int| 0 <= i < list.len() ==> #[trigger] texts(list)[i] == list[i]@,
        o is Some ==> opt_text(o) == Some(o->0@),
        o is None ==> opt_text(o) is None,
{
}

// ---------------------------------------------------------------------------------------------
// Numbers
// ---------------------------------------------------------------------------------------------

/// The number that decimal digits give, the most significant first.
pub open spec fn number_of(digits: Seq<char>) -> int {
    digits.fold_left(0, |n: int, c: char| 10 * n + (c as int - '0' as int))
}

proof fn lemma_digit(n: nat)
    requires
        n < 10,
    ensures
        decimal_digit(n) as int == '0' as int + n,
{
    reveal_strlit("0123456789");
}

/// A number is written in decimal digits that give it, and the first of them is no zero but where
/// it is the only one.
pub proof fn law_decimals_give_the_number(n: nat)
    ensures
        number_of(decimal(n)) == n,
        decimal(n).len() > 0,
        forall|i: int| 0 <= i < decimal(n).len() ==> '0' <= #[trigger] decimal(n)[i] <= '9',
        n > 0 ==> decimal(n)[0] != '0',
        n == 0 ==> decimal(n).len() == 1,
    decreases n,
{
    let f = |n: int, c: char| 10 * n + (c as int - '0' as int);
    if n < 10 {
        lemma_digit(n);
        let s = decimal(n);
        assert(s.drop_last() =~= Seq::<char>::empty());
        reveal_with_fuel(Seq::fold_left, 2);
        assert(s.fold_left(0, f) == f(s.drop_last().fold_left(0, f), s.last()));
    } else {
        law_decimals_give_the_number(n / 10);
        lemma_digit(n % 10);
        let s = decimal(n);
        assert(s.drop_last() =~= decimal(n / 10));
        assert(s.fold_left(0, f) == f(s.drop_last().fold_left(0, f), s.last()));
        assert(s[0] == decimal(n / 10)[0]);
    }
}

/// A negative number is written as a minus sign and the digits of its opposite, any other one in
/// digits alone.
pub proof fn law_signs(n: int)
    ensures
        n >= 0 ==> number_of(signed_decimal(n)) == n,
        n < 0 ==> signed_decimal(n)[0] == '-' && number_of(signed_decimal(n).skip(1)) == -n,
{
    reveal_strlit("-");
    if n < 0 {
        law_decimals_give_the_number((-n) as nat);
        assert(signed_decimal(n).skip(1) =~= decimal((-n) as nat));
    } else {
        law_decimals_give_the_number(n as nat);
    }
}

/// What is no time before the epoch is its own timestamp; before the epoch every timestamp is 0.
pub proof fn law_timestamps(seconds: u64)
    ensures
        timestamp_of(Some(seconds)) == seconds,
        timestamp_of(None) == 0,
{
}

// ---------------------------------------------------------------------------------------------
// White space
// ---------------------------------------------------------------------------------------------

/// The code points of the white space characters.
pub open spec fn white_space_points() -> Seq<int> {
    seq![
        0x9, 0xa, 0xb, 0xc, 0xd, 0x20, 0x85, 0xa0, 0x1680, 0x2000, 0x2001, 0x2002, 0x2003, 0x2004,
        0x2005, 0x2006, 0x2007, 0x2008, 0x2009, 0x200a, 0x2028, 0x2029, 0x202f, 0x205f, 0x3000,
    ]
}

/// There are twenty-five white space characters.
pub proof fn law_white_space(c: char)
    ensures
        white_space_points().len() == 25,
        is_white_space(c) <==> white_space_points().contains(c as int),
{
    let p = white_space_points();
    let n = c as int;
    if is_white_space(c) {
        let i = if n <= 0xd {
            n - 9
        } else if n == 0x20 {
            5
        } else if n == 0x85 {
            6
        } else if n == 0xa0 {
            7
        } else if n == 0x1680 {
            8
        } else if n <= 0x200a {
            n - 0x2000 + 9
        } else if n <= 0x2029 {
            n - 0x2028 + 20
        } else if n == 0x202f {
            22
        } else if n == 0x205f {
            23
        } else {
            24
        };
        assert(0 <= i < 25 && p[i] == n);
    }
    if p.contains(n) {
        let i = choose|i: int| 0 <= i < p.len() && p[i] == n;
        assert(p[i] == n);
    }
}

/// A text is blank unless a character of it is not white space. Joined texts are blank where both
/// are.
pub proof fn law_blank_texts(a: Seq<char>, b: Seq<char>)
    ensures
        is_blank(a) <==> !(exists|i: int| 0 <= i < a.len() && !is_white_space(#[trigger] a[i])),
        is_blank(Seq::empty()),
        is_blank(a + b) <==> is_blank(a) && is_blank(b),
{
    let s = a + b;
    if is_blank(s) {
        assert forall|i: int| 0 <= i < a.len() implies is_white_space(#[trigger] a[i]) by {
            assert(s[i] == a[i]);
        }
        assert forall|i: int| 0 <= i < b.len() implies is_white_space(#[trigger] b[i]) by {
            assert(s[a.len() + i] == b[i]);
        }
    }
}

// ---------------------------------------------------------------------------------------------
// Hexadecimal
// ---------------------------------------------------------------------------------------------

/// The sixteen digits, in lower case and in upper case, have their values, and nothing else is a
/// digit.
pub proof fn law_hex_digits(c: char, n: int)
    requires
        0 <= n < 16,
    ensures
        hex_value(c) == Some(n) <==> (n < 10 && c as int == '0' as int + n) || (n >= 10 && (c as int
            == 'a' as int + n - 10 || c as int == 'A' as int + n - 10)),
        hex_value(c) matches Some(v) ==> 0 <= v < 16,
        is_lower_hex(c) <==> hex_value(c) is Some && !('A' <= c <= 'F'),
{
}

/// The bytes of a text are those of its parts, and each pair of digits gives one byte.
pub proof fn law_hex_pairs(s: Seq<char>, i: int)
    requires
        is_hex(s),
        0 <= 2 * i < s.len(),
    ensures
        hex_bytes(s).len() * 2 == s.len(),
        hex_value(s[2 * i]) == Some(hex_bytes(s)[i] as int / 16),
        hex_value(s[2 * i + 1]) == Some(hex_bytes(s)[i] as int % 16),
{
    assert(hex_value(s[2 * i]) is Some && hex_value(s[2 * i + 1]) is Some);
}

/// Bytes are written in two lower-case digits each: the text reads back, and is in lower case.
pub proof fn law_hex_is_lower_case(bytes: Seq<u8>, i: int)
    requires
        0 <= i < 2 * bytes.len(),
    ensures
        lower_hex(bytes).len() == 2 * bytes.len(),
        hex_value(lower_hex(bytes)[i]) == Some(if i % 2 == 0 {
            bytes[i / 2] as int / 16
        } else {
            bytes[i / 2] as int % 16
        }),
        !('A' <= lower_hex(bytes)[i] <= 'F'),
{
    law_hex_reads_back(bytes);
    lemma_lower_hex_digits(bytes);
    let s = lower_hex(bytes);
    law_hex_pairs(s, i / 2);
    assert(i == 2 * (i / 2) || i == 2 * (i / 2) + 1);
}

/// A text in hexadecimal gives the hash of which it is the printed form, and no other text of that
/// length gives one. One in base 32 gives what it stands for, and a text of any other length gives
/// nothing, for that reason.
pub proof fn law_hashes_are_read(text: Seq<char>, hash: Seq<u8>)
    ensures
        encode_utf8(text).len() == 64 ==> (hash_in(text) == Some(hash) <==> hash.len() == 32 && text
            == lower_hex(hash)),
        encode_utf8(text).len() == 52 ==> hash_in(text) == base32_hash(text),
        encode_utf8(text).len() == 64 || encode_utf8(text).len() == 52 ==> hash_cause(text)
            == hash_fault(text),
        encode_utf8(text).len() != 64 && encode_utf8(text).len() != 52 ==> hash_in(text) is None
            && hash_cause(text) == "Invalid length"@,
{
    if encode_utf8(text).len() == 64 {
        if hash_in(text) == Some(hash) {
            let s = lower_hex(hash);
            assert(is_hex(text)) by {
                assert forall|i: int| 0 <= i < text.len() implies hex_value(
                    #[trigger] text[i],
                ) is Some by {
                    assert(is_lower_hex(text[i]));
                }
            }
            assert forall|i: int| 0 <= i < 64 implies #[trigger] text[i] == s[i] by {
                law_hex_pairs(text, i / 2);
                law_hex_is_lower_case(hash, i);
                assert(i == 2 * (i / 2) || i == 2 * (i / 2) + 1);
                assert(is_lower_hex(text[i]));
                let v = hex_value(s[i])->0;
                assert(hex_value(text[i]) == hex_value(s[i]));
                law_hex_digits(text[i], v);
                law_hex_digits(s[i], v);
            }
            assert(text =~= s);
        }
        if hash.len() == 32 && text == lower_hex(hash) {
            law_hex_reads_back(hash);
            lemma_lower_hex_digits(hash);
        }
    }
}

// ---------------------------------------------------------------------------------------------
// Frames
// ---------------------------------------------------------------------------------------------

/// A frame is four bytes and the data; the four bytes give the length of the data in base 256, the
/// most significant first.
pub proof fn law_frames(data: Seq<u8>)
    requires
        data.len() < 0x1_0000_0000,
    ensures
        framed(data).len() == data.len() + 4,
        framed(data).skip(4) == data,
        ((framed(data)[0] as int * 256 + framed(data)[1] as int) * 256 + framed(data)[2] as int)
            * 256 + framed(data)[3] as int == data.len(),
{
    assert(framed(data).skip(4) =~= data);
}

/// What is taken from a stream is what follows the four bytes, as much as they say, and nothing
/// where the stream ends before.
pub proof fn law_frames_are_taken(stream: Seq<u8>)
    requires
        stream.len() >= 4,
    ensures
        ({
            let n = ((stream[0] as int * 256 + stream[1] as int) * 256 + stream[2] as int) * 256
                + stream[3] as int;
            &&& length_of(stream.take(4)) == n
            &&& stream.len() < 4 + n ==> unframed(stream) is None
            &&& stream.len() >= 4 + n ==> unframed(stream) == Some(stream.skip(4).take(n))
        }),
{
    let n = length_of(stream.take(4)) as int;
    if stream.len() >= 4 + n {
        assert(stream.skip(4).take(n) =~= stream.subrange(4, 4 + n));
    }
}

/// Where not even the four bytes are there, nothing is taken.
pub proof fn law_short_streams(stream: Seq<u8>)
    requires
        stream.len() < 4,
    ensures
        unframed(stream) is None,
{
}

} // verus!
