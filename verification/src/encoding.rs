//! Text forms of byte strings.

use vstd::prelude::*;
use vstd::string::*;

verus! {

/// The character for the value `value`, below 64, in the standard Base64 alphabet.
pub open spec fn base64_char(value: int) -> char {
    if value < 26 {
        ('A' as int + value) as char
    } else if value < 52 {
        ('a' as int + (value - 26)) as char
    } else if value < 62 {
        ('0' as int + (value - 52)) as char
    } else if value == 62 {
        '+'
    } else {
        '/'
    }
}

/// The group `index` of six bits in `data`, read from the most significant bit of the first byte on
/// and filled up with zero bits behind the last byte.
pub open spec fn sextet(data: Seq<u8>, index: int) -> int {
    let at = index * 6 / 8;
    let high = data[at] as int;
    let low = if at + 1 < data.len() {
        data[at + 1] as int
    } else {
        0
    };
    if index % 4 == 0 {
        high / 4
    } else if index % 4 == 1 {
        high % 4 * 16 + low / 16
    } else if index % 4 == 2 {
        high % 16 * 4 + low / 64
    } else {
        high % 64
    }
}

/// The number of characters that `len` bytes take in Base64 without padding.
pub open spec fn base64_len(len: nat) -> nat {
    (len * 4 + 2) / 3
}

/// The Base64 text of `data` in the standard alphabet, without padding.
pub open spec fn base64_text(data: Seq<u8>) -> Seq<char> {
    Seq::new(base64_len(data.len()), |i: int| base64_char(sextet(data, i)))
}

/// Calls `base64::Engine::encode` on the engine `base64::prelude::BASE64_STANDARD_NO_PAD`.
///
/// Claimed of it: it gives one character of the standard alphabet for each group of six bits, the
/// last group filled up with zeros, and no padding. It panics where the text would not fit into an
/// allocation.
#[verifier::external_body]
pub(crate) fn base64_no_pad(data: &[u8]) -> (text: String)
    requires
        base64_len(data@.len()) <= isize::MAX,
    ensures
        text@ == base64_text(data@),
{
    base64::Engine::encode(&base64::prelude::BASE64_STANDARD_NO_PAD, data)
}

/// The text that `String::from_utf8_lossy` makes of a byte string.
pub uninterp spec fn lossy_text(bytes: Seq<u8>) -> Seq<char>;

/// Calls `String::from_utf8_lossy`.
///
/// Claimed of it: the text depends on the bytes alone, and valid UTF-8 is decoded as it stands.
#[verifier::external_body]
pub(crate) fn decode_lossy(bytes: &[u8]) -> (text: String)
    ensures
        text@ == lossy_text(bytes@),
        vstd::utf8::valid_utf8(bytes@) ==> text@ == vstd::utf8::decode_utf8(bytes@),
{
    String::from_utf8_lossy(bytes).into_owned()
}

/// The lower case hexadecimal digit of `value`, which is below 16.
pub open spec fn hex_digit(value: int) -> char {
    if value < 10 {
        ('0' as int + value) as char
    } else {
        ('a' as int + (value - 10)) as char
    }
}

/// The text of `bytes` with two lower case hexadecimal digits for each byte.
pub open spec fn hex_text(bytes: Seq<u8>) -> Seq<char> {
    Seq::new(
        bytes.len() * 2,
        |i: int|
            if i % 2 == 0 {
                hex_digit(bytes[i / 2] as int / 16)
            } else {
                hex_digit(bytes[i / 2] as int % 16)
            },
    )
}

/// The digits as strings of one character.
fn digit(value: u8) -> (text: &'static str)
    requires
        value < 16,
    ensures
        text@ == seq![hex_digit(value as int)],
{
    proof {
        reveal_strlit("0");
        reveal_strlit("1");
        reveal_strlit("2");
        reveal_strlit("3");
        reveal_strlit("4");
        reveal_strlit("5");
        reveal_strlit("6");
        reveal_strlit("7");
        reveal_strlit("8");
        reveal_strlit("9");
        reveal_strlit("a");
        reveal_strlit("b");
        reveal_strlit("c");
        reveal_strlit("d");
        reveal_strlit("e");
        reveal_strlit("f");
    }
    let text = match value {
        0 => "0",
        1 => "1",
        2 => "2",
        3 => "3",
        4 => "4",
        5 => "5",
        6 => "6",
        7 => "7",
        8 => "8",
        9 => "9",
        10 => "a",
        11 => "b",
        12 => "c",
        13 => "d",
        14 => "e",
        _ => "f",
    };
    assert(text@ =~= seq![hex_digit(value as int)]);
    text
}

/// Returns the bytes of `buffer` as lower case hexadecimal digits.
pub fn hex_dump(buffer: &[u8]) -> (dump: String)
    ensures
        dump@ == hex_text(buffer@),
{
    let mut dump = String::new();
    let mut index: usize = 0;
    assert(hex_text(buffer@.take(0)) =~= Seq::empty());
    while index < buffer.len()
        invariant
            index <= buffer@.len(),
            dump@ == hex_text(buffer@.take(index as int)),
        decreases buffer@.len() - index,
    {
        let ghost before = dump@;
        let byte = buffer[index];
        dump.append(digit(byte / 16));
        dump.append(digit(byte % 16));
        proof {
            let longer = buffer@.take(index + 1);
            assert(dump@ =~= hex_text(longer)) by {
                assert forall|i: int| 0 <= i < dump@.len() implies dump@[i] == hex_text(longer)[i] by {
                    if i < before.len() {
                        assert(before[i] == hex_text(buffer@.take(index as int))[i]);
                    }
                }
            }
        }
        index = index + 1;
    }
    assert(buffer@.take(index as int) =~= buffer@);
    dump
}

/// Characters of the Base64 alphabet stand for one value each.
proof fn lemma_base64_char_injective(first: int, second: int)
    requires
        0 <= first < 64,
        0 <= second < 64,
        base64_char(first) == base64_char(second),
    ensures
        first == second,
{
}

/// A group of six bits is below 64.
proof fn lemma_sextet_range(data: Seq<u8>, index: int)
    requires
        0 <= index < base64_len(data.len()),
    ensures
        0 <= sextet(data, index) < 64,
{
}

/// Two byte strings with the same Base64 text have the same groups of six bits.
proof fn lemma_same_sextets(first: Seq<u8>, second: Seq<u8>, index: int)
    requires
        base64_text(first) == base64_text(second),
        0 <= index < base64_len(first.len()),
    ensures
        sextet(first, index) == sextet(second, index),
{
    assert(base64_text(first).len() == base64_len(first.len()));
    assert(base64_text(second).len() == base64_len(second.len()));
    assert(base64_text(first)[index] == base64_char(sextet(first, index)));
    assert(base64_text(second)[index] == base64_char(sextet(second, index)));
    lemma_sextet_range(first, index);
    lemma_sextet_range(second, index);
    lemma_base64_char_injective(sextet(first, index), sextet(second, index));
}

/// A Base64 text stands for one byte string: nothing of a message is lost in it.
pub proof fn law_base64_injective(first: Seq<u8>, second: Seq<u8>)
    requires
        base64_text(first) == base64_text(second),
    ensures
        first == second,
{
    assert(base64_text(first).len() == base64_len(first.len()));
    assert(base64_text(second).len() == base64_len(second.len()));
    assert(first.len() == second.len());
    assert forall|k: int| 0 <= k < first.len() implies first[k] == second[k] by {
        let group = k / 3;
        if k % 3 == 0 {
            lemma_same_sextets(first, second, 4 * group);
            lemma_same_sextets(first, second, 4 * group + 1);
        } else if k % 3 == 1 {
            lemma_same_sextets(first, second, 4 * group + 1);
            lemma_same_sextets(first, second, 4 * group + 2);
        } else {
            lemma_same_sextets(first, second, 4 * group + 2);
            lemma_same_sextets(first, second, 4 * group + 3);
        }
    }
    assert(first =~= second);
}

/// A hexadecimal dump stands for one byte string.
pub proof fn law_hex_injective(first: Seq<u8>, second: Seq<u8>)
    requires
        hex_text(first) == hex_text(second),
    ensures
        first == second,
{
    assert(hex_text(first).len() == first.len() * 2);
    assert(hex_text(second).len() == second.len() * 2);
    assert forall|k: int| 0 <= k < first.len() implies first[k] == second[k] by {
        assert(2 * k / 2 == k && (2 * k + 1) / 2 == k);
        assert(hex_text(first)[2 * k] == hex_digit(first[k] as int / 16));
        assert(hex_text(second)[2 * k] == hex_digit(second[k] as int / 16));
        assert(hex_text(first)[2 * k + 1] == hex_digit(first[k] as int % 16));
        assert(hex_text(second)[2 * k + 1] == hex_digit(second[k] as int % 16));
    }
    assert(first =~= second);
}

/// The number of characters of a Base64 text: four for three bytes, two or three for the rest.
pub proof fn law_base64_length(data: Seq<u8>)
    ensures
        base64_text(data).len() == data.len() / 3 * 4 + if data.len() % 3 == 0 {
            0int
        } else {
            (data.len() % 3 + 1) as int
        },
{
}

/// Whether `c` is the character for `value` in the standard Base64 alphabet.
pub open spec fn stands_for(c: char, value: int) -> bool {
    ||| 'A' <= c <= 'Z' && value == c as int - 'A' as int
    ||| 'a' <= c <= 'z' && value == c as int - 'a' as int + 26
    ||| '0' <= c <= '9' && value == c as int - '0' as int + 52
    ||| c == '+' && value == 62
    ||| c == '/' && value == 63
}

/// Every three bytes are the number that their four characters stand for.
pub proof fn law_base64_groups(data: Seq<u8>, group: int, a: int, b: int, c: int, d: int)
    requires
        0 <= group,
        3 * group + 2 < data.len(),
        stands_for(base64_text(data)[4 * group], a),
        stands_for(base64_text(data)[4 * group + 1], b),
        stands_for(base64_text(data)[4 * group + 2], c),
        stands_for(base64_text(data)[4 * group + 3], d),
    ensures
        data[3 * group] * 65536 + data[3 * group + 1] * 256 + data[3 * group + 2] == a * 262144 + b
            * 4096 + c * 64 + d,
{
    let text = base64_text(data);
    lemma_sextet_range(data, 4 * group);
    lemma_sextet_range(data, 4 * group + 1);
    lemma_sextet_range(data, 4 * group + 2);
    lemma_sextet_range(data, 4 * group + 3);
    assert(text[4 * group] == base64_char(sextet(data, 4 * group)));
    assert(text[4 * group + 1] == base64_char(sextet(data, 4 * group + 1)));
    assert(text[4 * group + 2] == base64_char(sextet(data, 4 * group + 2)));
    assert(text[4 * group + 3] == base64_char(sextet(data, 4 * group + 3)));
}

/// Every character of a Base64 text stands for a value.
pub proof fn law_base64_alphabet(data: Seq<u8>, index: int)
    requires
        0 <= index < base64_text(data).len(),
    ensures
        exists|value: int| 0 <= value < 64 && #[trigger] stands_for(base64_text(data)[index], value),
{
    lemma_sextet_range(data, index);
    assert(stands_for(base64_text(data)[index], sextet(data, index)));
}

/// The bytes behind the last three are the number that the last characters stand for, followed by
/// zero bits.
pub proof fn law_base64_rest(data: Seq<u8>, a: int, b: int, c: int)
    ensures
        ({
            let group = data.len() as int / 3;
            let text = base64_text(data);
            &&& data.len() % 3 == 1 && stands_for(text[4 * group], a) && stands_for(
                text[4 * group + 1],
                b,
            ) ==> data[3 * group] * 16 == a * 64 + b
            &&& data.len() % 3 == 2 && stands_for(text[4 * group], a) && stands_for(
                text[4 * group + 1],
                b,
            ) && stands_for(text[4 * group + 2], c) ==> (data[3 * group] * 256 + data[3 * group
                + 1]) * 4 == a * 4096 + b * 64 + c
        }),
{
    let group = data.len() as int / 3;
    let text = base64_text(data);
    if data.len() % 3 != 0 {
        lemma_sextet_range(data, 4 * group);
        lemma_sextet_range(data, 4 * group + 1);
        assert(text[4 * group] == base64_char(sextet(data, 4 * group)));
        assert(text[4 * group + 1] == base64_char(sextet(data, 4 * group + 1)));
    }
    if data.len() % 3 == 2 {
        lemma_sextet_range(data, 4 * group + 2);
        assert(text[4 * group + 2] == base64_char(sextet(data, 4 * group + 2)));
    }
}

/// Whether `c` is the lower case hexadecimal digit of `value`.
pub open spec fn is_digit_of(c: char, value: int) -> bool {
    ||| '0' <= c <= '9' && value == c as int - '0' as int
    ||| 'a' <= c <= 'f' && value == c as int - 'a' as int + 10
}

/// A hexadecimal dump has two digits for each byte, the higher one first, and every byte is the number
/// that its digits make.
pub proof fn law_hex_digits(bytes: Seq<u8>, index: int, high: int, low: int)
    requires
        0 <= index < bytes.len(),
    ensures
        hex_text(bytes).len() == 2 * bytes.len(),
        is_digit_of(hex_text(bytes)[2 * index], bytes[index] as int / 16),
        is_digit_of(hex_text(bytes)[2 * index + 1], bytes[index] as int % 16),
        is_digit_of(hex_text(bytes)[2 * index], high) && is_digit_of(
            hex_text(bytes)[2 * index + 1],
            low,
        ) ==> bytes[index] == 16 * high + low,
{
    assert(2 * index / 2 == index && (2 * index + 1) / 2 == index);
    assert(hex_text(bytes)[2 * index] == hex_digit(bytes[index] as int / 16));
    assert(hex_text(bytes)[2 * index + 1] == hex_digit(bytes[index] as int % 16));
}

} // verus!
