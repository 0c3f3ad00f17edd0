//! Names and storage paths: decoding stored names, joining paths, naming the
//! members and the index stream of a collection.

use crate::bytes::le_u16;
use crate::error::{view_result, AafError, ErrorView};
use encoding::Encoding;
use vstd::prelude::*;
use vstd::slice::slice_subrange;
use vstd::string::*;

verus! {

broadcast use vstd::slice::group_slice_axioms;

/// The 16-bit units that `bytes` hold, each low byte first. A last byte
/// without a partner belongs to no unit.
pub open spec fn utf16_units(bytes: Seq<u8>) -> Seq<u16> {
    Seq::new((bytes.len() / 2) as nat, |i: int| le_u16(bytes, 2 * i) as u16)
}

/// Whether a unit is the first half of a surrogate pair.
pub open spec fn is_high_surrogate(unit: u16) -> bool {
    0xd800 <= unit <= 0xdbff
}

/// Whether a unit is the second half of a surrogate pair.
pub open spec fn is_low_surrogate(unit: u16) -> bool {
    0xdc00 <= unit <= 0xdfff
}

/// The character beyond U+FFFF that a surrogate pair stands for.
pub open spec fn surrogate_pair(high: u16, low: u16) -> char {
    (0x10000 + (high - 0xd800) * 0x400 + (low - 0xdc00)) as char
}

/// The text that the units from position `from` on stand for in UTF-16: a
/// unit that is no surrogate is a character by itself, a high surrogate and
/// the low surrogate behind it are one character together, and a surrogate
/// in any other place makes the units no text.
pub open spec fn utf16_text(units: Seq<u16>, from: int) -> Option<Seq<char>>
    decreases units.len() - from,
{
    if from < 0 || from >= units.len() {
        Some(Seq::empty())
    } else if is_high_surrogate(units[from]) {
        if from + 1 < units.len() && is_low_surrogate(units[from + 1]) {
            match utf16_text(units, from + 2) {
                Some(rest) => Some(seq![surrogate_pair(units[from], units[from + 1])] + rest),
                None => None,
            }
        } else {
            None
        }
    } else if is_low_surrogate(units[from]) {
        None
    } else {
        match utf16_text(units, from + 1) {
            Some(rest) => Some(seq![units[from] as char] + rest),
            None => None,
        }
    }
}

/// The text that `bytes` stand for in UTF-16, low byte first, or `None`
/// where they are no well-formed UTF-16: an odd number of bytes is none.
pub open spec fn utf16le_decoded(bytes: Seq<u8>) -> Option<Seq<char>> {
    if bytes.len() % 2 == 0 {
        utf16_text(utf16_units(bytes), 0)
    } else {
        None
    }
}

/// `encoding::all::UTF_16LE.decode(.., DecoderTrap::Strict)`: the text that
/// the bytes stand for in UTF-16, low byte first, or nothing where the
/// decoder reports an error, which it does for a surrogate that stands alone
/// and for bytes that end inside a character.
#[verifier::external_body]
fn decode_utf16le(bytes: &[u8]) -> (r: Option<String>)
    ensures
        match r {
            Some(s) => utf16le_decoded(bytes@) == Some(s@),
            None => utf16le_decoded(bytes@) is None,
        },
{
    encoding::all::UTF_16LE.decode(bytes, encoding::DecoderTrap::Strict).ok()
}

/// The name that a stored name stands for: its bytes without the two-byte
/// terminator at the end, decoded as UTF-16. A name that cannot be decoded
/// is malformed, and so is one too short to hold its terminator.
pub open spec fn spec_decode_name(raw: Seq<u8>) -> Result<Seq<char>, ErrorView> {
    if raw.len() < 2 {
        Err(ErrorView::FormatError)
    } else {
        match utf16le_decoded(raw.subrange(0, raw.len() - 2)) {
            Some(name) => Ok(name),
            None => Err(ErrorView::FormatError),
        }
    }
}

/// Decodes a stored name.
pub fn decode_name(raw: &[u8]) -> (r: Result<String, AafError>)
    ensures
        view_result(r) == spec_decode_name(raw@),
{
    let n = raw.len();
    if n < 2 {
        return Err(AafError::FormatError);
    }
    match decode_utf16le(slice_subrange(raw, 0, n - 2)) {
        Some(name) => Ok(name),
        None => Err(AafError::FormatError),
    }
}

/// The lowercase hexadecimal digit for a value below sixteen.
pub open spec fn hex_digit(d: int) -> char {
    if d == 0 {
        '0'
    } else if d == 1 {
        '1'
    } else if d == 2 {
        '2'
    } else if d == 3 {
        '3'
    } else if d == 4 {
        '4'
    } else if d == 5 {
        '5'
    } else if d == 6 {
        '6'
    } else if d == 7 {
        '7'
    } else if d == 8 {
        '8'
    } else if d == 9 {
        '9'
    } else if d == 10 {
        'a'
    } else if d == 11 {
        'b'
    } else if d == 12 {
        'c'
    } else if d == 13 {
        'd'
    } else if d == 14 {
        'e'
    } else {
        'f'
    }
}

/// The value of a lowercase hexadecimal digit; sixteen for any other
/// character.
pub open spec fn hex_digit_value(c: char) -> nat {
    if c == '0' {
        0
    } else if c == '1' {
        1
    } else if c == '2' {
        2
    } else if c == '3' {
        3
    } else if c == '4' {
        4
    } else if c == '5' {
        5
    } else if c == '6' {
        6
    } else if c == '7' {
        7
    } else if c == '8' {
        8
    } else if c == '9' {
        9
    } else if c == 'a' {
        10
    } else if c == 'b' {
        11
    } else if c == 'c' {
        12
    } else if c == 'd' {
        13
    } else if c == 'e' {
        14
    } else if c == 'f' {
        15
    } else {
        16
    }
}

/// The number that a string of hexadecimal digits stands for.
pub open spec fn hex_value(s: Seq<char>) -> nat
    decreases s.len(),
{
    if s.len() == 0 {
        0
    } else {
        16 * hex_value(s.drop_last()) + hex_digit_value(s.last())
    }
}

/// The digits of `n` in lowercase hexadecimal, most significant first,
/// without padding: one digit for zero, no leading zero otherwise.
pub open spec fn hex_digits(n: nat) -> Seq<char>
    decreases n,
{
    if n < 16 {
        seq![hex_digit(n as int)]
    } else {
        hex_digits(n / 16).push(hex_digit((n % 16) as int))
    }
}

/// What makes `hex_digits(n)` the hexadecimal numeral of `n`: it is not
/// empty, each character is a lowercase hexadecimal digit, the digits stand
/// for `n`, and the first digit is zero only for zero itself.
pub proof fn lemma_hex_digits_canonical(n: nat)
    ensures
        hex_digits(n).len() >= 1,
        forall|i: int| 0 <= i < hex_digits(n).len() ==> hex_digit_value(#[trigger] hex_digits(n)[i]) < 16,
        hex_value(hex_digits(n)) == n,
        n > 0 ==> hex_digits(n)[0] != '0',
        n == 0 ==> hex_digits(n) == seq!['0'],
    decreases n,
{
    if n < 16 {
        let s = hex_digits(n);
        assert(s.drop_last() =~= Seq::<char>::empty());
        assert(hex_value(s.drop_last()) == 0);
    } else {
        lemma_hex_digits_canonical(n / 16);
        let s = hex_digits(n);
        assert(s.drop_last() =~= hex_digits(n / 16));
        assert(s[0] == hex_digits(n / 16)[0]);
    }
}

/// The one-character string for a hexadecimal digit.
fn hex_digit_str(d: u32) -> (s: &'static str)
    requires
        d < 16,
    ensures
        s@ == seq![hex_digit(d as int)],
{
    proof {
        reveal_strlit("0");
        reveal_strlit("1");
        reveal_strlit("2");
        reveal_strlit("3");
        reveal_strlit("4");
        reveal_strlit("5");
        reveal_strlit("6");
        reveal_strlit("7");
        reveal_strlit("8");
        reveal_strlit("9");
        reveal_strlit("a");
        reveal_strlit("b");
        reveal_strlit("c");
        reveal_strlit("d");
        reveal_strlit("e");
        reveal_strlit("f");
    }
    let s = if d == 0 {
        "0"
    } else if d == 1 {
        "1"
    } else if d == 2 {
        "2"
    } else if d == 3 {
        "3"
    } else if d == 4 {
        "4"
    } else if d == 5 {
        "5"
    } else if d == 6 {
        "6"
    } else if d == 7 {
        "7"
    } else if d == 8 {
        "8"
    } else if d == 9 {
        "9"
    } else if d == 10 {
        "a"
    } else if d == 11 {
        "b"
    } else if d == 12 {
        "c"
    } else if d == 13 {
        "d"
    } else if d == 14 {
        "e"
    } else {
        "f"
    };
    assert(s@ =~= seq![hex_digit(d as int)]);
    s
}

/// The lowercase hexadecimal numeral of `n`, without padding.
pub fn lower_hex(n: u32) -> (s: String)
    ensures
        s@ == hex_digits(n as nat),
    decreases n,
{
    if n < 16 {
        String::from_str(hex_digit_str(n))
    } else {
        let head = lower_hex(n / 16);
        let s = head.concat(hex_digit_str(n % 16));
        assert(s@ =~= hex_digits(n as nat));
        s
    }
}

/// The path of the entry called `name` inside the storage at `parent`: the
/// two joined by one slash, which a parent that ends in a slash (the root)
/// already brings.
pub open spec fn spec_join_path(parent: Seq<char>, name: Seq<char>) -> Seq<char> {
    if parent.len() == 0 || parent.last() == '/' {
        parent + name
    } else {
        parent + seq!['/'] + name
    }
}

/// Joins a storage path and the name of an entry in that storage.
pub fn join_path(parent: &str, name: &str) -> (path: String)
    ensures
        path@ == spec_join_path(parent@, name@),
{
    let n = parent.unicode_len();
    let mut path = String::from_str(parent);
    if n > 0 && parent.get_char(n - 1) != '/' {
        proof {
            reveal_strlit("/");
        }
        path.append("/");
        assert("/"@ =~= seq!['/']);
    }
    path.append(name);
    path
}

/// The name of the stream that indexes the collection called `name`.
pub open spec fn spec_index_name(name: Seq<char>) -> Seq<char> {
    name + seq![' ', 'i', 'n', 'd', 'e', 'x']
}

/// Names the index stream of a collection.
pub fn index_name(name: &str) -> (r: String)
    ensures
        r@ == spec_index_name(name@),
{
    proof {
        reveal_strlit(" index");
    }
    assert(" index"@ =~= seq![' ', 'i', 'n', 'd', 'e', 'x']);
    String::from_str(name).concat(" index")
}

/// The name of the member with local key `key` of the collection called
/// `name`: the collection's name, directly followed by the key in lowercase
/// hexadecimal without padding.
pub open spec fn spec_member_name(name: Seq<char>, key: u32) -> Seq<char> {
    name + hex_digits(key as nat)
}

/// Names a member of a collection.
pub fn member_name(name: &str, key: u32) -> (r: String)
    ensures
        r@ == spec_member_name(name@, key),
{
    let hex = lower_hex(key);
    String::from_str(name).concat(hex.as_str())
}

/// The storage path of the member with local key `key` of the collection
/// called `name`, which belongs to the object stored at `parent`.
pub open spec fn spec_member_path(parent: Seq<char>, name: Seq<char>, key: u32) -> Seq<char> {
    spec_join_path(parent, spec_member_name(name, key))
}

/// The storage path of a member of a collection.
pub fn member_path(parent: &str, name: &str, key: u32) -> (r: String)
    ensures
        r@ == spec_member_path(parent@, name@, key),
{
    let member = member_name(name, key);
    join_path(parent, member.as_str())
}

} // verus!
