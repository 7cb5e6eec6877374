//! Invitation codes: short texts derived from a digest.

use vstd::prelude::*;
use vstd::string::*;

verus! {

/// How many bytes of a digest go into a code.
pub const CODE_BYTES: usize = 4;

/// The upper-case hexadecimal digit for a value below 16.
pub open spec fn hex_digit(value: int) -> char {
    if value == 0 {
        '0'
    } else if value == 1 {
        '1'
    } else if value == 2 {
        '2'
    } else if value == 3 {
        '3'
    } else if value == 4 {
        '4'
    } else if value == 5 {
        '5'
    } else if value == 6 {
        '6'
    } else if value == 7 {
        '7'
    } else if value == 8 {
        '8'
    } else if value == 9 {
        '9'
    } else if value == 10 {
        'A'
    } else if value == 11 {
        'B'
    } else if value == 12 {
        'C'
    } else if value == 13 {
        'D'
    } else if value == 14 {
        'E'
    } else {
        'F'
    }
}

/// The bytes of `bytes` in upper-case hexadecimal, two digits each.
pub open spec fn hex_upper(bytes: Seq<u8>) -> Seq<char>
    decreases bytes.len(),
{
    if bytes.len() == 0 {
        Seq::empty()
    } else {
        hex_upper(bytes.drop_last()).push(hex_digit(bytes.last() as int / 16)).push(
            hex_digit(bytes.last() as int % 16),
        )
    }
}

/// The code that belongs to a digest: its first [`CODE_BYTES`] bytes, or all
/// of it where it is shorter, in upper-case hexadecimal.
pub open spec fn code_of(digest: Seq<u8>) -> Seq<char> {
    if digest.len() <= CODE_BYTES {
        hex_upper(digest)
    } else {
        hex_upper(digest.take(CODE_BYTES as int))
    }
}

/// The text of one hexadecimal digit.
fn hex_digit_text(value: u8) -> (text: &'static str)
    requires
        value < 16,
    ensures
        text@ == seq![hex_digit(value as int)],
{
    proof {
        reveal_strlit("0");
        reveal_strlit("1");
        reveal_strlit("2");
        reveal_strlit("3");
        reveal_strlit("4");
        reveal_strlit("5");
        reveal_strlit("6");
        reveal_strlit("7");
        reveal_strlit("8");
        reveal_strlit("9");
        reveal_strlit("A");
        reveal_strlit("B");
        reveal_strlit("C");
        reveal_strlit("D");
        reveal_strlit("E");
        reveal_strlit("F");
    }
    let text = if value == 0 {
        "0"
    } else if value == 1 {
        "1"
    } else if value == 2 {
        "2"
    } else if value == 3 {
        "3"
    } else if value == 4 {
        "4"
    } else if value == 5 {
        "5"
    } else if value == 6 {
        "6"
    } else if value == 7 {
        "7"
    } else if value == 8 {
        "8"
    } else if value == 9 {
        "9"
    } else if value == 10 {
        "A"
    } else if value == 11 {
        "B"
    } else if value == 12 {
        "C"
    } else if value == 13 {
        "D"
    } else if value == 14 {
        "E"
    } else {
        "F"
    };
    proof {
        assert(text@ =~= seq![hex_digit(value as int)]);
    }
    text
}

/// The invitation code for a digest. See [`code_of`].
pub fn hash_to_code(digest: &Vec<u8>) -> (code: String)
    ensures
        code@ == code_of(digest@),
        code@.len() == 2 * (if digest@.len() <= CODE_BYTES {
            digest@.len()
        } else {
            CODE_BYTES as nat
        }),
{
    let count: usize = if digest.len() <= CODE_BYTES {
        digest.len()
    } else {
        CODE_BYTES
    };
    let mut code = String::new();
    let mut i: usize = 0;
    while i < count
        invariant
            i <= count <= digest@.len(),
            code@ == hex_upper(digest@.take(i as int)),
            code@.len() == 2 * i,
        decreases count - i,
    {
        let byte = digest[i];
        let ghost before = code@;
        code.append(hex_digit_text(byte / 16));
        code.append(hex_digit_text(byte % 16));
        proof {
            let prefix = digest@.take(i + 1);
            assert(prefix.drop_last() =~= digest@.take(i as int));
            assert(prefix.last() == byte);
            assert(code@ =~= before.push(hex_digit(byte as int / 16)).push(
                hex_digit(byte as int % 16),
            ));
        }
        i += 1;
    }
    proof {
        if digest@.len() <= CODE_BYTES {
            assert(digest@.take(count as int) =~= digest@);
        }
    }
    code
}

} // verus!
