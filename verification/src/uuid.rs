//! Globally unique identifiers: 16 bytes on the wire, big-endian halves,
//! shown to the login layer as the usual hyphenated hex string.

use vstd::prelude::*;

use crate::primitive::be64_wire;
use crate::protocol::ProtocolWrite;
use vstd::string::StringExecFns;

verus! {

/// A 128-bit identifier, split into its big-endian halves.
#[derive(Debug, Clone, Copy, PartialEq, Eq, Structural)]
pub struct Uuid {
    pub msb: u64,
    pub lsb: u64,
}

impl ProtocolWrite for Uuid {
    open spec fn valid(&self) -> bool {
        true
    }

    open spec fn wire(&self) -> Seq<u8> {
        be64_wire(self.msb) + be64_wire(self.lsb)
    }

    fn proto_len(&self) -> (n: usize) {
        16
    }

    fn proto_encode(&self, dst: &mut Vec<u8>) {
        self.msb.proto_encode(dst);
        self.lsb.proto_encode(dst);
        assert(dst@ =~= old(dst)@ + self.wire());
    }
}

/// The lower-case hex digit for a value below 16.
pub open spec fn hex_char(n: int) -> char {
    if n == 0 {
        '0'
    } else if n == 1 {
        '1'
    } else if n == 2 {
        '2'
    } else if n == 3 {
        '3'
    } else if n == 4 {
        '4'
    } else if n == 5 {
        '5'
    } else if n == 6 {
        '6'
    } else if n == 7 {
        '7'
    } else if n == 8 {
        '8'
    } else if n == 9 {
        '9'
    } else if n == 10 {
        'a'
    } else if n == 11 {
        'b'
    } else if n == 12 {
        'c'
    } else if n == 13 {
        'd'
    } else if n == 14 {
        'e'
    } else {
        'f'
    }
}

/// The 16 hex digits of a 64-bit half, most significant first.
pub open spec fn hex_chars_u64(x: u64) -> Seq<char> {
    Seq::new(16, |i: int| hex_char(((x >> ((4 * (15 - i)) as u64)) & 0xf) as int))
}

/// The hyphenated form: 8-4-4-4-12 hex digits.
pub open spec fn uuid_chars(u: Uuid) -> Seq<char> {
    let m = hex_chars_u64(u.msb);
    let l = hex_chars_u64(u.lsb);
    m.take(8) + seq!['-'] + m.subrange(8, 12) + seq!['-'] + m.subrange(12, 16) + seq!['-']
        + l.take(4) + seq!['-'] + l.subrange(4, 16)
}

fn hex_str(n: u64) -> (r: &'static str)
    requires
        n < 16,
    ensures
        r@ == seq![hex_char(n as int)],
{
    proof {
        reveal_strlit("0");
        reveal_strlit("1");
        reveal_strlit("2");
        reveal_strlit("3");
        reveal_strlit("4");
        reveal_strlit("5");
        reveal_strlit("6");
        reveal_strlit("7");
        reveal_strlit("8");
        reveal_strlit("9");
        reveal_strlit("a");
        reveal_strlit("b");
        reveal_strlit("c");
        reveal_strlit("d");
        reveal_strlit("e");
        reveal_strlit("f");
    }
    if n == 0 {
        "0"
    } else if n == 1 {
        "1"
    } else if n == 2 {
        "2"
    } else if n == 3 {
        "3"
    } else if n == 4 {
        "4"
    } else if n == 5 {
        "5"
    } else if n == 6 {
        "6"
    } else if n == 7 {
        "7"
    } else if n == 8 {
        "8"
    } else if n == 9 {
        "9"
    } else if n == 10 {
        "a"
    } else if n == 11 {
        "b"
    } else if n == 12 {
        "c"
    } else if n == 13 {
        "d"
    } else if n == 14 {
        "e"
    } else {
        "f"
    }
}

/// Append the 16 hex digits of `x`, most significant nibble first.
fn push_hex_u64(out: &mut String, x: u64)
    ensures
        final(out)@ == old(out)@ + hex_chars_u64(x),
{
    let mut i: usize = 0;
    while i < 16
        invariant
            i <= 16,
            out@ == old(out)@ + hex_chars_u64(x).take(i as int),
        decreases 16 - i,
    {
        let shift: u64 = (4 * (15 - i)) as u64;
        let nib: u64 = (x >> shift) & 0xf;
        proof {
            let ii = i as u64;
            assert((x >> ((4 * (15 - ii)) as u64)) & 0xf < 16) by (bit_vector)
                requires
                    ii < 16,
            ;
        }
        out.append(hex_str(nib));
        proof {
            assert(out@ =~= old(out)@ + hex_chars_u64(x).take(i + 1));
        }
        i = i + 1;
    }
    proof {
        assert(hex_chars_u64(x).take(16) =~= hex_chars_u64(x));
    }
}

/// Every character of the hyphenated form is ASCII, so its byte form
/// is one byte per character.
pub proof fn lemma_uuid_chars_ascii(u: Uuid)
    ensures
        vstd::utf8::encode_utf8(uuid_chars(u)).len() == 36,
{
    assert(uuid_chars(u).len() == 36);
    assert(vstd::utf8::is_ascii_chars(uuid_chars(u))) by {
        assert(forall|k: int| '\0' <= #[trigger] hex_char(k) <= '\u{7f}');
        assert forall|i: int| 0 <= i < uuid_chars(u).len() implies '\0' <= #[trigger] uuid_chars(
            u,
        )[i] <= '\u{7f}' by {
            let c = uuid_chars(u)[i];
        }
    }
    vstd::utf8::is_ascii_chars_encode_utf8(uuid_chars(u));
}

impl Uuid {
    /// The hyphenated lower-case hex form, 36 characters.
    pub fn to_hyphenated_string(&self) -> (r: String)
        ensures
            r@ == uuid_chars(*self),
            r@.len() == 36,
    {
        let mut m = String::new();
        push_hex_u64(&mut m, self.msb);
        let mut l = String::new();
        push_hex_u64(&mut l, self.lsb);
        let ms = m.as_str();
        let ls = l.as_str();
        proof {
            reveal_strlit("-");
        }
        let mut out = String::new();
        out.append(ms.substring_char(0, 8));
        out.append("-");
        out.append(ms.substring_char(8, 12));
        out.append("-");
        out.append(ms.substring_char(12, 16));
        out.append("-");
        out.append(ls.substring_char(0, 4));
        out.append("-");
        out.append(ls.substring_char(4, 16));
        proof {
            assert(out@ =~= uuid_chars(*self));
        }
        out
    }
}

} // verus!
