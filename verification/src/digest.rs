//! The 16-byte instance digest that identifies an instance towards the
//! remote scoreboard, together with its 32-character hex rendering.

use vstd::prelude::*;
use vstd::string::*;

verus! {

/// Number of bytes in an instance digest.
pub const IDIGEST_LEN: usize = 16;

/// A 16-byte identifier embedded in an instance header; instances that carry
/// one participate in remote aggregation.
#[derive(Clone, Debug)]
pub struct InstanceDigest {
    pub bytes: Vec<u8>,
}

impl InstanceDigest {
    /// The digest value as a byte sequence.
    pub open spec fn key(self) -> Seq<u8> {
        self.bytes@
    }

    /// A digest always holds exactly sixteen bytes.
    pub open spec fn wf(self) -> bool {
        self.bytes@.len() == IDIGEST_LEN
    }

    pub fn from_bytes(bytes: Vec<u8>) -> (r: InstanceDigest)
        requires
            bytes@.len() == IDIGEST_LEN,
        ensures
            r.wf(),
            r.key() == bytes@,
    {
        InstanceDigest { bytes }
    }

    pub fn bytes(&self) -> (r: &Vec<u8>)
        ensures
            r@ == self.key(),
    {
        &self.bytes
    }
}

impl PartialEq for InstanceDigest {
    fn eq(&self, other: &InstanceDigest) -> (r: bool) {
        bytes_eq(&self.bytes, &other.bytes)
    }
}

impl vstd::std_specs::cmp::PartialEqSpecImpl for InstanceDigest {
    open spec fn obeys_eq_spec() -> bool {
        true
    }

    open spec fn eq_spec(&self, other: &InstanceDigest) -> bool {
        self.bytes@ == other.bytes@
    }
}

/// Element-wise equality of two byte vectors.
pub fn bytes_eq(a: &Vec<u8>, b: &Vec<u8>) -> (r: bool)
    ensures
        r == (a@ == b@),
{
    if a.len() != b.len() {
        return false;
    }
    let mut i: usize = 0;
    while i < a.len()
        invariant
            a@.len() == b@.len(),
            i <= a@.len(),
            forall|j: int| 0 <= j < i ==> a@[j] == b@[j],
        decreases a@.len() - i,
    {
        if a[i] != b[i] {
            return false;
        }
        i += 1;
    }
    proof {
        assert(a@ =~= b@);
    }
    true
}

/// Is `c` a hexadecimal digit?
pub open spec fn is_hex_digit(c: char) -> bool {
    ('0' <= c && c <= '9') || ('a' <= c && c <= 'f') || ('A' <= c && c <= 'F')
}

/// The value of a hexadecimal digit.
pub open spec fn hex_digit_val(c: char) -> int {
    if '0' <= c && c <= '9' {
        c as int - '0' as int
    } else if 'a' <= c && c <= 'f' {
        10 + c as int - 'a' as int
    } else {
        10 + c as int - 'A' as int
    }
}

/// Decodes one hexadecimal digit.
pub fn parse_hex_digit(c: char) -> (r: Option<u8>)
    ensures
        r is Some <==> is_hex_digit(c),
        r matches Some(v) ==> v == hex_digit_val(c) && v < 16,
{
    if c >= '0' && c <= '9' {
        Some((c as u8) - ('0' as u8))
    } else if c >= 'a' && c <= 'f' {
        Some(10 + (c as u8) - ('a' as u8))
    } else if c >= 'A' && c <= 'F' {
        Some(10 + (c as u8) - ('A' as u8))
    } else {
        None
    }
}

/// A well-formed digest rendering: exactly 32 hexadecimal digits.
pub open spec fn is_hex32(s: Seq<char>) -> bool {
    s.len() == 32 && forall|i: int| 0 <= i < 32 ==> is_hex_digit(s[i])
}

/// The byte encoded at position `k` of a hex string.
pub open spec fn hex_byte_at(s: Seq<char>, k: int) -> int {
    16 * hex_digit_val(s[2 * k]) + hex_digit_val(s[2 * k + 1])
}

/// Parses a 32-character hex string into a digest. Returns `None` exactly on
/// strings that are not 32 hexadecimal digits.
pub fn idigest_from_hex(s: &str) -> (r: Option<InstanceDigest>)
    ensures
        r is Some <==> is_hex32(s@),
        r matches Some(d) ==> d.wf() && forall|k: int|
            0 <= k < 16 ==> d.key()[k] == hex_byte_at(s@, k),
{
    let n = s.unicode_len();
    if n != 32 {
        return None;
    }
    let mut bytes: Vec<u8> = Vec::new();
    let mut k: usize = 0;
    while k < 16
        invariant
            s@.len() == 32,
            k <= 16,
            bytes@.len() == k,
            forall|i: int| 0 <= i < 2 * k ==> is_hex_digit(s@[i]),
            forall|j: int| 0 <= j < k ==> bytes@[j] == hex_byte_at(s@, j),
        decreases 16 - k,
    {
        let hi = match parse_hex_digit(s.get_char(2 * k)) {
            Some(v) => v,
            None => {
                return None;
            },
        };
        let lo = match parse_hex_digit(s.get_char(2 * k + 1)) {
            Some(v) => v,
            None => {
                return None;
            },
        };
        bytes.push(16 * hi + lo);
        k += 1;
    }
    Some(InstanceDigest::from_bytes(bytes))
}

/// The character for one hexadecimal digit, lower case.
pub open spec fn hex_char(d: int) -> char {
    if d == 0 {
        '0'
    } else if d == 1 {
        '1'
    } else if d == 2 {
        '2'
    } else if d == 3 {
        '3'
    } else if d == 4 {
        '4'
    } else if d == 5 {
        '5'
    } else if d == 6 {
        '6'
    } else if d == 7 {
        '7'
    } else if d == 8 {
        '8'
    } else if d == 9 {
        '9'
    } else if d == 10 {
        'a'
    } else if d == 11 {
        'b'
    } else if d == 12 {
        'c'
    } else if d == 13 {
        'd'
    } else if d == 14 {
        'e'
    } else {
        'f'
    }
}

pub fn hex_char_str(d: u8) -> (r: &'static str)
    requires
        d < 16,
    ensures
        r@ == seq![hex_char(d as int)],
{
    proof {
        reveal_strlit("0");
        reveal_strlit("1");
        reveal_strlit("2");
        reveal_strlit("3");
        reveal_strlit("4");
        reveal_strlit("5");
        reveal_strlit("6");
        reveal_strlit("7");
        reveal_strlit("8");
        reveal_strlit("9");
        reveal_strlit("a");
        reveal_strlit("b");
        reveal_strlit("c");
        reveal_strlit("d");
        reveal_strlit("e");
        reveal_strlit("f");
    }
    let r: &'static str = if d == 0 {
        "0"
    } else if d == 1 {
        "1"
    } else if d == 2 {
        "2"
    } else if d == 3 {
        "3"
    } else if d == 4 {
        "4"
    } else if d == 5 {
        "5"
    } else if d == 6 {
        "6"
    } else if d == 7 {
        "7"
    } else if d == 8 {
        "8"
    } else if d == 9 {
        "9"
    } else if d == 10 {
        "a"
    } else if d == 11 {
        "b"
    } else if d == 12 {
        "c"
    } else if d == 13 {
        "d"
    } else if d == 14 {
        "e"
    } else {
        "f"
    };
    proof {
        assert(r@ =~= seq![hex_char(d as int)]);
    }
    r
}

/// The lower-case hex rendering of a byte sequence, two digits per byte.
pub open spec fn hex_of(b: Seq<u8>) -> Seq<char>
    decreases b.len(),
{
    if b.len() == 0 {
        Seq::<char>::empty()
    } else {
        hex_of(b.drop_last()) + seq![
            hex_char(b.last() as int / 16),
            hex_char(b.last() as int % 16),
        ]
    }
}

/// Renders a digest as lower-case hex characters, two per byte.
#[verifier::loop_isolation(false)]
pub fn idigest_to_hex(d: &InstanceDigest) -> (r: String)
    ensures
        r@ == hex_of(d.key()),
{
    let bytes = d.bytes();
    let mut r = String::new();
    let mut i: usize = 0;
    while i < bytes.len()
        invariant
            i <= bytes@.len(),
            r@ == hex_of(bytes@.take(i as int)),
        decreases bytes@.len() - i,
    {
        proof {
            assert(bytes@.take(i + 1).drop_last() =~= bytes@.take(i as int));
            assert(bytes@.take(i + 1).last() == bytes@[i as int]);
        }
        let b = bytes[i];
        r.append(hex_char_str(b / 16));
        r.append(hex_char_str(b % 16));
        proof {
            assert(r@ =~= hex_of(bytes@.take(i + 1)));
        }
        i += 1;
    }
    proof {
        assert(bytes@.take(bytes@.len() as int) =~= bytes@);
    }
    r
}

} // verus!
