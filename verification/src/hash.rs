use vstd::prelude::*;

use crate::io::str_chars;

verus! {

/// Number of bits set among the lowest `k` bits of `x`
pub open spec fn bits_set(x: u8, k: nat) -> nat
    decreases k,
{
    if k == 0 {
        0
    } else {
        bits_set(x, (k - 1) as nat) + ((x >> ((k - 1) as u8)) & 1u8) as nat
    }
}

/// Number of bits that differ between `a` and `b`, over their first `n` bytes
pub open spec fn hamming(a: Seq<u8>, b: Seq<u8>, n: nat) -> nat
    decreases n,
{
    if n == 0 {
        0
    } else {
        hamming(a, b, (n - 1) as nat) + bits_set(a[n - 1] ^ b[n - 1], 8)
    }
}

/// Value of a hexadecimal digit, in either case
pub open spec fn hex_value(c: char) -> Option<u8> {
    if '0' <= c <= '9' {
        Some((c as u32 - '0' as u32) as u8)
    } else if 'a' <= c <= 'f' {
        Some((c as u32 - 'a' as u32 + 10) as u8)
    } else if 'A' <= c <= 'F' {
        Some((c as u32 - 'A' as u32 + 10) as u8)
    } else {
        None
    }
}

/// Lower-case hexadecimal digit of a value below 16
pub open spec fn hex_digit(v: u8) -> char {
    if v < 10 {
        (v + '0' as u8) as char
    } else {
        (v - 10 + 'a' as u8) as char
    }
}

/// `s` spells 32 bytes as 64 hexadecimal digits, and `bytes` are those bytes
pub open spec fn hex_spells(s: Seq<char>, bytes: Seq<u8>) -> bool {
    &&& s.len() == 64
    &&& bytes.len() == 32
    &&& forall|i: int|
        0 <= i < 32 ==> {
            &&& #[trigger] hex_value(s[2 * i]) is Some
            &&& hex_value(s[2 * i + 1]) is Some
            &&& bytes[i] == hex_value(s[2 * i])->0 * 16 + hex_value(s[2 * i + 1])->0
        }
}

/// The lower-case hexadecimal spelling of `bytes`, two digits per byte
pub open spec fn hex_string(bytes: Seq<u8>) -> Seq<char> {
    Seq::new(
        2 * bytes.len(),
        |k: int|
            if k % 2 == 0 {
                hex_digit(bytes[k / 2] / 16)
            } else {
                hex_digit(bytes[k / 2] % 16)
            },
    )
}

/// Hash is used for content-based hashing: a 256-bit perceptual hash digest
#[derive(Debug, Clone, Copy, PartialEq, Eq, PartialOrd, Ord)]
pub struct Hash(pub [u8; 32]);

/// An error returned when a string does not spell a hash
#[derive(Debug, Clone, Copy, PartialEq, Eq, Structural)]
pub struct HashParseError;

fn count_bits(x: u8) -> (r: u32)
    ensures
        r == bits_set(x, 8),
{
    let mut r: u32 = 0;
    let mut k: u8 = 0;
    while k < 8
        invariant
            k <= 8,
            r == bits_set(x, k as nat),
            r <= k,
        decreases 8 - k,
    {
        let bit = (x >> k) & 1u8;
        assert(bit <= 1) by (bit_vector)
            requires
                bit == (x >> k) & 1u8,
        ;
        r = r + bit as u32;
        k = k + 1;
    }
    r
}

fn hex_char_value(c: char) -> (r: Option<u8>)
    ensures
        r == hex_value(c),
{
    if '0' <= c && c <= '9' {
        Some((c as u32 - '0' as u32) as u8)
    } else if 'a' <= c && c <= 'f' {
        Some((c as u32 - 'a' as u32 + 10) as u8)
    } else if 'A' <= c && c <= 'F' {
        Some((c as u32 - 'A' as u32 + 10) as u8)
    } else {
        None
    }
}

pub(crate) fn hex_char(v: u8) -> (r: &'static str)
    requires
        v < 16,
    ensures
        r@ == seq![hex_digit(v)],
{
    let r = match v {
        0 => "0",
        1 => "1",
        2 => "2",
        3 => "3",
        4 => "4",
        5 => "5",
        6 => "6",
        7 => "7",
        8 => "8",
        9 => "9",
        10 => "a",
        11 => "b",
        12 => "c",
        13 => "d",
        14 => "e",
        _ => "f",
    };
    proof {
        reveal_strlit("0");
        reveal_strlit("1");
        reveal_strlit("2");
        reveal_strlit("3");
        reveal_strlit("4");
        reveal_strlit("5");
        reveal_strlit("6");
        reveal_strlit("7");
        reveal_strlit("8");
        reveal_strlit("9");
        reveal_strlit("a");
        reveal_strlit("b");
        reveal_strlit("c");
        reveal_strlit("d");
        reveal_strlit("e");
        reveal_strlit("f");
    }
    r
}

impl Hash {
    /// Compute hamming distance between two hashes
    pub fn diff(&self, other: &Hash) -> (r: u32)
        ensures
            r == hamming(self.0@, other.0@, 32),
    {
        let mut r: u32 = 0;
        let mut i: usize = 0;
        while i < 32
            invariant
                i <= 32,
                r == hamming(self.0@, other.0@, i as nat),
                r <= 8 * i,
            decreases 32 - i,
        {
            let n = count_bits(self.0[i] ^ other.0[i]);
            proof {
                assert(bits_set(self.0@[i as int] ^ other.0@[i as int], 8) <= 8) by {
                    lemma_bits_set_le(self.0@[i as int] ^ other.0@[i as int], 8);
                }
            }
            r = r + n;
            i = i + 1;
        }
        r
    }

    /// Parse a hash from its 64 hexadecimal digits, in either case
    pub fn parse(s: &str) -> (r: Result<Hash, HashParseError>)
        ensures
            r matches Ok(h) ==> hex_spells(s@, h.0@),
            r is Err ==> forall|b: Seq<u8>| !hex_spells(s@, b),
    {
        let cs = str_chars(s);
        if cs.len() != 64 {
            return Err(HashParseError);
        }
        let mut bytes = [0u8; 32];
        let mut i: usize = 0;
        while i < 32
            invariant
                cs@ == s@,
                cs@.len() == 64,
                i <= 32,
                bytes@.len() == 32,
                forall|k: int|
                    0 <= k < i ==> {
                        &&& #[trigger] hex_value(cs@[2 * k]) is Some
                        &&& hex_value(cs@[2 * k + 1]) is Some
                        &&& bytes@[k] == hex_value(cs@[2 * k])->0 * 16 + hex_value(
                            cs@[2 * k + 1],
                        )->0
                    },
            decreases 32 - i,
        {
            let hi = hex_char_value(cs[2 * i]);
            let lo = hex_char_value(cs[2 * i + 1]);
            match (hi, lo) {
                (Some(hi), Some(lo)) => {
                    assert(hi < 16 && lo < 16);
                    bytes[i] = hi * 16 + lo;
                },
                _ => {
                    proof {
                        assert forall|b: Seq<u8>| !hex_spells(s@, b) by {
                            if hex_spells(s@, b) {
                                assert(hex_value(s@[2 * (i as int)]) is Some);
                            }
                        }
                    }
                    return Err(HashParseError);
                },
            }
            i = i + 1;
        }
        Ok(Hash(bytes))
    }

    /// The hash spelled as 64 lower-case hexadecimal digits
    pub fn to_string(&self) -> (r: String)
        ensures
            r@ == hex_string(self.0@),
    {
        let mut r = String::new();
        let mut i: usize = 0;
        while i < 32
            invariant
                i <= 32,
                r@ == hex_string(self.0@.subrange(0, i as int)),
            decreases 32 - i,
        {
            let b = self.0[i];
            let hi = hex_char(b / 16);
            let lo = hex_char(b % 16);
            r.append(hi);
            r.append(lo);
            assert(r@ =~= hex_string(self.0@.subrange(0, i + 1)));
            i = i + 1;
        }
        assert(self.0@.subrange(0, 32) =~= self.0@);
        r
    }
}

proof fn lemma_bits_set_le(x: u8, k: nat)
    ensures
        bits_set(x, k) <= k,
    decreases k,
{
    if k > 0 {
        lemma_bits_set_le(x, (k - 1) as nat);
        let sh = (k - 1) as u8;
        let b = ((x >> sh) & 1u8);
        assert(b <= 1) by (bit_vector)
            requires
                b == (x >> sh) & 1u8,
        ;
    }
}

/// Hamming distance is a distance: a hash is at distance zero from itself and from no hash
/// with other bytes, and the distance from `a` to `b` is the distance from `b` to `a`
pub proof fn law_hash_distance(a: Hash, b: Hash)
    ensures
        hamming(a.0@, a.0@, 32) == 0,
        hamming(a.0@, b.0@, 32) == 0 ==> a.0@ == b.0@,
        hamming(a.0@, b.0@, 32) == hamming(b.0@, a.0@, 32),
{
    lemma_hamming_self(a.0@, 32);
    lemma_hamming_symmetric(a.0@, b.0@, 32);
    if hamming(a.0@, b.0@, 32) == 0 {
        lemma_hamming_zero(a.0@, b.0@, 32);
        assert(a.0@ =~= b.0@);
    }
}

proof fn lemma_hamming_zero(a: Seq<u8>, b: Seq<u8>, n: nat)
    requires
        hamming(a, b, n) == 0,
    ensures
        forall|i: int| 0 <= i < n ==> a[i] == b[i],
    decreases n,
{
    if n > 0 {
        lemma_hamming_zero(a, b, (n - 1) as nat);
        let x = a[n - 1];
        let y = b[n - 1];
        let z = x ^ y;
        reveal_with_fuel(bits_set, 9);
        assert(bits_set(z, 8) == 0);
        assert(((z >> 0u8) & 1u8) == 0 && ((z >> 1u8) & 1u8) == 0 && ((z >> 2u8) & 1u8) == 0
            && ((z >> 3u8) & 1u8) == 0 && ((z >> 4u8) & 1u8) == 0 && ((z >> 5u8) & 1u8) == 0
            && ((z >> 6u8) & 1u8) == 0 && ((z >> 7u8) & 1u8) == 0);
        assert(x == y) by (bit_vector)
            requires
                z == x ^ y,
                ((z >> 0u8) & 1u8) == 0,
                ((z >> 1u8) & 1u8) == 0,
                ((z >> 2u8) & 1u8) == 0,
                ((z >> 3u8) & 1u8) == 0,
                ((z >> 4u8) & 1u8) == 0,
                ((z >> 5u8) & 1u8) == 0,
                ((z >> 6u8) & 1u8) == 0,
                ((z >> 7u8) & 1u8) == 0,
        ;
    }
}

/// Spelling a hash out and parsing the spelling gives the hash back: the digits written by
/// `to_string` spell the hash's bytes, and no other bytes
pub proof fn law_hash_hex_round_trip(h: Hash)
    ensures
        hex_spells(hex_string(h.0@), h.0@),
        forall|b: Seq<u8>| hex_spells(hex_string(h.0@), b) ==> b == h.0@,
{
    let s = hex_string(h.0@);
    assert forall|i: int| 0 <= i < 32 implies {
        &&& #[trigger] hex_value(s[2 * i]) is Some
        &&& hex_value(s[2 * i + 1]) is Some
        &&& h.0@[i] == hex_value(s[2 * i])->0 * 16 + hex_value(s[2 * i + 1])->0
    } by {
        let b = h.0@[i];
        assert((2 * i) % 2 == 0 && (2 * i) / 2 == i);
        assert((2 * i + 1) % 2 == 1 && (2 * i + 1) / 2 == i);
        lemma_hex_digit_value(b / 16);
        lemma_hex_digit_value(b % 16);
    }
    assert forall|b: Seq<u8>| hex_spells(s, b) implies b == h.0@ by {
        assert forall|i: int| 0 <= i < 32 implies b[i] == h.0@[i] by {
            assert(hex_value(s[2 * i]) is Some);
        }
        assert(b =~= h.0@);
    }
}

proof fn lemma_hex_digit_value(v: u8)
    requires
        v < 16,
    ensures
        hex_value(hex_digit(v)) == Some(v),
{
}

proof fn lemma_hamming_self(a: Seq<u8>, n: nat)
    ensures
        hamming(a, a, n) == 0,
    decreases n,
{
    if n > 0 {
        lemma_hamming_self(a, (n - 1) as nat);
        let x = a[n - 1];
        assert(x ^ x == 0u8) by (bit_vector);
        lemma_bits_set_zero(8);
    }
}

proof fn lemma_bits_set_zero(k: nat)
    ensures
        bits_set(0u8, k) == 0,
    decreases k,
{
    if k > 0 {
        lemma_bits_set_zero((k - 1) as nat);
        let s = (k - 1) as u8;
        assert((0u8 >> s) & 1u8 == 0u8) by (bit_vector);
    }
}

proof fn lemma_hamming_symmetric(a: Seq<u8>, b: Seq<u8>, n: nat)
    ensures
        hamming(a, b, n) == hamming(b, a, n),
    decreases n,
{
    if n > 0 {
        lemma_hamming_symmetric(a, b, (n - 1) as nat);
        let x = a[n - 1];
        let y = b[n - 1];
        assert(x ^ y == y ^ x) by (bit_vector);
    }
}

} // verus!
