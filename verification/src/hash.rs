//! Content hashes: 256-bit BLAKE3 digests, written in lowercase hexadecimal.
//!
//! The digest itself is computed by the `blake3` crate. The hexadecimal
//! form, the comparison of digests and the feeding of a hasher in chunks are
//! proved here.

use crate::text::{chars_of, string_of};
use vstd::prelude::*;
use vstd::slice::slice_subrange;

verus! {

/// The BLAKE3 digest of `data`: what `blake3::hash` returns for it.
pub uninterp spec fn blake3_digest(data: Seq<u8>) -> Seq<u8>;

/// The bytes that a `blake3::Hasher` has been fed since it was made.
pub uninterp spec fn hasher_input(hasher: blake3::Hasher) -> Seq<u8>;

/// `blake3::Hasher`, the state of a hash in the making.
#[verifier::external_type_specification]
#[verifier::external_body]
pub struct ExHasher(blake3::Hasher);

/// `blake3::hash`: the digest of the input, 32 bytes long.
#[verifier::external_body]
fn digest_of(data: &[u8]) -> (out: Vec<u8>)
    ensures
        out@ == blake3_digest(data@),
        out@.len() == 32,
{
    blake3::hash(data).as_bytes().to_vec()
}

/// `blake3::Hasher::new`: a hasher that has been fed nothing.
#[verifier::external_body]
fn hasher_new() -> (hasher: blake3::Hasher)
    ensures
        hasher_input(hasher) == Seq::<u8>::empty(),
{
    blake3::Hasher::new()
}

/// `blake3::Hasher::update`: the input is added behind what was fed before.
#[verifier::external_body]
fn hasher_update(hasher: &mut blake3::Hasher, data: &[u8])
    ensures
        hasher_input(*final(hasher)) == hasher_input(*old(hasher)) + data@,
{
    hasher.update(data);
}

/// `blake3::Hasher::finalize`: the digest of everything that was fed, 32
/// bytes long. The hasher is left as it was.
#[verifier::external_body]
fn hasher_finalize(hasher: &blake3::Hasher) -> (out: Vec<u8>)
    ensures
        out@ == blake3_digest(hasher_input(*hasher)),
        out@.len() == 32,
{
    hasher.finalize().as_bytes().to_vec()
}

/// The hexadecimal digit for a value below 16, in lowercase.
pub open spec fn hex_digit(n: nat) -> char {
    if n == 0 {
        '0'
    } else if n == 1 {
        '1'
    } else if n == 2 {
        '2'
    } else if n == 3 {
        '3'
    } else if n == 4 {
        '4'
    } else if n == 5 {
        '5'
    } else if n == 6 {
        '6'
    } else if n == 7 {
        '7'
    } else if n == 8 {
        '8'
    } else if n == 9 {
        '9'
    } else if n == 10 {
        'a'
    } else if n == 11 {
        'b'
    } else if n == 12 {
        'c'
    } else if n == 13 {
        'd'
    } else if n == 14 {
        'e'
    } else {
        'f'
    }
}

/// The value of a hexadecimal digit, in either case.
pub open spec fn hex_value(c: char) -> Option<nat> {
    if '0' <= c <= '9' {
        Some((c as nat - '0' as nat) as nat)
    } else if 'a' <= c <= 'f' {
        Some((c as nat - 'a' as nat + 10) as nat)
    } else if 'A' <= c <= 'F' {
        Some((c as nat - 'A' as nat + 10) as nat)
    } else {
        None
    }
}

/// The bytes written in lowercase hexadecimal, two digits for each.
pub open spec fn hex_of(bytes: Seq<u8>) -> Seq<char>
    decreases bytes.len(),
{
    if bytes.len() == 0 {
        Seq::<char>::empty()
    } else {
        hex_of(bytes.drop_last()).push(hex_digit(bytes.last() as nat / 16)).push(
            hex_digit(bytes.last() as nat % 16),
        )
    }
}

/// The bytes that a hexadecimal text writes, if it is one: an even number
/// of hexadecimal digits.
pub open spec fn unhex(s: Seq<char>) -> Option<Seq<u8>>
    decreases s.len(),
{
    if s.len() == 0 {
        Some(Seq::<u8>::empty())
    } else if s.len() == 1 {
        None
    } else {
        match (
            unhex(s.subrange(0, s.len() - 2)),
            hex_value(s[s.len() - 2]),
            hex_value(s[s.len() - 1]),
        ) {
            (Some(bytes), Some(high), Some(low)) => Some(bytes.push((high * 16 + low) as u8)),
            _ => None,
        }
    }
}

/// Reading the hexadecimal form of bytes gives the bytes back.
pub proof fn law_hex_round_trip(bytes: Seq<u8>)
    ensures
        unhex(hex_of(bytes)) == Some(bytes),
        hex_of(bytes).len() == 2 * bytes.len(),
    decreases bytes.len(),
{
    if bytes.len() > 0 {
        let init = bytes.drop_last();
        law_hex_round_trip(init);
        let s = hex_of(bytes);
        assert(s.subrange(0, s.len() - 2) == hex_of(init));
        let b = bytes.last() as nat;
        assert(hex_value(hex_digit(b / 16)) == Some(b / 16));
        assert(hex_value(hex_digit(b % 16)) == Some(b % 16));
        assert(((b / 16) * 16 + b % 16) as u8 == bytes.last());
        assert(init.push(bytes.last()) == bytes);
    } else {
        assert(bytes == Seq::<u8>::empty());
    }
}

fn hex_digit_of(n: u8) -> (c: char)
    requires
        n < 16,
    ensures
        c == hex_digit(n as nat),
{
    if n == 0 {
        '0'
    } else if n == 1 {
        '1'
    } else if n == 2 {
        '2'
    } else if n == 3 {
        '3'
    } else if n == 4 {
        '4'
    } else if n == 5 {
        '5'
    } else if n == 6 {
        '6'
    } else if n == 7 {
        '7'
    } else if n == 8 {
        '8'
    } else if n == 9 {
        '9'
    } else if n == 10 {
        'a'
    } else if n == 11 {
        'b'
    } else if n == 12 {
        'c'
    } else if n == 13 {
        'd'
    } else if n == 14 {
        'e'
    } else {
        'f'
    }
}

fn hex_value_of(c: char) -> (r: Option<u8>)
    ensures
        match r {
            Some(n) => n < 16 && hex_value(c) == Some(n as nat),
            None => hex_value(c) is None,
        },
{
    let n: u32 = c as u32;
    if '0' <= c && c <= '9' {
        Some((n - '0' as u32) as u8)
    } else if 'a' <= c && c <= 'f' {
        Some((n - 'a' as u32 + 10) as u8)
    } else if 'A' <= c && c <= 'F' {
        Some((n - 'A' as u32 + 10) as u8)
    } else {
        None
    }
}

/// Writes bytes in lowercase hexadecimal.
pub fn to_hex(bytes: &[u8]) -> (out: String)
    ensures
        out@ == hex_of(bytes@),
{
    let mut v: Vec<char> = Vec::new();
    let mut i: usize = 0;
    assert(bytes@.take(0) == Seq::<u8>::empty());
    while i < bytes.len()
        invariant
            i <= bytes.len(),
            v@ == hex_of(bytes@.take(i as int)),
        decreases bytes.len() - i,
    {
        assert(bytes@.take(i + 1).drop_last() == bytes@.take(i as int));
        let b = bytes[i];
        v.push(hex_digit_of(b / 16));
        v.push(hex_digit_of(b % 16));
        i += 1;
    }
    assert(bytes@.take(bytes.len() as int) == bytes@);
    string_of(&v)
}

/// Reads bytes from hexadecimal, digits of either case.
pub fn from_hex(s: &str) -> (r: Option<Vec<u8>>)
    ensures
        match r {
            Some(bytes) => unhex(s@) == Some(bytes@),
            None => unhex(s@) is None,
        },
{
    let v = chars_of(s);
    let mut out: Vec<u8> = Vec::new();
    let mut i: usize = 0;
    assert(v@.subrange(0, 0) == Seq::<char>::empty());
    while i + 1 < v.len()
        invariant
            i <= v.len(),
            i % 2 == 0,
            v@ == s@,
            unhex(v@.subrange(0, i as int)) == Some(out@),
        decreases v.len() - i,
    {
        let ghost next = v@.subrange(0, i + 2);
        assert(next.subrange(0, next.len() - 2) == v@.subrange(0, i as int));
        assert(next[next.len() - 2] == v@[i as int]);
        assert(next[next.len() - 1] == v@[i + 1]);
        let high = hex_value_of(v[i]);
        let low = hex_value_of(v[i + 1]);
        match (high, low) {
            (Some(h), Some(l)) => {
                out.push(h * 16 + l);
            },
            _ => {
                proof {
                    assert(hex_value(v@[i as int]) is None || hex_value(v@[i + 1]) is None);
                    assert(next.len() == i + 2);
                    assert(unhex(next) is None);
                    lemma_unhex_fails(v@, i + 2);
                }
                return None;
            },
        }
        i += 2;
    }
    if i < v.len() {
        proof {
            lemma_unhex_odd(v@);
        }
        return None;
    }
    assert(v@.subrange(0, v.len() as int) == v@);
    Some(out)
}

/// A text of odd length is no hexadecimal form of bytes.
proof fn lemma_unhex_odd(s: Seq<char>)
    requires
        s.len() % 2 == 1,
    ensures
        unhex(s) is None,
    decreases s.len(),
{
    if s.len() > 1 {
        lemma_unhex_odd(s.subrange(0, s.len() - 2));
    }
}

/// Once a pair of characters fails to read, so does every longer text.
proof fn lemma_unhex_fails(s: Seq<char>, n: int)
    requires
        0 <= n <= s.len(),
        n % 2 == 0,
        unhex(s.subrange(0, n)) is None,
    ensures
        unhex(s) is None,
    decreases s.len() - n,
{
    if s.len() % 2 == 1 {
        lemma_unhex_odd(s);
    } else if n < s.len() {
        let longer = s.subrange(0, n + 2);
        assert(longer.subrange(0, longer.len() - 2) == s.subrange(0, n));
        lemma_unhex_fails(s, n + 2);
    } else {
        assert(s.subrange(0, n) == s);
    }
}

/// A content hash: a 256-bit BLAKE3 digest.
#[derive(Debug)]
pub struct Hash {
    bytes: Vec<u8>,
}

impl View for Hash {
    type V = Seq<u8>;

    closed spec fn view(&self) -> Seq<u8> {
        self.bytes@
    }
}

impl Clone for Hash {
    fn clone(&self) -> (h: Hash)
        ensures
            h@ == self@,
    {
        proof {
            use_type_invariant(self);
        }
        Hash { bytes: self.bytes.clone() }
    }
}

impl Hash {
    /// A digest has 32 bytes.
    #[verifier::type_invariant]
    pub closed spec fn wf(self) -> bool {
        self.bytes@.len() == 32
    }

    /// The hash of `data`.
    pub fn from_data(data: &[u8]) -> (h: Hash)
        ensures
            h@ == blake3_digest(data@),
            h@.len() == 32,
    {
        Hash { bytes: digest_of(data) }
    }

    /// The hash with the given digest, if it has the length of one.
    pub fn from_bytes(bytes: Vec<u8>) -> (r: Option<Hash>)
        ensures
            match r {
                Some(h) => bytes@.len() == 32 && h@ == bytes@,
                None => bytes@.len() != 32,
            },
    {
        if bytes.len() == 32 {
            Some(Hash { bytes })
        } else {
            None
        }
    }

    /// The hash that `hex` writes: 64 hexadecimal digits of either case.
    pub fn from_hex(hex: &str) -> (r: Option<Hash>)
        ensures
            match r {
                Some(h) => unhex(hex@) == Some(h@) && h@.len() == 32,
                None => match unhex(hex@) {
                    Some(bytes) => bytes.len() != 32,
                    None => true,
                },
            },
    {
        match from_hex(hex) {
            Some(bytes) => Hash::from_bytes(bytes),
            None => None,
        }
    }

    /// The digest.
    pub fn as_bytes(&self) -> (b: &Vec<u8>)
        ensures
            b@ == self@,
            b@.len() == 32,
    {
        proof {
            use_type_invariant(self);
        }
        &self.bytes
    }

    /// The hash in lowercase hexadecimal.
    pub fn to_hex(&self) -> (out: String)
        ensures
            out@ == hex_of(self@),
            out@.len() == 64,
            unhex(out@) == Some(self@),
    {
        proof {
            use_type_invariant(self);
            law_hex_round_trip(self@);
        }
        to_hex(self.bytes.as_slice())
    }

    /// Whether the two hashes are the same digest.
    pub fn same(&self, other: &Hash) -> (r: bool)
        ensures
            r == (self@ == other@),
    {
        proof {
            use_type_invariant(self);
            use_type_invariant(other);
        }
        let mut i: usize = 0;
        while i < 32
            invariant
                i <= 32,
                self.bytes@.len() == 32,
                other.bytes@.len() == 32,
                forall|k: int| 0 <= k < i ==> self.bytes@[k] == other.bytes@[k],
            decreases 32 - i,
        {
            if self.bytes[i] != other.bytes[i] {
                return false;
            }
            i += 1;
        }
        assert(self.bytes@ =~= other.bytes@);
        true
    }
}

/// A hash in the making, fed piece by piece.
pub struct IncrementalHash {
    hasher: blake3::Hasher,
}

impl IncrementalHash {
    /// Everything that has been fed so far, in order.
    pub closed spec fn fed(&self) -> Seq<u8> {
        hasher_input(self.hasher)
    }

    /// A hash that has been fed nothing.
    pub fn new() -> (h: IncrementalHash)
        ensures
            h.fed() == Seq::<u8>::empty(),
    {
        IncrementalHash { hasher: hasher_new() }
    }

    /// Feeds `data`.
    pub fn update(&mut self, data: &[u8])
        ensures
            final(self).fed() == old(self).fed() + data@,
    {
        hasher_update(&mut self.hasher, data);
    }

    /// The hash of everything that has been fed.
    pub fn finalize(&self) -> (h: Hash)
        ensures
            h@ == blake3_digest(self.fed()),
    {
        Hash { bytes: hasher_finalize(&self.hasher) }
    }
}

/// How much to read next: the buffer full, or what is left if that is less.
pub fn next_read_len(buffer_len: usize, remaining: u64) -> (n: usize)
    ensures
        n == if (buffer_len as int) <= (remaining as int) {
            buffer_len as int
        } else {
            remaining as int
        },
{
    if (buffer_len as u64) <= remaining {
        buffer_len
    } else {
        remaining as usize
    }
}

/// Hashes the first `bytes` bytes of `data`, or all of it if it is shorter,
/// feeding the hasher at most `buffer_size` bytes at a time. What the
/// hasher has been fed is that prefix, whatever the size of the pieces; an
/// empty buffer reads nothing.
pub fn hash_existing_prefix(data: &[u8], bytes: u64, buffer_size: usize) -> (h: IncrementalHash)
    ensures
        buffer_size > 0 ==> h.fed() == data@.take(
            if (bytes as int) <= data@.len() {
                bytes as int
            } else {
                data@.len() as int
            },
        ),
        buffer_size == 0 ==> h.fed() == Seq::<u8>::empty(),
{
    let mut h = IncrementalHash::new();
    let mut remaining: u64 = bytes;
    let mut pos: usize = 0;
    let mut exhausted = false;
    assert(data@.take(0) == Seq::<u8>::empty());
    while remaining > 0 && buffer_size > 0 && !exhausted
        invariant
            pos <= data.len(),
            pos + remaining == bytes,
            h.fed() == data@.take(pos as int),
            exhausted ==> pos == data.len(),
            buffer_size == 0 ==> pos == 0,
        decreases remaining + (if exhausted { 0int } else { 1int }),
    {
        let to_read = next_read_len(buffer_size, remaining);
        let available = data.len() - pos;
        let n = if to_read <= available {
            to_read
        } else {
            available
        };
        if n == 0 {
            exhausted = true;
        } else {
            let piece = slice_subrange(data, pos, pos + n);
            assert(data@.take(pos as int) + piece@ == data@.take(pos + n));
            h.update(piece);
            pos += n;
            remaining -= n as u64;
        }
    }
    h
}

} // verus!
