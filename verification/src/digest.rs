//! Byte framing, SHA-256 and lower-case hex: the primitives behind every
//! integrity digest and signature of the information layer.

use vstd::prelude::*;

verus! {

/// Lower-case hexadecimal digit for a nibble.
pub open spec fn hex_digit(n: nat) -> char {
    if n < 10 { ((n + 48) as u32) as char } else { ((n + 87) as u32) as char }
}

/// Lower-case hexadecimal rendering: two digits per byte, high nibble first.
pub open spec fn hex_lower(bytes: Seq<u8>) -> Seq<char>
    decreases bytes.len(),
{
    if bytes.len() == 0 {
        seq![]
    } else {
        seq![hex_digit((bytes[0] / 16) as nat), hex_digit((bytes[0] % 16) as nat)]
            + hex_lower(bytes.drop_first())
    }
}

/// Lower-case hex encoding of bytes.
///
/// Trusted: calls `hex::encode`, which maps each input byte to the two
/// characters of `"0123456789abcdef"` indexed by its high and low nibble, in
/// input order; the contract states exactly that.
#[verifier::external_body]
pub(crate) fn hex_encode(data: &[u8]) -> (r: String)
    ensures
        r@ == hex_lower(data@),
{
    hex::encode(data)
}

/// The SHA-256 digest of a byte string (a function of the bytes alone).
pub uninterp spec fn sha256_spec(data: Seq<u8>) -> Seq<u8>;

/// SHA-256 of `data`.
///
/// Trusted: calls `sha2::Sha256::digest`; the contract names its result
/// `sha256_spec(data)` and states its documented length of 32 bytes.
/// Feeding several slices to one hasher with `update` digests their
/// concatenation, so callers frame their fields into one buffer first.
#[verifier::external_body]
pub(crate) fn sha256(data: &[u8]) -> (r: Vec<u8>)
    ensures
        r@ == sha256_spec(data@),
        r@.len() == 32,
{
    <sha2::Sha256 as sha2::Digest>::digest(data).to_vec()
}

/// Lower-case hex of the SHA-256 digest of `data`.
pub fn sha256_hex(data: &[u8]) -> (r: String)
    ensures
        r@ == hex_lower(sha256_spec(data@)),
{
    let d = sha256(data);
    hex_encode(d.as_slice())
}

/// Appends `data` to `buf`.
pub fn append_bytes(buf: &mut Vec<u8>, data: &[u8])
    ensures
        final(buf)@ == old(buf)@ + data@,
{
    let mut i: usize = 0;
    while i < data.len()
        invariant
            i <= data@.len(),
            buf@ == old(buf)@ + data@.subrange(0, i as int),
        decreases data@.len() - i,
    {
        buf.push(data[i]);
        i = i + 1;
        assert(buf@ =~= old(buf)@ + data@.subrange(0, i as int));
    }
    assert(data@.subrange(0, data@.len() as int) =~= data@);
}

/// Appends the UTF-8 bytes of `s` to `buf`.
pub fn append_str(buf: &mut Vec<u8>, s: &str)
    ensures
        final(buf)@ == old(buf)@ + vstd::utf8::encode_utf8(s@),
{
    append_bytes(buf, s.as_bytes());
}

/// Big-endian base-256 digits of `n`, exactly `k` of them (higher digits dropped).
pub open spec fn be_bytes(n: nat, k: nat) -> Seq<u8>
    decreases k,
{
    if k == 0 {
        seq![]
    } else {
        be_bytes(n / 256, (k - 1) as nat).push((n % 256) as u8)
    }
}

/// The two's-complement value of a 128-bit signed integer, as an unsigned number.
pub open spec fn twos_128(x: int) -> nat {
    if x >= 0 { x as nat } else { (x + 0x1_0000_0000_0000_0000_0000_0000_0000_0000) as nat }
}

fn u128_be_bytes(x: u128, k: usize) -> (r: Vec<u8>)
    requires
        k <= 16,
    ensures
        r@ == be_bytes(x as nat, k as nat),
{
    let mut acc: Vec<u8> = Vec::new();
    let mut v: u128 = x;
    let mut i: usize = 0;
    while i < k
        invariant
            i <= k,
            be_bytes(x as nat, k as nat) == be_bytes(v as nat, (k - i) as nat) + acc@,
        decreases k - i,
    {
        let b = (v % 256) as u8;
        proof {
            let rest = be_bytes((v / 256) as nat, (k - i - 1) as nat);
            assert(be_bytes(v as nat, (k - i) as nat) == rest.push(b));
            assert(rest.push(b) + acc@ =~= rest + (seq![b] + acc@));
        }
        let ghost prev = acc@;
        acc.insert(0, b);
        assert(acc@ =~= seq![b] + prev);
        v = v / 256;
        i = i + 1;
    }
    assert(be_bytes(v as nat, 0) + acc@ =~= acc@);
    acc
}

/// Big-endian bytes of a `u128`, as `u128::to_be_bytes` lays them out.
pub fn u128_be(x: u128) -> (r: Vec<u8>)
    ensures
        r@ == be_bytes(x as nat, 16),
{
    u128_be_bytes(x, 16)
}

/// Big-endian bytes of a `u64`, as `u64::to_be_bytes` lays them out.
pub fn u64_be(x: u64) -> (r: Vec<u8>)
    ensures
        r@ == be_bytes(x as nat, 8),
{
    u128_be_bytes(x as u128, 8)
}

/// Big-endian bytes of a `u32`, as `u32::to_be_bytes` lays them out.
pub fn u32_be(x: u32) -> (r: Vec<u8>)
    ensures
        r@ == be_bytes(x as nat, 4),
{
    u128_be_bytes(x as u128, 4)
}

/// Big-endian two's-complement bytes of an `i128`, as `i128::to_be_bytes` lays them out.
pub fn i128_be(x: i128) -> (r: Vec<u8>)
    ensures
        r@ == be_bytes(twos_128(x as int), 16),
{
    if x >= 0 {
        u128_be_bytes(x as u128, 16)
    } else {
        let y: i128 = x + i128::MAX + 1;
        let u: u128 = (y as u128) + 0x8000_0000_0000_0000_0000_0000_0000_0000u128;
        assert(u as int == twos_128(x as int));
        u128_be_bytes(u, 16)
    }
}

/// Big-endian two's-complement bytes of an `i64`, as `i64::to_be_bytes`
/// lays them out (the low eight bytes of the 128-bit two's complement).
pub fn i64_be(x: i64) -> (r: Vec<u8>)
    ensures
        r@ == be_bytes(twos_128(x as int), 8),
{
    if x >= 0 {
        u128_be_bytes(x as u128, 8)
    } else {
        let y: i128 = x as i128 + i128::MAX + 1;
        let u: u128 = (y as u128) + 0x8000_0000_0000_0000_0000_0000_0000_0000u128;
        assert(u as int == twos_128(x as int));
        u128_be_bytes(u, 8)
    }
}

/// The four big-endian bytes of a count taken `as u32` (higher digits dropped).
pub fn count_be4(n: usize) -> (r: Vec<u8>)
    ensures
        r@ == be_bytes(n as nat, 4),
{
    u128_be_bytes(n as u128, 4)
}

} // verus!
