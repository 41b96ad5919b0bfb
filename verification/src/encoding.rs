use vstd::prelude::*;

verus! {

/// Byte-wise equality of two slices.
pub fn bytes_eq(a: &[u8], b: &[u8]) -> (r: bool)
    ensures
        r <==> a@ == b@,
{
    if a.len() != b.len() {
        return false;
    }
    let n = a.len();
    let mut i: usize = 0;
    while i < n
        invariant
            n == a@.len() == b@.len(),
            0 <= i <= n,
            forall|j: int| 0 <= j < i ==> a@[j] == b@[j],
        decreases n - i,
    {
        if a[i] != b[i] {
            return false;
        }
        i += 1;
    }
    proof {
        assert(a@ =~= b@);
    }
    true
}

/// Byte-wise equality of two 32-byte values.
pub fn bytes32_eq(a: &[u8; 32], b: &[u8; 32]) -> (r: bool)
    ensures
        r <==> a@ == b@,
{
    bytes_eq(a.as_slice(), b.as_slice())
}

/// True when a 32-byte value is all zero (the "unset" sentinel).
pub fn is_zero32(a: &[u8; 32]) -> (r: bool)
    ensures
        r <==> crate::state::all_zero(a@),
{
    let s = a.as_slice();
    let mut i: usize = 0;
    while i < 32
        invariant
            s@ == a@,
            a@.len() == 32,
            0 <= i <= 32,
            forall|j: int| 0 <= j < i ==> a@[j] == 0u8,
        decreases 32 - i,
    {
        if s[i] != 0 {
            return false;
        }
        i += 1;
    }
    true
}

/// The two bytes of a 16-bit value, least significant first.
pub open spec fn u16le(x: u16) -> Seq<u8> {
    seq![(x % 256) as u8, ((x / 256) % 256) as u8]
}

/// The eight bytes of a 64-bit value, least significant first.
pub open spec fn u64le(x: u64) -> Seq<u8> {
    seq![
        (x % 256) as u8,
        ((x / 256) % 256) as u8,
        ((x / 65536) % 256) as u8,
        ((x / 16777216) % 256) as u8,
        ((x / 4294967296) % 256) as u8,
        ((x / 1099511627776) % 256) as u8,
        ((x / 281474976710656) % 256) as u8,
        ((x / 72057594037927936) % 256) as u8,
    ]
}

/// Appends the little-endian bytes of `x` to `out`.
pub fn push_u16le(out: &mut Vec<u8>, x: u16)
    ensures
        final(out)@ == old(out)@ + u16le(x),
{
    out.push((x % 256) as u8);
    out.push(((x / 256) % 256) as u8);
    proof {
        assert(final(out)@ =~= old(out)@ + u16le(x));
    }
}

/// Appends the little-endian bytes of `x` to `out`.
pub fn push_u64le(out: &mut Vec<u8>, x: u64)
    ensures
        final(out)@ == old(out)@ + u64le(x),
{
    out.push((x % 256) as u8);
    out.push(((x / 256) % 256) as u8);
    out.push(((x / 65536) % 256) as u8);
    out.push(((x / 16777216) % 256) as u8);
    out.push(((x / 4294967296) % 256) as u8);
    out.push(((x / 1099511627776) % 256) as u8);
    out.push(((x / 281474976710656) % 256) as u8);
    out.push(((x / 72057594037927936) % 256) as u8);
    proof {
        assert(final(out)@ =~= old(out)@ + u64le(x));
    }
}

/// The lower-case ASCII hex digit for a nibble. Values ten and above map
/// into `a`..`f`.
pub open spec fn hex_digit(n: u8) -> u8 {
    if n < 10 {
        (48 + n) as u8
    } else {
        (87 + n) as u8
    }
}

/// The lower-case ASCII hex encoding of a byte sequence: two digits per
/// byte, high nibble first.
pub open spec fn hex_ascii(s: Seq<u8>) -> Seq<u8> {
    Seq::new(
        2 * s.len(),
        |i: int|
            if i % 2 == 0 {
                hex_digit((s[i / 2] as int / 16) as u8)
            } else {
                hex_digit((s[i / 2] as int % 16) as u8)
            },
    )
}

fn hex_digit_ascii(n: u8) -> (r: u8)
    requires
        n < 16,
    ensures
        r == hex_digit(n),
{
    if n < 10 {
        48 + n
    } else {
        87 + n
    }
}

/// Lower-case ASCII hex encoding of `data`, two digits per byte.
pub fn hex_encode_bytes(data: &[u8]) -> (r: Vec<u8>)
    ensures
        r@ == hex_ascii(data@),
{
    let n = data.len();
    let mut out: Vec<u8> = Vec::new();
    let mut i: usize = 0;
    while i < n
        invariant
            n == data@.len(),
            0 <= i <= n,
            out@.len() == 2 * i,
            forall|j: int| 0 <= j < 2 * i ==> out@[j] == hex_ascii(data@)[j],
        decreases n - i,
    {
        let b = data[i];
        out.push(hex_digit_ascii(b / 16));
        out.push(hex_digit_ascii(b % 16));
        i += 1;
    }
    proof {
        assert(out@ =~= hex_ascii(data@));
    }
    out
}

} // verus!
