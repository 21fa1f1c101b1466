use vstd::prelude::*;

verus! {

/// The number that little-endian bytes stand for.
pub open spec fn le_value(s: Seq<u8>) -> nat
    decreases s.len(),
{
    if s.len() == 0 {
        0
    } else {
        s[0] as nat + 256 * le_value(s.drop_first())
    }
}

/// 256 to the power of `n`.
pub open spec fn pow256(n: nat) -> nat
    decreases n,
{
    if n == 0 {
        1
    } else {
        256 * pow256((n - 1) as nat)
    }
}

/// `n` little-endian bytes stand for a number below 256 to the power of `n`.
pub proof fn le_value_bound(s: Seq<u8>)
    ensures
        le_value(s) < pow256(s.len()),
    decreases s.len(),
{
    if s.len() > 0 {
        le_value_bound(s.drop_first());
    }
}

proof fn pow256_values()
    ensures
        pow256(1) == 0x100,
        pow256(2) == 0x1_0000,
        pow256(4) == 0x1_0000_0000,
        pow256(8) == 0x1_0000_0000_0000_0000,
{
    reveal_with_fuel(pow256, 9);
}

/// The number in the `n` bytes at `pos`.
pub fn read_le(bytes: &[u8], pos: usize, n: usize) -> (v: u64)
    requires
        n <= 8,
        pos + n <= bytes@.len(),
    ensures
        v == le_value(bytes@.subrange(pos as int, pos + n)),
{
    let total: usize = bytes.len();
    let mut v: u64 = 0;
    let mut i: usize = n;
    proof {
        assert(bytes@.subrange(pos + n, pos + n) =~= Seq::<u8>::empty());
    }
    while i > 0
        invariant
            i <= n <= 8,
            pos + n <= total == bytes@.len(),
            v == le_value(bytes@.subrange(pos + i, pos + n)),
        decreases i,
    {
        i = i - 1;
        proof {
            let tail = bytes@.subrange(pos + i, pos + n);
            assert(tail.drop_first() =~= bytes@.subrange(pos + i + 1, pos + n));
            le_value_bound(tail);
            pow256_values();
            pow256_monotone(tail.len(), 8);
            assert(tail[0] == bytes@[pos + i]);
        }
        v = v * 256 + bytes[pos + i] as u64;
    }
    v
}

/// `pow256` grows with its argument.
pub proof fn pow256_monotone(a: nat, b: nat)
    requires
        a <= b,
    ensures
        1 <= pow256(a) <= pow256(b),
    decreases b,
{
    if a < b {
        pow256_monotone(a, (b - 1) as nat);
    } else if a > 0 {
        pow256_monotone((a - 1) as nat, (a - 1) as nat);
    }
}

/// The bounds of the numbers in one, two, four and eight bytes.
pub proof fn le_value_widths(s: Seq<u8>)
    ensures
        s.len() == 1 ==> le_value(s) <= u8::MAX,
        s.len() == 2 ==> le_value(s) <= u16::MAX,
        s.len() == 4 ==> le_value(s) <= u32::MAX,
        s.len() == 8 ==> le_value(s) <= u64::MAX,
{
    le_value_bound(s);
    pow256_values();
}

/// The characters of the bytes' UTF-8 error, where they are not UTF-8.
pub uninterp spec fn utf8_error_text(bytes: Seq<u8>) -> Seq<char>;

/// `std::string::String::from_utf8` on a copy of the bytes: it succeeds exactly
/// on valid UTF-8, with the characters that the bytes encode, and its error
/// prints the same text for the same bytes.
#[verifier::external_body]
pub(crate) fn string_from_utf8(bytes: &[u8]) -> (r: Result<String, String>)
    ensures
        r is Ok <==> vstd::utf8::valid_utf8(bytes@),
        r matches Ok(s) ==> s@ == vstd::utf8::decode_utf8(bytes@),
        r matches Err(t) ==> t@ == utf8_error_text(bytes@),
{
    match String::from_utf8(bytes.to_vec()) {
        Ok(s) => Ok(s),
        Err(e) => Err(e.to_string()),
    }
}

} // verus!
