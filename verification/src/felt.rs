//! Field elements of the rollup's prime field, carried as 32 big-endian
//! bytes. A value constructed by parsing is kept below 2^251, matching the
//! range that the chain's protocol admits for freshly written elements;
//! hash outputs are carried as the hash function returns them.
use vstd::prelude::*;
use vstd::string::StringSliceAdditionalSpecFns;

verus! {

/// The value of a big-endian byte string.
pub open spec fn be_val(s: Seq<u8>) -> int
    decreases s.len(),
{
    if s.len() == 0 {
        0
    } else {
        be_val(s.drop_last()) * 256 + s.last()
    }
}

/// 256^n.
pub open spec fn pow256(n: nat) -> int
    decreases n,
{
    if n == 0 {
        1
    } else {
        256 * pow256((n - 1) as nat)
    }
}

pub proof fn lemma_pow256_mono(a: nat, b: nat)
    requires
        a <= b,
    ensures
        pow256(a) <= pow256(b),
    decreases b,
{
    if a < b {
        lemma_pow256_mono(a, (b - 1) as nat);
        lemma_pow256_pos((b - 1) as nat);
    }
}

pub proof fn lemma_pow256_pos(n: nat)
    ensures
        pow256(n) >= 1,
    decreases n,
{
    if n > 0 {
        lemma_pow256_pos((n - 1) as nat);
    }
}

/// A byte string's value is bounded by 256 to the power of its length.
pub proof fn lemma_be_val_bound(s: Seq<u8>)
    ensures
        0 <= be_val(s) < pow256(s.len()),
    decreases s.len(),
{
    if s.len() > 0 {
        lemma_be_val_bound(s.drop_last());
        assert(be_val(s.drop_last()) * 256 <= (pow256((s.len() - 1) as nat) - 1) * 256)
            by (nonlinear_arith)
            requires
                be_val(s.drop_last()) <= pow256((s.len() - 1) as nat) - 1,
        {
        }
    }
}

/// Unfolding a big-endian value at its most significant byte.
pub proof fn lemma_be_val_first(s: Seq<u8>)
    requires
        s.len() > 0,
    ensures
        be_val(s) == s[0] * pow256((s.len() - 1) as nat) + be_val(s.drop_first()),
    decreases s.len(),
{
    if s.len() == 1 {
        assert(s.drop_last() =~= Seq::<u8>::empty());
        assert(s.drop_first() =~= Seq::<u8>::empty());
    } else {
        let dl = s.drop_last();
        lemma_be_val_first(dl);
        assert(s.drop_first().drop_last() =~= dl.drop_first());
        assert(s.drop_first().last() == s.last());
        assert((s[0] * pow256((dl.len() - 1) as nat) + be_val(dl.drop_first())) * 256 == s[0]
            * (256 * pow256((dl.len() - 1) as nat)) + be_val(dl.drop_first()) * 256)
            by (nonlinear_arith);
    }
}

/// A field element, as 32 big-endian bytes.
#[derive(Clone, Copy, PartialEq, Eq, Debug, Hash)]
pub struct Felt {
    bytes: [u8; 32],
}

impl View for Felt {
    type V = Seq<u8>;

    closed spec fn view(&self) -> Seq<u8> {
        self.bytes@
    }
}

/// The numeric value of a field element.
pub open spec fn felt_val(f: Felt) -> int {
    be_val(f@)
}

/// 2^251, the bound on freshly constructed elements.
pub open spec fn felt_limit() -> int {
    0x800000000000000000000000000000000000000000000000000000000000000int
}

/// A 32-byte value lies below 2^251 exactly when its leading byte is below 8.
pub proof fn lemma_felt_range(s: Seq<u8>)
    requires
        s.len() == 32,
    ensures
        be_val(s) < felt_limit() <==> s[0] < 8,
{
    lemma_be_val_first(s);
    lemma_be_val_bound(s.drop_first());
    assert(pow256(31) == 0x100000000000000000000000000000000000000000000000000000000000000int) by {
        reveal_with_fuel(pow256, 32);
    }
    lemma_pow256_pos(31);
    if s[0] < 8 {
        assert(s[0] * pow256(31) <= 7 * pow256(31)) by (nonlinear_arith)
            requires
                s[0] <= 7,
                pow256(31) >= 1,
        {
        }
    } else {
        assert(s[0] * pow256(31) >= 8 * pow256(31)) by (nonlinear_arith)
            requires
                s[0] >= 8,
                pow256(31) >= 1,
        {
        }
    }
}

impl Felt {
    /// The element zero.
    pub fn zero() -> (r: Felt)
        ensures
            felt_val(r) == 0,
            r@ =~= Seq::new(32, |i: int| 0u8),
    {
        let f = Felt { bytes: [0u8; 32] };
        proof {
            assert(f@ =~= Seq::new(32, |i: int| 0u8));
            lemma_zero_be_val(f@);
        }
        f
    }

    /// Whether two elements hold the same bytes.
    pub fn eq_felt(&self, other: &Felt) -> (r: bool)
        ensures
            r <==> self@ == other@,
    {
        let mut i: usize = 0;
        while i < 32
            invariant
                i <= 32,
                forall|j: int| 0 <= j < i ==> self@[j] == other@[j],
            decreases 32 - i,
        {
            if self.bytes[i] != other.bytes[i] {
                proof {
                    assert(self@[i as int] != other@[i as int]);
                }
                return false;
            }
            i = i + 1;
        }
        proof {
            assert(self@ =~= other@);
        }
        true
    }

    /// The raw big-endian bytes.
    pub fn to_be_bytes(&self) -> (r: [u8; 32])
        ensures
            r@ == self@,
    {
        self.bytes
    }

    /// An element from exactly 32 big-endian bytes, as they stand.
    pub fn from_be_bytes(bytes: [u8; 32]) -> (r: Felt)
        ensures
            r@ == bytes@,
    {
        Felt { bytes }
    }

    /// An element from at most 32 big-endian bytes; `None` when the slice is
    /// longer than 32 bytes or its value reaches 2^251.
    pub fn from_be_slice(s: &[u8]) -> (r: Option<Felt>)
        ensures
            match r {
                Some(f) => s@.len() <= 32 && be_val(s@) < felt_limit() && felt_val(f) == be_val(
                    s@,
                ),
                None => s@.len() > 32 || be_val(s@) >= felt_limit(),
            },
    {
        if s.len() > 32 {
            return None;
        }
        let mut bytes = [0u8; 32];
        let offset = 32 - s.len();
        let mut i: usize = 0;
        while i < s.len()
            invariant
                i <= s@.len() <= 32,
                offset == 32 - s@.len(),
                bytes@.len() == 32,
                forall|j: int| 0 <= j < offset + i ==> bytes@[j] == pad32(s@)[j],
                forall|j: int| offset + i <= j < 32 ==> bytes@[j] == 0u8,
            decreases s@.len() - i,
        {
            bytes[offset + i] = s[i];
            i = i + 1;
        }
        proof {
            assert(bytes@ =~= pad32(s@));
            lemma_pad32_val(s@);
            lemma_felt_range(bytes@);
        }
        if bytes[0] < 8 {
            Some(Felt { bytes })
        } else {
            None
        }
    }

    /// An element parsed from a hexadecimal string with an optional `0x`
    /// prefix: at most 64 digits, and a value below 2^251.
    pub fn from_hex_str(s: &str) -> (r: Result<Felt, HexParseError>)
        ensures
            ({
                let d = hex_digits(s.spec_bytes());
                match r {
                    Ok(f) => all_hex(d) && d.len() <= 64 && hex_val(d) < felt_limit() && felt_val(f)
                        == hex_val(d),
                    Err(HexParseError::InvalidNibble) => !all_hex(d),
                    Err(HexParseError::Overflow) => all_hex(d) && (d.len() > 64 || hex_val(d)
                        >= felt_limit()),
                }
            }),
    {
        let b = s.as_bytes();
        let start: usize = if b.len() >= 2 && b[0] == 0x30 && b[1] == 0x78 {
            2
        } else {
            0
        };
        let ghost d = hex_digits(s.spec_bytes());
        proof {
            assert(d =~= b@.skip(start as int));
        }
        let mut vals: Vec<u8> = Vec::new();
        let mut i: usize = start;
        while i < b.len()
            invariant
                start <= i <= b@.len(),
                d == b@.skip(start as int),
                d == hex_digits(s.spec_bytes()),
                vals@.len() == i - start,
                forall|j: int| 0 <= j < vals@.len() ==> is_hex_digit(#[trigger] d[j]) && vals@[j]
                    == hex_digit_val(d[j]),
            decreases b@.len() - i,
        {
            proof {
                assert(d[i - start] == b@[i as int]);
            }
            match nibble(b[i]) {
                Some(v) => {
                    vals.push(v);
                    proof {
                        assert(is_hex_digit(d[i - start]) && vals@[i - start] == hex_digit_val(
                            d[i - start],
                        ));
                    }
                },
                None => {
                    proof {
                        assert(!all_hex(d)) by {
                            assert(0 <= i - start < d.len());
                            assert(!is_hex_digit(d[i - start]));
                        }
                    }
                    return Err(HexParseError::InvalidNibble);
                },
            }
            i = i + 1;
        }
        assert(all_hex(d));
        let m = vals.len();
        if m > 64 {
            return Err(HexParseError::Overflow);
        }
        let mut bytes = [0u8; 32];
        let mut k: usize = 0;
        while 2 * k < m
            invariant
                m == d.len() <= 64,
                2 * k <= m + 1,
                vals@.len() == m,
                forall|j: int| 0 <= j < m ==> is_hex_digit(#[trigger] d[j]) && vals@[j]
                    == hex_digit_val(d[j]),
                bytes@.len() == 32,
                forall|i2: int| 32 - k <= i2 < 32 ==> bytes@[i2] == packed_hex(d)[i2],
                forall|i2: int| 0 <= i2 < 32 - k ==> bytes@[i2] == 0u8,
            decreases m + 1 - 2 * k,
        {
            proof {
                assert(is_hex_digit(d[m - 1 - 2 * k]));
                if 2 * k + 1 < m {
                    assert(is_hex_digit(d[m - 2 - 2 * k]));
                }
            }
            let lo = vals[m - 1 - 2 * k];
            let hi = if 2 * k + 1 < m {
                vals[m - 2 - 2 * k]
            } else {
                0
            };
            bytes[31 - k] = 16 * hi + lo;
            k = k + 1;
        }
        proof {
            assert forall|i2: int| 0 <= i2 < 32 - k implies packed_hex(d)[i2] == 0u8 by {}
            assert(bytes@ =~= packed_hex(d));
            lemma_packed_hex_val(d);
            lemma_felt_range(bytes@);
        }
        if bytes[0] < 8 {
            Ok(Felt { bytes })
        } else {
            Err(HexParseError::Overflow)
        }
    }

    /// The element whose value is the given 64-bit number.
    pub fn from_u64(n: u64) -> (r: Felt)
        ensures
            r@ == u64_felt(n),
            felt_val(r) == n,
    {
        let mut bytes = [0u8; 32];
        bytes[24] = (n >> 56) as u8;
        bytes[25] = (n >> 48) as u8;
        bytes[26] = (n >> 40) as u8;
        bytes[27] = (n >> 32) as u8;
        bytes[28] = (n >> 24) as u8;
        bytes[29] = (n >> 16) as u8;
        bytes[30] = (n >> 8) as u8;
        bytes[31] = n as u8;
        proof {
            assert(pow256(0) == 1 && pow256(1) == 0x100 && pow256(2) == 0x10000 && pow256(3)
                == 0x1000000 && pow256(4) == 0x100000000 && pow256(5) == 0x10000000000 && pow256(6)
                == 0x1000000000000 && pow256(7) == 0x100000000000000) by {
                reveal_with_fuel(pow256, 8);
            }
            assert((n >> 56) as u8 == ((n as int / 0x100000000000000) % 256) && (n >> 48) as u8 == (
            (n as int / 0x1000000000000) % 256) && (n >> 40) as u8 == ((n as int / 0x10000000000)
                % 256) && (n >> 32) as u8 == ((n as int / 0x100000000) % 256) && (n >> 24) as u8 == (
            (n as int / 0x1000000) % 256) && (n >> 16) as u8 == ((n as int / 0x10000) % 256) && (n
                >> 8) as u8 == ((n as int / 0x100) % 256) && n as u8 == ((n as int / 1) % 256))
                by (bit_vector);
            assert(bytes@ =~= u64_felt(n));
            lemma_u64_felt_val(n);
        }
        Felt { bytes }
    }
}

/// The 32-byte big-endian encoding of a 64-bit number.
pub open spec fn u64_felt(n: u64) -> Seq<u8> {
    Seq::new(
        32,
        |i: int|
            if i < 24 {
                0u8
            } else {
                ((n as int / pow256((31 - i) as nat)) % 256) as u8
            },
    )
}

/// The bytes of `byte_div_seq(n, len)` spell the low `len` bytes of `n`.
pub open spec fn byte_div_seq(n: int, len: nat) -> Seq<u8> {
    Seq::new(len, |j: int| ((n / pow256((len - 1 - j) as nat)) % 256) as u8)
}

pub proof fn lemma_byte_div_seq_val(n: int, len: nat)
    requires
        n >= 0,
    ensures
        be_val(byte_div_seq(n, len)) == n % pow256(len),
    decreases len,
{
    let s = byte_div_seq(n, len);
    if len == 0 {
        assert(n % 1 == 0) by (nonlinear_arith);
    } else {
        lemma_pow256_pos((len - 1) as nat);
        assert forall|j: int| 0 <= j < len - 1 implies s[j] == byte_div_seq(n / 256, (len - 1) as nat)[j] by {
            lemma_pow256_pos((len - 2 - j) as nat);
            vstd::arithmetic::div_mod::lemma_div_denominator(
                n,
                256,
                pow256((len - 2 - j) as nat),
            );
            assert(256 * pow256((len - 2 - j) as nat) == pow256((len - 1 - j) as nat));
        }
        assert(s.drop_last() =~= byte_div_seq(n / 256, (len - 1) as nat));
        vstd::arithmetic::div_mod::lemma_div_pos_is_pos(n, 256);
        lemma_byte_div_seq_val(n / 256, (len - 1) as nat);
        assert(n / 1 == n) by (nonlinear_arith);
        assert(s.last() == n % 256);
        vstd::arithmetic::div_mod::lemma_breakdown(n, 256, pow256((len - 1) as nat));
        assert(256 * pow256((len - 1) as nat) == pow256(len));
        assert(be_val(s) == ((n / 256) % pow256((len - 1) as nat)) * 256 + n % 256);
        assert(((n / 256) % pow256((len - 1) as nat)) * 256 == 256 * ((n / 256) % pow256(
            (len - 1) as nat,
        ))) by (nonlinear_arith);
    }
}

/// The encoding of a 64-bit number carries exactly its value.
pub proof fn lemma_u64_felt_val(n: u64)
    ensures
        be_val(u64_felt(n)) == n,
        u64_felt(n).len() == 32,
{
    let tail = byte_div_seq(n as int, 8);
    assert(u64_felt(n) =~= pad32(tail));
    lemma_pad32_val(tail);
    lemma_byte_div_seq_val(n as int, 8);
    assert(pow256(8) == 0x10000000000000000) by {
        reveal_with_fuel(pow256, 9);
    }
    assert((n as int) % 0x10000000000000000int == n) by (nonlinear_arith)
        requires
            (n as int) < 0x10000000000000000int,
    {
    }
}

/// Why parsing an element from text failed.
#[derive(Clone, Copy, PartialEq, Eq, Debug, Structural)]
pub enum HexParseError {
    InvalidNibble,
    Overflow,
}

/// Whether a byte spells a hexadecimal digit.
pub open spec fn is_hex_digit(b: u8) -> bool {
    (0x30 <= b && b <= 0x39) || (0x61 <= b && b <= 0x66) || (0x41 <= b && b <= 0x46)
}

/// The value of a hexadecimal digit byte; zero for any other byte.
pub open spec fn hex_digit_val(b: u8) -> int {
    if 0x30 <= b && b <= 0x39 {
        b - 0x30
    } else if 0x61 <= b && b <= 0x66 {
        b - 0x61 + 10
    } else if 0x41 <= b && b <= 0x46 {
        b - 0x41 + 10
    } else {
        0
    }
}

/// The value of a big-endian string of hexadecimal digit bytes.
pub open spec fn hex_val(s: Seq<u8>) -> int
    decreases s.len(),
{
    if s.len() == 0 {
        0
    } else {
        hex_val(s.drop_last()) * 16 + hex_digit_val(s.last())
    }
}

/// The digit bytes of a hexadecimal string, its optional `0x` prefix dropped.
pub open spec fn hex_digits(s: Seq<u8>) -> Seq<u8> {
    if s.len() >= 2 && s[0] == 0x30u8 && s[1] == 0x78u8 {
        s.skip(2)
    } else {
        s
    }
}

pub open spec fn all_hex(s: Seq<u8>) -> bool {
    forall|i: int| 0 <= i < s.len() ==> is_hex_digit(s[i])
}

/// At most 64 hexadecimal digits packed into 32 big-endian bytes, the last
/// digit in the low nibble of the last byte.
pub open spec fn packed_hex(d: Seq<u8>) -> Seq<u8> {
    Seq::new(
        32,
        |i: int|
            {
                let lo = d.len() - 63 + 2 * i;
                let hi = d.len() - 64 + 2 * i;
                (((if 0 <= hi {
                    16 * hex_digit_val(d[hi])
                } else {
                    0
                }) + (if 0 <= lo {
                    hex_digit_val(d[lo])
                } else {
                    0
                })) as u8)
            },
    )
}

/// Packing digits into bytes keeps the value.
pub proof fn lemma_packed_hex_val(d: Seq<u8>)
    requires
        d.len() <= 64,
    ensures
        be_val(packed_hex(d)) == hex_val(d),
    decreases d.len(),
{
    let p = packed_hex(d);
    if d.len() == 0 {
        lemma_zero_be_val(p);
        assert(be_val(p) == hex_val(d));
    } else if d.len() == 1 {
        lemma_zero_prefix_val(p, 31);
        let q = p.skip(31);
        assert(q.len() == 1);
        assert(q.drop_last() =~= Seq::<u8>::empty());
        assert(d.drop_last() =~= Seq::<u8>::empty());
        assert(be_val(q) == be_val(q.drop_last()) * 256 + q.last());
        assert(be_val(q.drop_last()) == 0);
        assert(q.last() == hex_digit_val(d[0]));
        assert(hex_val(d) == hex_val(d.drop_last()) * 16 + hex_digit_val(d.last()));
        assert(hex_val(d.drop_last()) == 0);
        assert(be_val(p) == hex_val(d));
    } else {
        let d2 = d.drop_last().drop_last();
        let p2 = packed_hex(d2);
        assert(p.drop_last() =~= p2.drop_first());
        lemma_be_val_first(p2);
        assert(p2[0] == 0);
        lemma_packed_hex_val(d2);
        assert(hex_val(d.drop_last()) == hex_val(d2) * 16 + hex_digit_val(d.drop_last().last()));
        assert(hex_val(d) == (hex_val(d2) * 16 + hex_digit_val(d.drop_last().last())) * 16
            + hex_digit_val(d.last()));
        assert(p.last() == 16 * hex_digit_val(d[d.len() - 2]) + hex_digit_val(d[d.len() - 1]));
        assert((hex_val(d2) * 16 + hex_digit_val(d.drop_last().last())) * 16 == hex_val(d2) * 256
            + hex_digit_val(d.drop_last().last()) * 16) by (nonlinear_arith);
        assert(d.drop_last().last() == d[d.len() - 2]);
        assert(d.last() == d[d.len() - 1]);
        assert(be_val(p) == be_val(p.drop_last()) * 256 + p.last());
        assert(be_val(p.drop_last()) == be_val(p2));
        assert(be_val(p) == hex_val(d));
    }
}

/// The value of one hexadecimal digit byte, or `None` for any other byte.
fn nibble(b: u8) -> (r: Option<u8>)
    ensures
        match r {
            Some(v) => is_hex_digit(b) && v == hex_digit_val(b),
            None => !is_hex_digit(b),
        },
{
    if 0x30 <= b && b <= 0x39 {
        Some(b - 0x30)
    } else if 0x61 <= b && b <= 0x66 {
        Some(b - 0x61 + 10)
    } else if 0x41 <= b && b <= 0x46 {
        Some(b - 0x41 + 10)
    } else {
        None
    }
}

/// A byte string left-padded with zeros to 32 bytes.
pub open spec fn pad32(s: Seq<u8>) -> Seq<u8> {
    Seq::new(32, |i: int| if i < 32 - s.len() { 0u8 } else { s[i - (32 - s.len())] })
}

/// All-zero byte strings have value zero.
pub proof fn lemma_zero_be_val(s: Seq<u8>)
    requires
        forall|i: int| 0 <= i < s.len() ==> s[i] == 0u8,
    ensures
        be_val(s) == 0,
    decreases s.len(),
{
    if s.len() > 0 {
        lemma_zero_be_val(s.drop_last());
    }
}

/// Zero padding on the left keeps the value.
pub proof fn lemma_pad32_val(s: Seq<u8>)
    requires
        s.len() <= 32,
    ensures
        be_val(pad32(s)) == be_val(s),
{
    lemma_zero_prefix_val(pad32(s), (32 - s.len()) as nat);
    assert(pad32(s).skip((32 - s.len()) as int) =~= s);
}

/// Dropping an all-zero prefix keeps the value.
pub proof fn lemma_zero_prefix_val(s: Seq<u8>, k: nat)
    requires
        k <= s.len(),
        forall|i: int| 0 <= i < k ==> s[i] == 0u8,
    ensures
        be_val(s) == be_val(s.skip(k as int)),
    decreases k,
{
    if k > 0 {
        lemma_be_val_first(s);
        lemma_zero_prefix_val(s.drop_first(), (k - 1) as nat);
        assert(s.drop_first().skip(k - 1) =~= s.skip(k as int));
    } else {
        assert(s.skip(0) =~= s);
    }
}

} // verus!
