//! The binary encoding contract: little-endian integers, compact length
//! prefixes, the `Encodable` trait that every argument payload implements,
//! and readers for each primitive form.
//!
//! A decoder here is lenient about canonical form — it accepts any byte
//! string a matching encoder can produce and possibly more — but decoding an
//! encoder's output always yields the encoded value (the round-trip lemmas).

use vstd::prelude::*;
use vstd::arithmetic::div_mod::{lemma_div_denominator, lemma_mod_mod, lemma_fundamental_div_mod};

verus! {

/// 256 to the power `n`: the number of values an `n`-byte field can hold.
pub open spec fn pow256(n: nat) -> nat
    decreases n,
{
    if n == 0 {
        1
    } else {
        256 * pow256((n - 1) as nat)
    }
}

/// The `n` low-order bytes of `v`, least significant first.
pub open spec fn le_bytes(v: nat, n: nat) -> Seq<u8>
    decreases n,
{
    if n == 0 {
        Seq::<u8>::empty()
    } else {
        seq![(v % 256) as u8] + le_bytes(v / 256, (n - 1) as nat)
    }
}

/// The value read back from a little-endian byte string.
pub open spec fn le_val(s: Seq<u8>) -> nat
    decreases s.len(),
{
    if s.len() == 0 {
        0
    } else {
        (s[0] + 256 * le_val(s.drop_first())) as nat
    }
}

pub proof fn lemma_le_bytes_len(v: nat, n: nat)
    ensures
        le_bytes(v, n).len() == n,
    decreases n,
{
    if n > 0 {
        lemma_le_bytes_len(v / 256, (n - 1) as nat);
    }
}

/// Writing a value and reading it back is the identity, as long as the value
/// fits in the field.
pub proof fn lemma_le_val_of_le_bytes(v: nat, n: nat)
    requires
        v < pow256(n),
    ensures
        le_val(le_bytes(v, n)) == v,
    decreases n,
{
    if n > 0 {
        let s = le_bytes(v, n);
        lemma_le_bytes_len(v, n);
        assert(s.drop_first() =~= le_bytes(v / 256, (n - 1) as nat));
        assert(v / 256 < pow256((n - 1) as nat)) by (nonlinear_arith)
            requires
                v < 256 * pow256((n - 1) as nat),
        ;
        lemma_le_val_of_le_bytes(v / 256, (n - 1) as nat);
        lemma_fundamental_div_mod(v as int, 256);
    }
}

/// A little-endian byte string of length `n` always reads back below 256^n.
pub proof fn lemma_le_val_bound(s: Seq<u8>)
    ensures
        le_val(s) < pow256(s.len()),
    decreases s.len(),
{
    if s.len() > 0 {
        lemma_le_val_bound(s.drop_first());
    }
}

/// Extending the field by one byte appends the next byte of the value.
pub proof fn lemma_le_bytes_snoc(v: nat, n: nat)
    ensures
        le_bytes(v, n + 1) == le_bytes(v, n).push(((v / pow256(n)) % 256) as u8),
    decreases n,
{
    if n == 0 {
        assert(pow256(0) == 1) by {
            reveal_with_fuel(pow256, 1);
        }
        assert(v as int / 1int == v as int) by (nonlinear_arith);
        assert(v / pow256(0) == v);
        assert(le_bytes(v, 1) =~= le_bytes(v, 0).push(((v / pow256(0)) % 256) as u8)) by {
            reveal_with_fuel(le_bytes, 2);
        }
    } else {
        lemma_le_bytes_snoc(v / 256, (n - 1) as nat);
        lemma_pow256_pos((n - 1) as nat);
        lemma_div_denominator(v as int, 256, pow256((n - 1) as nat) as int);
        assert(256 * pow256((n - 1) as nat) == pow256((n - 1) as nat) * 256);
        assert(le_bytes(v, n + 1) =~= le_bytes(v, n).push(((v / pow256(n)) % 256) as u8));
    }
}

/// 256^n is positive.
pub proof fn lemma_pow256_pos(n: nat)
    ensures
        pow256(n) >= 1,
    decreases n,
{
    if n > 0 {
        lemma_pow256_pos((n - 1) as nat);
    }
}

/// 256^n grows with n.
pub proof fn lemma_pow256_le(a: nat, b: nat)
    requires
        a <= b,
    ensures
        pow256(a) <= pow256(b),
        pow256(a) >= 1,
    decreases b,
{
    lemma_pow256_pos(a);
    if a < b {
        lemma_pow256_le(a, (b - 1) as nat);
        lemma_pow256_pos((b - 1) as nat);
    }
}

/// How many bytes are needed to hold `v`.
pub open spec fn byte_len(v: nat) -> nat
    decreases v,
{
    if v == 0 {
        0
    } else {
        1 + byte_len(v / 256)
    }
}

/// A value always fits in `byte_len` of it many bytes.
pub proof fn lemma_byte_len_fits(v: nat)
    ensures
        v < pow256(byte_len(v)),
    decreases v,
{
    if v > 0 {
        lemma_byte_len_fits(v / 256);
        lemma_fundamental_div_mod(v as int, 256);
    }
}

/// `byte_len` is monotone in the value bound: below 256^n needs at most n bytes.
pub proof fn lemma_byte_len_le(v: nat, n: nat)
    requires
        v < pow256(n),
    ensures
        byte_len(v) <= n,
    decreases n,
{
    if v > 0 {
        assert(n > 0);
        assert(v / 256 < pow256((n - 1) as nat)) by (nonlinear_arith)
            requires
                v < 256 * pow256((n - 1) as nat),
        ;
        lemma_byte_len_le(v / 256, (n - 1) as nat);
    }
}

/// Values of at least 256^m need more than m bytes.
pub proof fn lemma_byte_len_ge(v: nat, m: nat)
    requires
        v >= pow256(m),
    ensures
        byte_len(v) > m,
    decreases m,
{
    if m == 0 {
    } else {
        assert(v / 256 >= pow256((m - 1) as nat)) by (nonlinear_arith)
            requires
                v >= 256 * pow256((m - 1) as nat),
        ;
        lemma_byte_len_ge(v / 256, (m - 1) as nat);
    }
}

/// The compact length prefix: small values in one byte, larger ones in two
/// or four bytes with a two-bit mode tag, and anything else length-prefixed
/// byte by byte. The low two bits of the first byte select the mode.
pub open spec fn enc_compact(v: nat) -> Seq<u8> {
    if v < 64 {
        seq![(v * 4) as u8]
    } else if v < 16384 {
        le_bytes(v * 4 + 1, 2)
    } else if v < 1073741824 {
        le_bytes(v * 4 + 2, 4)
    } else {
        seq![((byte_len(v) - 4) * 4 + 3) as u8] + le_bytes(v, byte_len(v))
    }
}

/// Reading a compact length prefix back. Yields the value and the remaining
/// input. Big-mode lengths beyond eight value bytes are refused: no length
/// this library writes needs them.
pub open spec fn dec_compact(s: Seq<u8>) -> Option<(nat, Seq<u8>)> {
    if s.len() == 0 {
        None
    } else {
        let b = s[0] as nat;
        if b % 4 == 0 {
            Some(((b / 4) as nat, s.skip(1)))
        } else if b % 4 == 1 {
            if s.len() >= 2 {
                Some((le_val(s.take(2)) / 4, s.skip(2)))
            } else {
                None
            }
        } else if b % 4 == 2 {
            if s.len() >= 4 {
                Some((le_val(s.take(4)) / 4, s.skip(4)))
            } else {
                None
            }
        } else {
            let n = b / 4 + 4;
            if n <= 8 && s.len() >= 1 + n {
                Some((le_val(s.subrange(1, 1 + n as int)), s.skip(1 + n as int)))
            } else {
                None
            }
        }
    }
}

/// Round trip for the compact length prefix, for every value at most eight
/// bytes wide.
pub proof fn lemma_compact_round_trip(v: nat, rest: Seq<u8>)
    requires
        v < pow256(8),
    ensures
        dec_compact(enc_compact(v) + rest) == Some((v, rest)),
{
    let s = enc_compact(v) + rest;
    if v < 64 {
        assert(s[0] == (v * 4) as u8);
        assert((v * 4) % 4 == 0 && (v * 4) / 4 == v) by (nonlinear_arith);
        assert(s.skip(1) =~= rest);
    } else if v < 16384 {
        lemma_le_bytes_len(v * 4 + 1, 2);
        assert(pow256(2) == 65536) by {
            reveal_with_fuel(pow256, 3);
        }
        lemma_le_val_of_le_bytes(v * 4 + 1, 2);
        assert(s.take(2) =~= le_bytes(v * 4 + 1, 2));
        assert(s.skip(2) =~= rest);
        // first byte of a two-byte little-endian value is the value mod 256
        assert(s[0] as nat == (v * 4 + 1) % 256);
        lemma_mod_mod((v * 4 + 1) as int, 4, 64);
        assert((v * 4 + 1) % 4 == 1 && (v * 4 + 1) / 4 == v) by (nonlinear_arith);
    } else if v < 1073741824 {
        lemma_le_bytes_len(v * 4 + 2, 4);
        assert(pow256(4) == 4294967296) by {
            reveal_with_fuel(pow256, 5);
        }
        lemma_le_val_of_le_bytes(v * 4 + 2, 4);
        assert(s.take(4) =~= le_bytes(v * 4 + 2, 4));
        assert(s.skip(4) =~= rest);
        assert(s[0] as nat == (v * 4 + 2) % 256);
        lemma_mod_mod((v * 4 + 2) as int, 4, 64);
        assert((v * 4 + 2) % 4 == 2 && (v * 4 + 2) / 4 == v) by (nonlinear_arith);
    } else {
        let n = byte_len(v);
        assert(pow256(4) == 4294967296) by {
            reveal_with_fuel(pow256, 5);
        }
        lemma_byte_len_ge(v, 3);
        lemma_byte_len_le(v, 8);
        assert(4 <= n <= 8);
        lemma_le_bytes_len(v, n);
        lemma_byte_len_fits(v);
        lemma_le_val_of_le_bytes(v, n);
        let b = ((n - 4) * 4 + 3) as u8;
        assert(s[0] == b);
        assert(b as nat % 4 == 3 && b as nat / 4 + 4 == n) by (nonlinear_arith)
            requires
                4 <= n <= 8 && b == ((n - 4) * 4 + 3) as u8,
        ;
        assert(s.subrange(1, 1 + n as int) =~= le_bytes(v, n));
        assert(s.skip(1 + n as int) =~= rest);
    }
}

/// Append the `n` low-order bytes of `v`, least significant first.
pub fn encode_le(v: u128, n: usize, out: &mut Vec<u8>)
    ensures
        final(out)@ == old(out)@ + le_bytes(v as nat, n as nat),
{
    let mut x = v;
    let mut i: usize = 0;
    proof {
        assert(pow256(0) == 1);
        assert(out@ =~= old(out)@ + le_bytes(v as nat, 0));
    }
    while i < n
        invariant
            i <= n,
            out@ == old(out)@ + le_bytes(v as nat, i as nat),
            x as nat == v as nat / pow256(i as nat),
        decreases n - i,
    {
        out.push((x % 256) as u8);
        proof {
            lemma_le_bytes_snoc(v as nat, i as nat);
            assert(out@ =~= old(out)@ + le_bytes(v as nat, (i + 1) as nat));
            lemma_pow256_pos(i as nat);
            lemma_div_denominator(v as int, pow256(i as nat) as int, 256);
            assert(pow256(i as nat) * 256 == pow256((i + 1) as nat));
        }
        x = x / 256;
        i = i + 1;
    }
}

/// Append the compact form of `v`.
pub fn encode_compact(v: u64, out: &mut Vec<u8>)
    ensures
        final(out)@ == old(out)@ + enc_compact(v as nat),
{
    if v < 64 {
        out.push((v as u8) * 4);
        proof {
            assert(out@ =~= old(out)@ + enc_compact(v as nat));
        }
    } else if v < 16384 {
        encode_le(v as u128 * 4 + 1, 2, out);
    } else if v < 1073741824 {
        encode_le(v as u128 * 4 + 2, 4, out);
    } else {
        let mut n: usize = 0;
        let mut x = v;
        while x > 0
            invariant
                byte_len(v as nat) == n + byte_len(x as nat),
                n <= 8,
            decreases x,
        {
            proof {
                if n >= 8 {
                    reveal_with_fuel(pow256, 9);
                    lemma_byte_len_le(v as nat, 8);
                    lemma_byte_len_ge(x as nat, 0);
                }
            }
            x = x / 256;
            n = n + 1;
        }
        assert(byte_len(v as nat) == n);
        proof {
            assert(pow256(4) == 4294967296) by {
                reveal_with_fuel(pow256, 5);
            }
            lemma_byte_len_ge(v as nat, 3);
        }
        out.push((n as u8 - 4) * 4 + 3);
        encode_le(v as u128, n, out);
        proof {
            assert(out@ =~= old(out)@ + enc_compact(v as nat));
        }
    }
}

/// Read `n` little-endian bytes at `pos`; `None` past the end of input.
pub fn decode_le(bytes: &Vec<u8>, pos: usize, n: usize) -> (r: Option<(u128, usize)>)
    requires
        n <= 16,
        pos <= bytes@.len(),
    ensures
        pos + n <= bytes@.len() ==> r == Some(
            (le_val(bytes@.subrange(pos as int, pos + n)) as u128, (pos + n) as usize),
        ),
        pos + n > bytes@.len() ==> r is None,
{
    let len = bytes.len();
    if n > len - pos {
        return None;
    }
    let mut v: u128 = 0;
    let mut i = n;
    proof {
        assert(bytes@.subrange(pos + i, pos + n) =~= Seq::<u8>::empty());
        assert(pow256(0) == 1);
    }
    while i > 0
        invariant
            i <= n <= 16,
            pos + n <= len == bytes@.len(),
            v as nat == le_val(bytes@.subrange(pos + i, pos + n)),
            (v as nat) < pow256((n - i) as nat),
        decreases i,
    {
        i = i - 1;
        proof {
            let t = bytes@.subrange(pos + i, pos + n);
            assert(t.drop_first() =~= bytes@.subrange(pos + i + 1, pos + n));
            lemma_pow256_le((n - i - 1) as nat, 15);
            assert(pow256(16) == 0x100000000000000000000000000000000) by {
                reveal_with_fuel(pow256, 17);
            }
            lemma_pow256_le(15, 15);
            assert(256 * pow256(15) == pow256(16));
            assert(v * 256 + 255 < pow256(16)) by (nonlinear_arith)
                requires
                    v < pow256(15nat),
                    256 * pow256(15nat) == pow256(16nat),
            ;
        }
        v = v * 256 + (bytes[pos + i] as u128);
        proof {
            assert(pow256((n - i) as nat) == 256 * pow256((n - i - 1) as nat));
            assert(v < pow256((n - i) as nat)) by (nonlinear_arith)
                requires
                    v < 256 * pow256((n - (i + 1)) as nat) - 255 + 255,
                    pow256((n - i) as nat) == 256 * pow256((n - (i + 1)) as nat),
            ;
        }
    }
    Some((v, pos + n))
}

/// Read a compact length prefix at `pos`. `None` exactly where the
/// specification-level reader yields none.
pub fn decode_compact(bytes: &Vec<u8>, pos: usize) -> (r: Option<(u64, usize)>)
    requires
        pos <= bytes@.len(),
    ensures
        (r matches Some(p) ==> pos < p.1 <= bytes@.len() && dec_compact(bytes@.skip(pos as int))
            == Some((p.0 as nat, bytes@.skip(p.1 as int)))),
        r is None ==> dec_compact(bytes@.skip(pos as int)) is None,
{
    let ghost sfx = bytes@.skip(pos as int);
    if pos == bytes.len() {
        return None;
    }
    let b = bytes[pos];
    assert(sfx[0] == b);
    let m = b % 4;
    if m == 0 {
        proof {
            assert(sfx.skip(1) =~= bytes@.skip(pos + 1));
        }
        Some(((b / 4) as u64, pos + 1))
    } else if m == 1 {
        match decode_le(bytes, pos, 2) {
            None => {
                assert(sfx.len() < 2);
                None
            },
            Some((x, end)) => {
                proof {
                    assert(sfx.take(2) =~= bytes@.subrange(pos as int, pos + 2));
                    assert(sfx.skip(2) =~= bytes@.skip(pos + 2));
                    lemma_le_val_bound(sfx.take(2));
                    assert(pow256(2) == 65536) by {
                        reveal_with_fuel(pow256, 3);
                    }
                }
                Some(((x / 4) as u64, end))
            },
        }
    } else if m == 2 {
        match decode_le(bytes, pos, 4) {
            None => {
                assert(sfx.len() < 4);
                None
            },
            Some((x, end)) => {
                proof {
                    assert(sfx.take(4) =~= bytes@.subrange(pos as int, pos + 4));
                    assert(sfx.skip(4) =~= bytes@.skip(pos + 4));
                    lemma_le_val_bound(sfx.take(4));
                    assert(pow256(4) == 4294967296) by {
                        reveal_with_fuel(pow256, 5);
                    }
                }
                Some(((x / 4) as u64, end))
            },
        }
    } else {
        let n = (b / 4) as usize + 4;
        if n > 8 {
            return None;
        }
        if bytes.len() - pos < 1 + n {
            assert(sfx.len() < 1 + n);
            return None;
        }
        match decode_le(bytes, pos + 1, n) {
            None => {
                assert(false);
                None
            },
            Some((x, end)) => {
                proof {
                    assert(sfx.subrange(1, 1 + n as int) =~= bytes@.subrange(
                        pos + 1,
                        pos + 1 + n,
                    ));
                    assert(sfx.skip(1 + n as int) =~= bytes@.skip(pos + 1 + n));
                    lemma_le_val_bound(sfx.subrange(1, 1 + n as int));
                    lemma_pow256_le(n as nat, 8);
                    assert(pow256(8) == 0x10000000000000000) by {
                        reveal_with_fuel(pow256, 9);
                    }
                }
                Some((x as u64, end))
            },
        }
    }
}

/// A value with a deterministic binary encoding: fields in declaration
/// order, no padding, no framing beyond what `enc` itself says.
pub trait Encodable {
    /// The exact bytes this value encodes to.
    spec fn enc(&self) -> Seq<u8>;

    /// Append the encoding of `self` to `out`.
    fn encode_to(&self, out: &mut Vec<u8>)
        ensures
            final(out)@ == old(out)@ + self.enc(),
    ;
}

/// Encode a value into a fresh buffer.
pub fn encode<T: Encodable>(v: &T) -> (r: Vec<u8>)
    ensures
        r@ == v.enc(),
{
    let mut out: Vec<u8> = Vec::new();
    v.encode_to(&mut out);
    proof {
        assert(out@ =~= v.enc());
    }
    out
}

/// A boolean is one byte, one for true.
pub open spec fn enc_bool(b: bool) -> Seq<u8> {
    seq![if b { 1u8 } else { 0u8 }]
}

impl Encodable for bool {
    open spec fn enc(&self) -> Seq<u8> {
        enc_bool(*self)
    }

    fn encode_to(&self, out: &mut Vec<u8>) {
        out.push(if *self { 1 } else { 0 });
        proof {
            assert(out@ =~= old(out)@ + self.enc());
        }
    }
}

impl Encodable for u8 {
    open spec fn enc(&self) -> Seq<u8> {
        le_bytes(*self as nat, 1)
    }

    fn encode_to(&self, out: &mut Vec<u8>) {
        encode_le(*self as u128, 1, out);
    }
}

impl Encodable for u16 {
    open spec fn enc(&self) -> Seq<u8> {
        le_bytes(*self as nat, 2)
    }

    fn encode_to(&self, out: &mut Vec<u8>) {
        encode_le(*self as u128, 2, out);
        proof {
            assert((*self as u128) as nat == *self as nat);
            assert(out@ =~= old(out)@ + self.enc());
        }
    }
}

impl Encodable for u32 {
    open spec fn enc(&self) -> Seq<u8> {
        le_bytes(*self as nat, 4)
    }

    fn encode_to(&self, out: &mut Vec<u8>) {
        encode_le(*self as u128, 4, out);
        proof {
            assert((*self as u128) as nat == *self as nat);
            assert(out@ =~= old(out)@ + self.enc());
        }
    }
}

impl Encodable for u64 {
    open spec fn enc(&self) -> Seq<u8> {
        le_bytes(*self as nat, 8)
    }

    fn encode_to(&self, out: &mut Vec<u8>) {
        encode_le(*self as u128, 8, out);
        proof {
            assert((*self as u128) as nat == *self as nat);
            assert(out@ =~= old(out)@ + self.enc());
        }
    }
}

impl Encodable for u128 {
    open spec fn enc(&self) -> Seq<u8> {
        le_bytes(*self as nat, 16)
    }

    fn encode_to(&self, out: &mut Vec<u8>) {
        encode_le(*self, 16, out);
        proof {
            assert(out@ =~= old(out)@ + self.enc());
        }
    }
}

/// A signed 64-bit value is its two's-complement image, little-endian.
impl Encodable for i64 {
    open spec fn enc(&self) -> Seq<u8> {
        le_bytes((*self as u64) as nat, 8)
    }

    fn encode_to(&self, out: &mut Vec<u8>) {
        encode_le((*self as u64) as u128, 8, out);
    }
}

/// An option is a presence byte followed by the value when present.
impl<T: Encodable> Encodable for Option<T> {
    open spec fn enc(&self) -> Seq<u8> {
        match self {
            Option::None => seq![0u8],
            Option::Some(x) => seq![1u8] + x.enc(),
        }
    }

    fn encode_to(&self, out: &mut Vec<u8>) {
        match self {
            Option::None => {
                out.push(0);
                proof {
                    assert(out@ =~= old(out)@ + self.enc());
                }
            },
            Option::Some(x) => {
                out.push(1);
                x.encode_to(out);
                proof {
                    assert(out@ =~= old(out)@ + self.enc());
                }
            },
        }
    }
}

/// A pair is the first component's bytes followed by the second's.
impl<A: Encodable, B: Encodable> Encodable for (A, B) {
    open spec fn enc(&self) -> Seq<u8> {
        self.0.enc() + self.1.enc()
    }

    fn encode_to(&self, out: &mut Vec<u8>) {
        self.0.encode_to(out);
        self.1.encode_to(out);
        proof {
            assert(out@ =~= old(out)@ + self.enc());
        }
    }
}

/// The encodings of a run of items, one after the other.
pub open spec fn enc_items<T: Encodable>(s: Seq<T>) -> Seq<u8>
    decreases s.len(),
{
    if s.len() == 0 {
        Seq::<u8>::empty()
    } else {
        s[0].enc() + enc_items(s.drop_first())
    }
}

pub proof fn lemma_enc_items_snoc<T: Encodable>(s: Seq<T>, i: int)
    requires
        0 <= i < s.len(),
    ensures
        enc_items(s.take(i + 1)) == enc_items(s.take(i)) + s[i].enc(),
    decreases i,
{
    if i == 0 {
        assert(s.take(1).drop_first() =~= s.take(0));
        assert(enc_items(s.take(1)) =~= enc_items(s.take(0)) + s[0].enc());
    } else {
        lemma_enc_items_snoc(s.drop_first(), i - 1);
        assert(s.take(i + 1).drop_first() =~= s.drop_first().take(i));
        assert(s.take(i).drop_first() =~= s.drop_first().take(i - 1));
        assert(enc_items(s.take(i + 1)) =~= enc_items(s.take(i)) + s[i].enc());
    }
}

/// For bytes the run of items is the byte string itself.
pub proof fn lemma_enc_items_bytes(s: Seq<u8>)
    ensures
        enc_items(s) == s,
    decreases s.len(),
{
    if s.len() > 0 {
        lemma_enc_items_bytes(s.drop_first());
        assert(le_bytes(s[0] as nat, 1) =~= seq![s[0]]) by {
            reveal_with_fuel(le_bytes, 2);
        }
        assert(enc_items(s) =~= s);
    }
}

/// A sequence is its compact length followed by each item in order.
impl<T: Encodable> Encodable for Vec<T> {
    open spec fn enc(&self) -> Seq<u8> {
        enc_compact(self@.len()) + enc_items(self@)
    }

    fn encode_to(&self, out: &mut Vec<u8>) {
        encode_compact(self.len() as u64, out);
        let mut i: usize = 0;
        proof {
            assert(enc_items(self@.take(0)) =~= Seq::<u8>::empty());
            assert(out@ =~= old(out)@ + enc_compact(self@.len()) + enc_items(self@.take(0)));
        }
        while i < self.len()
            invariant
                i <= self@.len(),
                out@ == old(out)@ + enc_compact(self@.len()) + enc_items(self@.take(i as int)),
            decreases self@.len() - i,
        {
            self[i].encode_to(out);
            proof {
                lemma_enc_items_snoc(self@, i as int);
                assert(out@ =~= old(out)@ + enc_compact(self@.len()) + enc_items(
                    self@.take(i + 1),
                ));
            }
            i = i + 1;
        }
        proof {
            assert(self@.take(self@.len() as int) =~= self@);
            assert(out@ =~= old(out)@ + self.enc());
        }
    }
}

/// A length-prefixed byte string.
pub open spec fn enc_bytes(s: Seq<u8>) -> Seq<u8> {
    enc_compact(s.len()) + s
}

/// A `Vec<u8>` encodes as the length-prefixed byte string of its contents.
pub proof fn lemma_enc_vec_bytes(v: Vec<u8>)
    ensures
        v.enc() == enc_bytes(v@),
{
    lemma_enc_items_bytes(v@);
}

/// Reading `n` little-endian bytes back.
pub open spec fn dec_le(s: Seq<u8>, n: nat) -> Option<(nat, Seq<u8>)> {
    if s.len() >= n {
        Some((le_val(s.take(n as int)), s.skip(n as int)))
    } else {
        None
    }
}

pub proof fn lemma_le_round_trip(v: nat, n: nat, rest: Seq<u8>)
    requires
        v < pow256(n),
    ensures
        dec_le(le_bytes(v, n) + rest, n) == Some((v, rest)),
{
    lemma_le_bytes_len(v, n);
    lemma_le_val_of_le_bytes(v, n);
    let s = le_bytes(v, n) + rest;
    assert(s.take(n as int) =~= le_bytes(v, n));
    assert(s.skip(n as int) =~= rest);
}

/// Reading a signed 64-bit value back: eight bytes, two's complement.
pub open spec fn dec_i64(s: Seq<u8>) -> Option<(i64, Seq<u8>)> {
    match dec_le(s, 8) {
        Option::Some((v, r)) => Some(((v as u64) as i64, r)),
        Option::None => None,
    }
}

pub proof fn lemma_i64_round_trip(x: i64, rest: Seq<u8>)
    ensures
        dec_i64(le_bytes((x as u64) as nat, 8) + rest) == Some((x, rest)),
{
    assert(pow256(8) == 0x10000000000000000) by {
        reveal_with_fuel(pow256, 9);
    }
    lemma_le_round_trip((x as u64) as nat, 8, rest);
    assert((x as u64) as i64 == x) by (bit_vector);
}

/// Read a signed 64-bit value at `pos`.
pub fn decode_i64(bytes: &Vec<u8>, pos: usize) -> (r: Option<(i64, usize)>)
    requires
        pos <= bytes@.len(),
    ensures
        (r matches Some(p) ==> pos < p.1 <= bytes@.len() && dec_i64(bytes@.skip(pos as int))
            == Some((p.0, bytes@.skip(p.1 as int)))),
        r is None ==> dec_i64(bytes@.skip(pos as int)) is None,
{
    match decode_le(bytes, pos, 8) {
        None => {
            proof {
                assert(bytes@.skip(pos as int).len() < 8);
            }
            None
        },
        Some((v, end)) => {
            proof {
                assert(bytes.len() == bytes@.len());
                lemma_le_at(bytes@, pos as int, 8);
                assert(pow256(8) == 0x10000000000000000) by {
                    reveal_with_fuel(pow256, 9);
                }
            }
            Some(((v as u64) as i64, end))
        },
    }
}

/// Reading a boolean back: only the two bytes an encoder can write.
pub open spec fn dec_bool(s: Seq<u8>) -> Option<(bool, Seq<u8>)> {
    if s.len() == 0 {
        None
    } else if s[0] == 0 {
        Some((false, s.skip(1)))
    } else if s[0] == 1 {
        Some((true, s.skip(1)))
    } else {
        None
    }
}

pub proof fn lemma_bool_round_trip(b: bool, rest: Seq<u8>)
    ensures
        dec_bool(enc_bool(b) + rest) == Some((b, rest)),
{
    assert((enc_bool(b) + rest).skip(1) =~= rest);
}

/// Reading a length-prefixed byte string back.
pub open spec fn dec_bytes(s: Seq<u8>) -> Option<(Seq<u8>, Seq<u8>)> {
    match dec_compact(s) {
        Option::None => None,
        Option::Some((k, r)) => if r.len() >= k {
            Some((r.take(k as int), r.skip(k as int)))
        } else {
            None
        },
    }
}

pub proof fn lemma_bytes_round_trip(s: Seq<u8>, rest: Seq<u8>)
    requires
        s.len() < pow256(8),
    ensures
        dec_bytes(enc_bytes(s) + rest) == Some((s, rest)),
{
    lemma_compact_round_trip(s.len(), s + rest);
    assert(enc_bytes(s) + rest =~= enc_compact(s.len()) + (s + rest));
    assert((s + rest).take(s.len() as int) =~= s);
    assert((s + rest).skip(s.len() as int) =~= rest);
}

/// Reading each unsigned width back.
pub open spec fn dec_u8(s: Seq<u8>) -> Option<(u8, Seq<u8>)> {
    match dec_le(s, 1) {
        Option::Some((v, r)) => Some((v as u8, r)),
        Option::None => None,
    }
}

pub open spec fn dec_u16(s: Seq<u8>) -> Option<(u16, Seq<u8>)> {
    match dec_le(s, 2) {
        Option::Some((v, r)) => Some((v as u16, r)),
        Option::None => None,
    }
}

pub open spec fn dec_u32(s: Seq<u8>) -> Option<(u32, Seq<u8>)> {
    match dec_le(s, 4) {
        Option::Some((v, r)) => Some((v as u32, r)),
        Option::None => None,
    }
}

pub open spec fn dec_u64(s: Seq<u8>) -> Option<(u64, Seq<u8>)> {
    match dec_le(s, 8) {
        Option::Some((v, r)) => Some((v as u64, r)),
        Option::None => None,
    }
}

pub open spec fn dec_u128(s: Seq<u8>) -> Option<(u128, Seq<u8>)> {
    match dec_le(s, 16) {
        Option::Some((v, r)) => Some((v as u128, r)),
        Option::None => None,
    }
}

pub proof fn lemma_u8_round_trip(x: u8, rest: Seq<u8>)
    ensures
        dec_u8(le_bytes(x as nat, 1) + rest) == Some((x, rest)),
{
    assert(pow256(1) == 256) by {
        reveal_with_fuel(pow256, 2);
    }
    lemma_le_round_trip(x as nat, 1, rest);
}

pub proof fn lemma_u16_round_trip(x: u16, rest: Seq<u8>)
    ensures
        dec_u16(le_bytes(x as nat, 2) + rest) == Some((x, rest)),
{
    assert(pow256(2) == 0x10000) by {
        reveal_with_fuel(pow256, 3);
    }
    lemma_le_round_trip(x as nat, 2, rest);
}

pub proof fn lemma_u32_round_trip(x: u32, rest: Seq<u8>)
    ensures
        dec_u32(le_bytes(x as nat, 4) + rest) == Some((x, rest)),
{
    assert(pow256(4) == 0x100000000) by {
        reveal_with_fuel(pow256, 5);
    }
    lemma_le_round_trip(x as nat, 4, rest);
}

pub proof fn lemma_u64_round_trip(x: u64, rest: Seq<u8>)
    ensures
        dec_u64(le_bytes(x as nat, 8) + rest) == Some((x, rest)),
{
    assert(pow256(8) == 0x10000000000000000) by {
        reveal_with_fuel(pow256, 9);
    }
    lemma_le_round_trip(x as nat, 8, rest);
}

pub proof fn lemma_u128_round_trip(x: u128, rest: Seq<u8>)
    ensures
        dec_u128(le_bytes(x as nat, 16) + rest) == Some((x, rest)),
{
    assert(pow256(16) == 0x100000000000000000000000000000000) by {
        reveal_with_fuel(pow256, 17);
    }
    lemma_le_round_trip(x as nat, 16, rest);
}

/// What `decode_le` reads for a field at `pos` with `n` bytes available.
proof fn lemma_le_at(bs: Seq<u8>, pos: int, n: nat)
    requires
        0 <= pos <= bs.len(),
        pos + n <= bs.len(),
    ensures
        le_val(bs.subrange(pos, pos + n)) < pow256(n),
        dec_le(bs.skip(pos), n) == Some((le_val(bs.subrange(pos, pos + n)), bs.skip(pos + n))),
{
    let sfx = bs.skip(pos);
    assert(sfx.take(n as int) =~= bs.subrange(pos, pos + n));
    assert(sfx.skip(n as int) =~= bs.skip(pos + n));
    lemma_le_val_bound(sfx.take(n as int));
}

/// Read an unsigned 8-bit value at `pos`.
pub fn decode_u8(bytes: &Vec<u8>, pos: usize) -> (r: Option<(u8, usize)>)
    requires
        pos <= bytes@.len(),
    ensures
        (r matches Some(p) ==> pos < p.1 <= bytes@.len() && dec_u8(bytes@.skip(pos as int))
            == Some((p.0, bytes@.skip(p.1 as int)))),
        r is None ==> dec_u8(bytes@.skip(pos as int)) is None,
{
    match decode_le(bytes, pos, 1) {
        None => {
            proof {
                assert(bytes@.skip(pos as int).len() < 1);
            }
            None
        },
        Some((v, end)) => {
            proof {
                assert(bytes.len() == bytes@.len());
                lemma_le_at(bytes@, pos as int, 1);
                assert(pow256(1) == 256) by {
                    reveal_with_fuel(pow256, 2);
                }
            }
            Some((v as u8, end))
        },
    }
}

/// Read an unsigned 16-bit value at `pos`.
pub fn decode_u16(bytes: &Vec<u8>, pos: usize) -> (r: Option<(u16, usize)>)
    requires
        pos <= bytes@.len(),
    ensures
        (r matches Some(p) ==> pos < p.1 <= bytes@.len() && dec_u16(bytes@.skip(pos as int))
            == Some((p.0, bytes@.skip(p.1 as int)))),
        r is None ==> dec_u16(bytes@.skip(pos as int)) is None,
{
    match decode_le(bytes, pos, 2) {
        None => {
            proof {
                assert(bytes@.skip(pos as int).len() < 2);
            }
            None
        },
        Some((v, end)) => {
            proof {
                assert(bytes.len() == bytes@.len());
                lemma_le_at(bytes@, pos as int, 2);
                assert(pow256(2) == 0x10000) by {
                    reveal_with_fuel(pow256, 3);
                }
            }
            Some((v as u16, end))
        },
    }
}

/// Read an unsigned 32-bit value at `pos`.
pub fn decode_u32(bytes: &Vec<u8>, pos: usize) -> (r: Option<(u32, usize)>)
    requires
        pos <= bytes@.len(),
    ensures
        (r matches Some(p) ==> pos < p.1 <= bytes@.len() && dec_u32(bytes@.skip(pos as int))
            == Some((p.0, bytes@.skip(p.1 as int)))),
        r is None ==> dec_u32(bytes@.skip(pos as int)) is None,
{
    match decode_le(bytes, pos, 4) {
        None => {
            proof {
                assert(bytes@.skip(pos as int).len() < 4);
            }
            None
        },
        Some((v, end)) => {
            proof {
                assert(bytes.len() == bytes@.len());
                lemma_le_at(bytes@, pos as int, 4);
                assert(pow256(4) == 0x100000000) by {
                    reveal_with_fuel(pow256, 5);
                }
            }
            Some((v as u32, end))
        },
    }
}

/// Read an unsigned 64-bit value at `pos`.
pub fn decode_u64(bytes: &Vec<u8>, pos: usize) -> (r: Option<(u64, usize)>)
    requires
        pos <= bytes@.len(),
    ensures
        (r matches Some(p) ==> pos < p.1 <= bytes@.len() && dec_u64(bytes@.skip(pos as int))
            == Some((p.0, bytes@.skip(p.1 as int)))),
        r is None ==> dec_u64(bytes@.skip(pos as int)) is None,
{
    match decode_le(bytes, pos, 8) {
        None => {
            proof {
                assert(bytes@.skip(pos as int).len() < 8);
            }
            None
        },
        Some((v, end)) => {
            proof {
                assert(bytes.len() == bytes@.len());
                lemma_le_at(bytes@, pos as int, 8);
                assert(pow256(8) == 0x10000000000000000) by {
                    reveal_with_fuel(pow256, 9);
                }
            }
            Some((v as u64, end))
        },
    }
}

/// Read an unsigned 128-bit value at `pos`.
pub fn decode_u128(bytes: &Vec<u8>, pos: usize) -> (r: Option<(u128, usize)>)
    requires
        pos <= bytes@.len(),
    ensures
        (r matches Some(p) ==> pos < p.1 <= bytes@.len() && dec_u128(bytes@.skip(pos as int))
            == Some((p.0, bytes@.skip(p.1 as int)))),
        r is None ==> dec_u128(bytes@.skip(pos as int)) is None,
{
    match decode_le(bytes, pos, 16) {
        None => {
            proof {
                assert(bytes@.skip(pos as int).len() < 16);
            }
            None
        },
        Some((v, end)) => {
            proof {
                assert(bytes.len() == bytes@.len());
                lemma_le_at(bytes@, pos as int, 16);
                assert(pow256(16) == 0x100000000000000000000000000000000) by {
                    reveal_with_fuel(pow256, 17);
                }
            }
            Some((v, end))
        },
    }
}

/// Read a boolean at `pos`.
pub fn decode_bool(bytes: &Vec<u8>, pos: usize) -> (r: Option<(bool, usize)>)
    requires
        pos <= bytes@.len(),
    ensures
        (r matches Some(p) ==> pos < p.1 <= bytes@.len() && dec_bool(bytes@.skip(pos as int))
            == Some((p.0, bytes@.skip(p.1 as int)))),
        r is None ==> dec_bool(bytes@.skip(pos as int)) is None,
{
    if pos == bytes.len() {
        return None;
    }
    let b = bytes[pos];
    proof {
        assert(bytes@.skip(pos as int)[0] == b);
        assert(bytes@.skip(pos as int).skip(1) =~= bytes@.skip(pos + 1));
    }
    if b == 0 {
        Some((false, pos + 1))
    } else if b == 1 {
        Some((true, pos + 1))
    } else {
        None
    }
}

/// Read a length-prefixed byte string at `pos`.
pub fn decode_bytes(bytes: &Vec<u8>, pos: usize) -> (r: Option<(Vec<u8>, usize)>)
    requires
        pos <= bytes@.len(),
    ensures
        (r matches Some(p) ==> pos <= p.1 <= bytes@.len() && dec_bytes(bytes@.skip(pos as int))
            == Some((p.0@, bytes@.skip(p.1 as int)))),
        r is None ==> dec_bytes(bytes@.skip(pos as int)) is None,
{
    let ghost sfx = bytes@.skip(pos as int);
    match decode_compact(bytes, pos) {
        None => None,
        Some((k, mid)) => {
            let ghost r = bytes@.skip(mid as int);
            let len = bytes.len();
            if k > (len - mid) as u64 {
                proof {
                    assert(r.len() < k);
                }
                return None;
            }
            let k = k as usize;
            let mut v: Vec<u8> = Vec::new();
            let mut i: usize = 0;
            while i < k
                invariant
                    i <= k,
                    mid + k <= len == bytes@.len(),
                    v@ == bytes@.subrange(mid as int, mid + i),
                decreases k - i,
            {
                v.push(bytes[mid + i]);
                proof {
                    assert(v@ =~= bytes@.subrange(mid as int, mid + i + 1));
                }
                i = i + 1;
            }
            proof {
                assert(v@ =~= r.take(k as int));
                assert(r.skip(k as int) =~= bytes@.skip(mid + k));
            }
            Some((v, mid + k))
        },
    }
}

} // verus!
