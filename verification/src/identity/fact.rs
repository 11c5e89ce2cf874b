//! The atomic unit of typed domain data: a tagged union of booleans, byte
//! strings, unsigned integers, and calendar values.

use crate::codec::{
    dec_bool, dec_bytes, dec_le, enc_bool, enc_bytes, le_bytes, lemma_bool_round_trip,
    lemma_bytes_round_trip, lemma_enc_vec_bytes, lemma_le_round_trip, lemma_le_val_bound,
    decode_bool, decode_bytes, decode_le, le_val, pow256, Encodable,
};
use vstd::prelude::*;

verus! {

/// A typed fact.
#[derive(Debug, Clone, PartialEq, Eq)]
pub enum Fact {
    /// true or false
    Bool(bool),
    /// byte string
    String(Vec<u8>),
    /// 0 - 255
    U8(u8),
    /// 0 - 65535
    U16(u16),
    /// 0 - 4294967295
    U32(u32),
    /// 0 - 340282366920938463463374607431768211455
    U128(u128),
    /// (Year, Month, Day)
    Date(u8, u8, u8),
    /// (Year, Month, Day, Hour, Minute, Second, Time Zone Offset)
    Iso8601(u8, u8, u8, u8, u8, u8, Vec<u8>),
}

/// The mathematical image of a fact: the same shape over abstract sequences.
pub enum FactV {
    Bool(bool),
    String(Seq<u8>),
    U8(u8),
    U16(u16),
    U32(u32),
    U128(u128),
    Date(u8, u8, u8),
    Iso8601(u8, u8, u8, u8, u8, u8, Seq<u8>),
}

impl View for Fact {
    type V = FactV;

    open spec fn view(&self) -> FactV {
        match self {
            Fact::Bool(b) => FactV::Bool(*b),
            Fact::String(s) => FactV::String(s@),
            Fact::U8(x) => FactV::U8(*x),
            Fact::U16(x) => FactV::U16(*x),
            Fact::U32(x) => FactV::U32(*x),
            Fact::U128(x) => FactV::U128(*x),
            Fact::Date(y, m, d) => FactV::Date(*y, *m, *d),
            Fact::Iso8601(y, m, d, h, mi, sec, tz) => FactV::Iso8601(
                *y,
                *m,
                *d,
                *h,
                *mi,
                *sec,
                tz@,
            ),
        }
    }
}

/// A fact encodes as a discriminant byte, following declared variant order,
/// then the variant's payload.
pub open spec fn enc_fact(f: FactV) -> Seq<u8> {
    match f {
        FactV::Bool(b) => seq![0u8] + enc_bool(b),
        FactV::String(s) => seq![1u8] + enc_bytes(s),
        FactV::U8(x) => seq![2u8] + le_bytes(x as nat, 1),
        FactV::U16(x) => seq![3u8] + le_bytes(x as nat, 2),
        FactV::U32(x) => seq![4u8] + le_bytes(x as nat, 4),
        FactV::U128(x) => seq![5u8] + le_bytes(x as nat, 16),
        FactV::Date(y, m, d) => seq![6u8, y, m, d],
        FactV::Iso8601(y, m, d, h, mi, sec, tz) => seq![7u8, y, m, d, h, mi, sec] + enc_bytes(tz),
    }
}

impl Encodable for Fact {
    open spec fn enc(&self) -> Seq<u8> {
        enc_fact(self@)
    }

    fn encode_to(&self, out: &mut Vec<u8>) {
        match self {
            Fact::Bool(b) => {
                out.push(0);
                b.encode_to(out);
            },
            Fact::String(s) => {
                out.push(1);
                s.encode_to(out);
                proof {
                    lemma_enc_vec_bytes(*s);
                }
            },
            Fact::U8(x) => {
                out.push(2);
                x.encode_to(out);
            },
            Fact::U16(x) => {
                out.push(3);
                x.encode_to(out);
            },
            Fact::U32(x) => {
                out.push(4);
                x.encode_to(out);
            },
            Fact::U128(x) => {
                out.push(5);
                x.encode_to(out);
            },
            Fact::Date(y, m, d) => {
                out.push(6);
                out.push(*y);
                out.push(*m);
                out.push(*d);
            },
            Fact::Iso8601(y, m, d, h, mi, sec, tz) => {
                out.push(7);
                out.push(*y);
                out.push(*m);
                out.push(*d);
                out.push(*h);
                out.push(*mi);
                out.push(*sec);
                tz.encode_to(out);
                proof {
                    lemma_enc_vec_bytes(*tz);
                }
            },
        }
        proof {
            assert(out@ =~= old(out)@ + self.enc());
        }
    }
}

/// The default fact is an empty byte string.
impl Default for Fact {
    fn default() -> (r: Self)
        ensures
            (r matches Fact::String(s) && s@ == Seq::<u8>::empty()),
    {
        Fact::String(Vec::new())
    }
}

/// Reading a fact back: the discriminant byte, then the variant's payload.
pub open spec fn dec_fact(s: Seq<u8>) -> Option<(FactV, Seq<u8>)> {
    if s.len() == 0 {
        None
    } else {
        let t = s[0];
        let r = s.skip(1);
        if t == 0 {
            match dec_bool(r) {
                Option::Some((b, r2)) => Some((FactV::Bool(b), r2)),
                Option::None => None,
            }
        } else if t == 1 {
            match dec_bytes(r) {
                Option::Some((x, r2)) => Some((FactV::String(x), r2)),
                Option::None => None,
            }
        } else if t == 2 {
            match dec_le(r, 1) {
                Option::Some((v, r2)) => Some((FactV::U8(v as u8), r2)),
                Option::None => None,
            }
        } else if t == 3 {
            match dec_le(r, 2) {
                Option::Some((v, r2)) => Some((FactV::U16(v as u16), r2)),
                Option::None => None,
            }
        } else if t == 4 {
            match dec_le(r, 4) {
                Option::Some((v, r2)) => Some((FactV::U32(v as u32), r2)),
                Option::None => None,
            }
        } else if t == 5 {
            match dec_le(r, 16) {
                Option::Some((v, r2)) => Some((FactV::U128(v as u128), r2)),
                Option::None => None,
            }
        } else if t == 6 {
            if r.len() >= 3 {
                Some((FactV::Date(r[0], r[1], r[2]), r.skip(3)))
            } else {
                None
            }
        } else if t == 7 {
            if r.len() >= 6 {
                match dec_bytes(r.skip(6)) {
                    Option::Some((tz, r2)) => Some(
                        (FactV::Iso8601(r[0], r[1], r[2], r[3], r[4], r[5], tz), r2),
                    ),
                    Option::None => None,
                }
            } else {
                None
            }
        } else {
            None
        }
    }
}

/// A fact image whose byte strings a real buffer could hold.
pub open spec fn fact_v_bounded(f: FactV) -> bool {
    match f {
        FactV::String(s) => s.len() < pow256(8),
        FactV::Iso8601(y, m, d, h, mi, sec, tz) => tz.len() < pow256(8),
        _ => true,
    }
}

/// The image of every in-memory fact is bounded.
pub proof fn lemma_fact_view_bounded(f: &Fact)
    ensures
        fact_v_bounded(f@),
{
    assert(pow256(8) == 0x10000000000000000) by {
        reveal_with_fuel(pow256, 9);
    }
    match f {
        Fact::String(s) => {
            assert(s@.len() == s.len());
        },
        Fact::Iso8601(y, m, d, h, mi, sec, tz) => {
            assert(tz@.len() == tz.len());
        },
        _ => {},
    }
}

/// Round trip: a fact read back is the fact that was written.
pub proof fn lemma_fact_round_trip(f: FactV, rest: Seq<u8>)
    requires
        fact_v_bounded(f),
    ensures
        dec_fact(enc_fact(f) + rest) == Some((f, rest)),
{
    let s = enc_fact(f) + rest;
    let r = s.skip(1);
    match f {
        FactV::Bool(b) => {
            assert(r =~= enc_bool(b) + rest);
            lemma_bool_round_trip(b, rest);
        },
        FactV::String(x) => {
            assert(r =~= enc_bytes(x) + rest);
            lemma_bytes_round_trip(x, rest);
        },
        FactV::U8(x) => {
            assert(r =~= le_bytes(x as nat, 1) + rest);
            assert(pow256(1) == 256) by {
                reveal_with_fuel(pow256, 2);
            }
            lemma_le_round_trip(x as nat, 1, rest);
        },
        FactV::U16(x) => {
            assert(r =~= le_bytes(x as nat, 2) + rest);
            assert(pow256(2) == 0x10000) by {
                reveal_with_fuel(pow256, 3);
            }
            lemma_le_round_trip(x as nat, 2, rest);
        },
        FactV::U32(x) => {
            assert(r =~= le_bytes(x as nat, 4) + rest);
            assert(pow256(4) == 0x100000000) by {
                reveal_with_fuel(pow256, 5);
            }
            lemma_le_round_trip(x as nat, 4, rest);
        },
        FactV::U128(x) => {
            assert(r =~= le_bytes(x as nat, 16) + rest);
            assert(pow256(16) == 0x100000000000000000000000000000000) by {
                reveal_with_fuel(pow256, 17);
            }
            lemma_le_round_trip(x as nat, 16, rest);
        },
        FactV::Date(y, m, d) => {
            assert(r.skip(3) =~= rest);
        },
        FactV::Iso8601(y, m, d, h, mi, sec, tz) => {
            assert(r.skip(6) =~= enc_bytes(tz) + rest);
            lemma_bytes_round_trip(tz, rest);
        },
    }
}

/// Read a fact at `pos`.
pub fn decode_fact(bytes: &Vec<u8>, pos: usize) -> (r: Option<(Fact, usize)>)
    requires
        pos <= bytes@.len(),
    ensures
        (r matches Some(p) ==> pos < p.1 <= bytes@.len() && dec_fact(bytes@.skip(pos as int))
            == Some((p.0@, bytes@.skip(p.1 as int)))),
        r is None ==> dec_fact(bytes@.skip(pos as int)) is None,
{
    let len = bytes.len();
    if pos == len {
        return None;
    }
    let ghost sfx = bytes@.skip(pos as int);
    let t = bytes[pos];
    let mid = pos + 1;
    proof {
        assert(sfx[0] == t);
        assert(sfx.skip(1) =~= bytes@.skip(mid as int));
    }
    if t == 0 {
        match decode_bool(bytes, mid) {
            Some((b, end)) => Some((Fact::Bool(b), end)),
            None => None,
        }
    } else if t == 1 {
        match decode_bytes(bytes, mid) {
            Some((x, end)) => Some((Fact::String(x), end)),
            None => None,
        }
    } else if t == 2 {
        match decode_le(bytes, mid, 1) {
            Some((v, end)) => {
                proof {
                    lemma_le_decoded_fits(bytes@, mid as int, 1);
                    assert(pow256(1) == 256) by {
                        reveal_with_fuel(pow256, 2);
                    }
                }
                Some((Fact::U8(v as u8), end))
            },
            None => {
                proof {
                    assert(bytes@.skip(mid as int).len() < 1);
                }
                None
            },
        }
    } else if t == 3 {
        match decode_le(bytes, mid, 2) {
            Some((v, end)) => {
                proof {
                    lemma_le_decoded_fits(bytes@, mid as int, 2);
                    assert(pow256(2) == 0x10000) by {
                        reveal_with_fuel(pow256, 3);
                    }
                }
                Some((Fact::U16(v as u16), end))
            },
            None => {
                proof {
                    assert(bytes@.skip(mid as int).len() < 2);
                }
                None
            },
        }
    } else if t == 4 {
        match decode_le(bytes, mid, 4) {
            Some((v, end)) => {
                proof {
                    lemma_le_decoded_fits(bytes@, mid as int, 4);
                    assert(pow256(4) == 0x100000000) by {
                        reveal_with_fuel(pow256, 5);
                    }
                }
                Some((Fact::U32(v as u32), end))
            },
            None => {
                proof {
                    assert(bytes@.skip(mid as int).len() < 4);
                }
                None
            },
        }
    } else if t == 5 {
        match decode_le(bytes, mid, 16) {
            Some((v, end)) => {
                proof {
                    lemma_le_decoded_fits(bytes@, mid as int, 16);
                    assert(pow256(16) == 0x100000000000000000000000000000000) by {
                        reveal_with_fuel(pow256, 17);
                    }
                }
                Some((Fact::U128(v), end))
            },
            None => {
                proof {
                    assert(bytes@.skip(mid as int).len() < 16);
                }
                None
            },
        }
    } else if t == 6 {
        if len - mid < 3 {
            proof {
                assert(bytes@.skip(mid as int).len() < 3);
            }
            return None;
        }
        proof {
            assert(bytes@.skip(mid as int).skip(3) =~= bytes@.skip(mid + 3));
        }
        Some((Fact::Date(bytes[mid], bytes[mid + 1], bytes[mid + 2]), mid + 3))
    } else if t == 7 {
        if len - mid < 6 {
            proof {
                assert(bytes@.skip(mid as int).len() < 6);
            }
            return None;
        }
        proof {
            assert(bytes@.skip(mid as int).skip(6) =~= bytes@.skip(mid + 6));
        }
        match decode_bytes(bytes, mid + 6) {
            Some((tz, end)) => Some(
                (
                    Fact::Iso8601(
                        bytes[mid],
                        bytes[mid + 1],
                        bytes[mid + 2],
                        bytes[mid + 3],
                        bytes[mid + 4],
                        bytes[mid + 5],
                        tz,
                    ),
                    end,
                ),
            ),
            None => None,
        }
    } else {
        None
    }
}

/// What `decode_le` hands back for `n` bytes fits in `n` bytes.
proof fn lemma_le_decoded_fits(bs: Seq<u8>, mid: int, n: nat)
    requires
        0 <= mid <= bs.len(),
        mid + n <= bs.len(),
    ensures
        le_val(bs.subrange(mid, mid + n)) < pow256(n),
        dec_le(bs.skip(mid), n) == Some(
            (le_val(bs.subrange(mid, mid + n)), bs.skip(mid + n)),
        ),
{
    let sfx = bs.skip(mid);
    assert(sfx.take(n as int) =~= bs.subrange(mid, mid + n));
    assert(sfx.skip(n as int) =~= bs.skip(mid + n));
    lemma_le_val_bound(sfx.take(n as int));
}

} // verus!
