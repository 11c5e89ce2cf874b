//! A named, timestamped fact attached to a decentralized identifier.

use crate::codec::{
    dec_bytes, dec_i64, enc_bytes, decode_bytes, decode_i64, lemma_bytes_round_trip,
    lemma_enc_vec_bytes, lemma_i64_round_trip, pow256, Encodable,
};
use crate::identity::fact::{
    dec_fact, decode_fact, enc_fact, fact_v_bounded, lemma_fact_round_trip,
    lemma_fact_view_bounded, Fact, FactV,
};
use vstd::prelude::*;

verus! {

/// A property of an identifier: when it was created, its name, and the fact
/// it states.
#[derive(Debug, Clone, PartialEq, Eq)]
pub struct DidProperty {
    pub created: i64,
    pub name: Vec<u8>,
    pub fact: Fact,
}

/// The mathematical image of a property.
pub struct DidPropertyV {
    pub created: i64,
    pub name: Seq<u8>,
    pub fact: FactV,
}

impl View for DidProperty {
    type V = DidPropertyV;

    open spec fn view(&self) -> DidPropertyV {
        DidPropertyV { created: self.created, name: self.name@, fact: self.fact@ }
    }
}

/// A property encodes its fields in declaration order.
pub open spec fn enc_did_property(p: DidPropertyV) -> Seq<u8> {
    crate::codec::le_bytes((p.created as u64) as nat, 8) + enc_bytes(p.name) + enc_fact(p.fact)
}

impl Encodable for DidProperty {
    open spec fn enc(&self) -> Seq<u8> {
        enc_did_property(self@)
    }

    fn encode_to(&self, out: &mut Vec<u8>) {
        self.created.encode_to(out);
        self.name.encode_to(out);
        self.fact.encode_to(out);
        proof {
            lemma_enc_vec_bytes(self.name);
            assert(out@ =~= old(out)@ + self.enc());
        }
    }
}

/// Reading a property back, field by field.
pub open spec fn dec_did_property(s: Seq<u8>) -> Option<(DidPropertyV, Seq<u8>)> {
    match dec_i64(s) {
        Option::None => None,
        Option::Some((created, r1)) => match dec_bytes(r1) {
            Option::None => None,
            Option::Some((name, r2)) => match dec_fact(r2) {
                Option::None => None,
                Option::Some((fact, r3)) => Some((DidPropertyV { created, name, fact }, r3)),
            },
        },
    }
}

/// A property image whose byte strings a real buffer could hold.
pub open spec fn did_property_v_bounded(p: DidPropertyV) -> bool {
    p.name.len() < pow256(8) && fact_v_bounded(p.fact)
}

/// The image of every in-memory property is bounded.
pub proof fn lemma_did_property_view_bounded(p: &DidProperty)
    ensures
        did_property_v_bounded(p@),
{
    assert(pow256(8) == 0x10000000000000000) by {
        reveal_with_fuel(pow256, 9);
    }
    assert(p.name@.len() == p.name.len());
    lemma_fact_view_bounded(&p.fact);
}

/// Round trip: a property read back is the property that was written.
pub proof fn lemma_did_property_round_trip(p: DidPropertyV, rest: Seq<u8>)
    requires
        did_property_v_bounded(p),
    ensures
        dec_did_property(enc_did_property(p) + rest) == Some((p, rest)),
{
    let tail2 = enc_fact(p.fact) + rest;
    let tail1 = enc_bytes(p.name) + tail2;
    assert(enc_did_property(p) + rest =~= crate::codec::le_bytes((p.created as u64) as nat, 8)
        + tail1);
    lemma_i64_round_trip(p.created, tail1);
    lemma_bytes_round_trip(p.name, tail2);
    lemma_fact_round_trip(p.fact, rest);
}

/// Read a property at `pos`.
pub fn decode_did_property(bytes: &Vec<u8>, pos: usize) -> (r: Option<(DidProperty, usize)>)
    requires
        pos <= bytes@.len(),
    ensures
        (r matches Some(p) ==> pos < p.1 <= bytes@.len() && dec_did_property(
            bytes@.skip(pos as int),
        ) == Some((p.0@, bytes@.skip(p.1 as int)))),
        r is None ==> dec_did_property(bytes@.skip(pos as int)) is None,
{
    match decode_i64(bytes, pos) {
        None => None,
        Some((created, p1)) => match decode_bytes(bytes, p1) {
            None => None,
            Some((name, p2)) => match decode_fact(bytes, p2) {
                None => None,
                Some((fact, end)) => Some((DidProperty { created, name, fact }, end)),
            },
        },
    }
}

} // verus!
