//! Claims and their constituent statements: consumer-authored assertions
//! about an identifier, each statement a named fact.

use crate::codec::{
    dec_bool, dec_bytes, dec_compact, decode_bool, decode_bytes, enc_bool, enc_bytes, enc_compact,
    lemma_bool_round_trip, lemma_bytes_round_trip, lemma_enc_vec_bytes, pow256, Encodable,
};
use crate::identity::attestation::Attestation;
use crate::identity::did::Did;
use crate::identity::fact::{
    dec_fact, decode_fact, enc_fact, fact_v_bounded, lemma_fact_round_trip,
    lemma_fact_view_bounded, Fact, FactV,
};
use vstd::prelude::*;

verus! {

/// One assertion inside a claim: a named fact, and whether a verifier is to
/// complete it.
#[derive(Debug, Clone, PartialEq, Eq)]
pub struct Statement {
    /// Name of the property
    pub name: Vec<u8>,
    /// Fact in question
    pub fact: Fact,
    /// To be completed by verifier
    pub for_verifier: bool,
}

/// The mathematical image of a statement.
pub struct StatementV {
    pub name: Seq<u8>,
    pub fact: FactV,
    pub for_verifier: bool,
}

impl View for Statement {
    type V = StatementV;

    open spec fn view(&self) -> StatementV {
        StatementV { name: self.name@, fact: self.fact@, for_verifier: self.for_verifier }
    }
}

/// A statement encodes its fields in declaration order.
pub open spec fn enc_statement(sv: StatementV) -> Seq<u8> {
    enc_bytes(sv.name) + enc_fact(sv.fact) + enc_bool(sv.for_verifier)
}

impl Encodable for Statement {
    open spec fn enc(&self) -> Seq<u8> {
        enc_statement(self@)
    }

    fn encode_to(&self, out: &mut Vec<u8>) {
        self.name.encode_to(out);
        self.fact.encode_to(out);
        self.for_verifier.encode_to(out);
        proof {
            lemma_enc_vec_bytes(self.name);
            assert(out@ =~= old(out)@ + self.enc());
        }
    }
}

/// The default statement names nothing, carries the default fact, and is not
/// for a verifier.
impl Default for Statement {
    fn default() -> (r: Self)
        ensures
            r.name@ == Seq::<u8>::empty(),
            (r.fact matches Fact::String(s) && s@ == Seq::<u8>::empty()),
            r.for_verifier == false,
    {
        Statement { name: Vec::new(), fact: Fact::default(), for_verifier: false }
    }
}

/// Reading a statement back, field by field.
pub open spec fn dec_statement(s: Seq<u8>) -> Option<(StatementV, Seq<u8>)> {
    match dec_bytes(s) {
        Option::None => None,
        Option::Some((name, r1)) => match dec_fact(r1) {
            Option::None => None,
            Option::Some((fact, r2)) => match dec_bool(r2) {
                Option::None => None,
                Option::Some((for_verifier, r3)) => Some(
                    (StatementV { name, fact, for_verifier }, r3),
                ),
            },
        },
    }
}

/// A statement image whose byte strings a real buffer could hold.
pub open spec fn statement_v_bounded(sv: StatementV) -> bool {
    sv.name.len() < pow256(8) && fact_v_bounded(sv.fact)
}

/// The image of every in-memory statement is bounded.
pub proof fn lemma_statement_view_bounded(s: &Statement)
    ensures
        statement_v_bounded(s@),
{
    assert(pow256(8) == 0x10000000000000000) by {
        reveal_with_fuel(pow256, 9);
    }
    assert(s.name@.len() == s.name.len());
    lemma_fact_view_bounded(&s.fact);
}

/// Round trip: a statement read back is the statement that was written.
pub proof fn lemma_statement_round_trip(sv: StatementV, rest: Seq<u8>)
    requires
        statement_v_bounded(sv),
    ensures
        dec_statement(enc_statement(sv) + rest) == Some((sv, rest)),
{
    let tail2 = enc_bool(sv.for_verifier) + rest;
    let tail1 = enc_fact(sv.fact) + tail2;
    assert(enc_statement(sv) + rest =~= enc_bytes(sv.name) + tail1);
    lemma_bytes_round_trip(sv.name, tail1);
    lemma_fact_round_trip(sv.fact, tail2);
    lemma_bool_round_trip(sv.for_verifier, rest);
}

/// Read a statement at `pos`.
pub fn decode_statement(bytes: &Vec<u8>, pos: usize) -> (r: Option<(Statement, usize)>)
    requires
        pos <= bytes@.len(),
    ensures
        (r matches Some(p) ==> pos <= p.1 <= bytes@.len() && dec_statement(
            bytes@.skip(pos as int),
        ) == Some((p.0@, bytes@.skip(p.1 as int)))),
        r is None ==> dec_statement(bytes@.skip(pos as int)) is None,
{
    match decode_bytes(bytes, pos) {
        None => None,
        Some((name, p1)) => match decode_fact(bytes, p1) {
            None => None,
            Some((fact, p2)) => match decode_bool(bytes, p2) {
                None => None,
                Some((for_verifier, end)) => Some(
                    (Statement { name, fact, for_verifier }, end),
                ),
            },
        },
    }
}

/// The encodings of a run of statements, one after the other, at the image
/// level.
pub open spec fn enc_statements(ss: Seq<StatementV>) -> Seq<u8>
    decreases ss.len(),
{
    if ss.len() == 0 {
        Seq::<u8>::empty()
    } else {
        enc_statement(ss[0]) + enc_statements(ss.drop_first())
    }
}

/// A statement sequence encodes as its compact length, then each statement.
pub open spec fn enc_statement_seq(ss: Seq<StatementV>) -> Seq<u8> {
    enc_compact(ss.len()) + enc_statements(ss)
}

/// The image of a statement vector.
pub open spec fn statements_view(v: Seq<Statement>) -> Seq<StatementV> {
    v.map_values(|s: Statement| s@)
}

proof fn lemma_enc_items_statements(s: Seq<Statement>)
    ensures
        crate::codec::enc_items(s) == enc_statements(statements_view(s)),
    decreases s.len(),
{
    if s.len() == 0 {
        assert(crate::codec::enc_items(s) =~= enc_statements(statements_view(s)));
    } else {
        lemma_enc_items_statements(s.drop_first());
        assert(statements_view(s).drop_first() =~= statements_view(s.drop_first()));
        assert(crate::codec::enc_items(s) =~= enc_statements(statements_view(s)));
    }
}

/// What the encoder emits for a statement vector is its image's encoding.
pub proof fn lemma_enc_vec_statements(v: &Vec<Statement>)
    ensures
        v.enc() == enc_statement_seq(statements_view(v@)),
{
    lemma_enc_items_statements(v@);
    assert(v.enc() =~= enc_statement_seq(statements_view(v@)));
}

/// Reading a known count of statements back, one after the other.
pub open spec fn dec_statements(s: Seq<u8>, k: nat) -> Option<(Seq<StatementV>, Seq<u8>)>
    decreases k,
{
    if k == 0 {
        Some((Seq::<StatementV>::empty(), s))
    } else {
        match dec_statement(s) {
            Option::None => None,
            Option::Some((x, r)) => match dec_statements(r, (k - 1) as nat) {
                Option::None => None,
                Option::Some((xs, r2)) => Some((seq![x] + xs, r2)),
            },
        }
    }
}

/// Reading a statement sequence back: the compact count, then that many
/// statements.
pub open spec fn dec_statement_seq(s: Seq<u8>) -> Option<(Seq<StatementV>, Seq<u8>)> {
    match dec_compact(s) {
        Option::None => None,
        Option::Some((k, r)) => dec_statements(r, k),
    }
}

/// Statement images whose byte strings a real buffer could hold.
pub open spec fn statements_bounded(ss: Seq<StatementV>) -> bool {
    forall|i: int| 0 <= i < ss.len() ==> statement_v_bounded(#[trigger] ss[i])
}

proof fn lemma_statements_round_trip(ss: Seq<StatementV>, rest: Seq<u8>)
    requires
        statements_bounded(ss),
    ensures
        dec_statements(enc_statements(ss) + rest, ss.len()) == Some((ss, rest)),
    decreases ss.len(),
{
    if ss.len() == 0 {
        assert(enc_statements(ss) + rest =~= rest);
    } else {
        let tail = ss.drop_first();
        let mid = enc_statements(tail) + rest;
        assert(enc_statements(ss) + rest == enc_statement(ss[0]) + mid) by {
            vstd::seq_lib::lemma_concat_associative(
                enc_statement(ss[0]),
                enc_statements(tail),
                rest,
            );
        }
        assert(dec_statement(enc_statement(ss[0]) + mid) == Some((ss[0], mid))) by {
            lemma_statement_round_trip(ss[0], mid);
        }
        assert(dec_statements(mid, tail.len()) == Some((tail, rest))) by {
            assert(statements_bounded(tail)) by {
                assert(forall|i: int| 0 <= i < tail.len() ==> tail[i] == ss[i + 1]);
            }
            lemma_statements_round_trip(tail, rest);
        }
        assert(seq![ss[0]] + tail =~= ss);
        assert(dec_statements(enc_statements(ss) + rest, ss.len()) == Some((ss, rest)));
    }
}

/// Round trip: a statement sequence read back is the sequence that was
/// written.
pub proof fn lemma_statement_seq_round_trip(ss: Seq<StatementV>, rest: Seq<u8>)
    requires
        statements_bounded(ss),
        ss.len() < pow256(8),
    ensures
        dec_statement_seq(enc_statement_seq(ss) + rest) == Some((ss, rest)),
{
    crate::codec::lemma_compact_round_trip(ss.len(), enc_statements(ss) + rest);
    assert(enc_statement_seq(ss) + rest =~= enc_compact(ss.len()) + (enc_statements(ss) + rest));
    lemma_statements_round_trip(ss, rest);
}

/// The image of every in-memory statement vector is bounded.
pub proof fn lemma_statements_view_bounded(v: &Vec<Statement>)
    ensures
        statements_view(v@).len() < pow256(8),
        statements_bounded(statements_view(v@)),
{
    assert(pow256(8) == 0x10000000000000000) by {
        reveal_with_fuel(pow256, 9);
    }
    assert(v@.len() == v.len());
    assert forall|i: int| 0 <= i < statements_view(v@).len() implies statement_v_bounded(
        statements_view(v@)[i],
    ) by {
        lemma_statement_view_bounded(&v@[i]);
    }
}

/// Read a statement sequence at `pos`.
pub fn decode_statement_seq(bytes: &Vec<u8>, pos: usize) -> (r: Option<(Vec<Statement>, usize)>)
    requires
        pos <= bytes@.len(),
    ensures
        (r matches Some(p) ==> pos < p.1 <= bytes@.len() && dec_statement_seq(
            bytes@.skip(pos as int),
        ) == Some((statements_view(p.0@), bytes@.skip(p.1 as int)))),
        r is None ==> dec_statement_seq(bytes@.skip(pos as int)) is None,
{
    match crate::codec::decode_compact(bytes, pos) {
        None => None,
        Some((k, mid)) => {
            let mut out: Vec<Statement> = Vec::new();
            let mut i: u64 = 0;
            let mut cur = mid;
            proof {
                assert(statements_view(out@) =~= Seq::<StatementV>::empty());
            }
            while i < k
                invariant
                    i <= k,
                    pos < mid <= cur <= bytes@.len(),
                    statements_view(out@).len() == i,
                    dec_statement_seq(bytes@.skip(pos as int)) == (match dec_statements(
                        bytes@.skip(cur as int),
                        (k - i) as nat,
                    ) {
                        Option::Some((xs, r)) => Some((statements_view(out@) + xs, r)),
                        Option::None => None::<(Seq<StatementV>, Seq<u8>)>,
                    }),
                decreases k - i,
            {
                match decode_statement(bytes, cur) {
                    None => {
                        return None;
                    },
                    Some((st, next)) => {
                        let ghost prev = out@;
                        out.push(st);
                        proof {
                            assert(statements_view(out@) =~= statements_view(prev).push(st@));
                            match dec_statements(bytes@.skip(next as int), (k - i - 1) as nat) {
                                Option::Some((xs, r)) => {
                                    assert(dec_statements(
                                        bytes@.skip(cur as int),
                                        (k - i) as nat,
                                    ) == Some((seq![st@] + xs, r)));
                                    assert(statements_view(prev) + (seq![st@] + xs)
                                        =~= statements_view(out@) + xs);
                                },
                                Option::None => {
                                    assert(dec_statements(
                                        bytes@.skip(cur as int),
                                        (k - i) as nat,
                                    ) is None);
                                },
                            }
                        }
                        cur = next;
                        i = i + 1;
                    },
                }
            }
            proof {
                assert(dec_statements(bytes@.skip(cur as int), 0) == Some(
                    (Seq::<StatementV>::empty(), bytes@.skip(cur as int)),
                ));
                assert(statements_view(out@) + Seq::<StatementV>::empty() =~= statements_view(
                    out@,
                ));
            }
            Some((out, cur))
        },
    }
}

/// A consumer-authored claim: its statements, who created it, and the
/// verifier's attestation once one exists.
#[derive(Debug, Clone, PartialEq, Eq)]
pub struct Claim<ClaimIndex, Timestamp> {
    /// Globally unique id
    pub id: ClaimIndex,
    /// A claim description
    pub description: Vec<u8>,
    /// Statements contained in this claim
    pub statements: Vec<Statement>,
    /// Claim consumer creates a claim
    pub created_by: Did,
    /// Attestation by claim verifier
    pub attestation: Option<Attestation<Timestamp>>,
}

impl<ClaimIndex: Encodable, Timestamp: Encodable> Encodable for Claim<ClaimIndex, Timestamp> {
    open spec fn enc(&self) -> Seq<u8> {
        self.id.enc() + enc_bytes(self.description@) + self.statements.enc()
            + self.created_by.enc() + self.attestation.enc()
    }

    fn encode_to(&self, out: &mut Vec<u8>) {
        self.id.encode_to(out);
        self.description.encode_to(out);
        self.statements.encode_to(out);
        self.created_by.encode_to(out);
        self.attestation.encode_to(out);
        proof {
            lemma_enc_vec_bytes(self.description);
            assert(out@ =~= old(out)@ + self.enc());
        }
    }
}

/// The mathematical image of an attestation, for the ledger's own moment
/// type.
pub struct AttestationV {
    pub attested_by: Seq<u8>,
    pub valid_until: u64,
}

impl View for Attestation<u64> {
    type V = AttestationV;

    open spec fn view(&self) -> AttestationV {
        AttestationV { attested_by: self.attested_by.id@, valid_until: self.valid_until }
    }
}

/// The mathematical image of a claim, for the ledger's own index and moment
/// types.
pub struct ClaimV {
    pub id: u64,
    pub description: Seq<u8>,
    pub statements: Seq<StatementV>,
    pub created_by: Seq<u8>,
    pub attestation: Option<AttestationV>,
}

impl View for Claim<u64, u64> {
    type V = ClaimV;

    open spec fn view(&self) -> ClaimV {
        ClaimV {
            id: self.id,
            description: self.description@,
            statements: statements_view(self.statements@),
            created_by: self.created_by.id@,
            attestation: match self.attestation {
                Option::Some(a) => Some(a@),
                Option::None => None,
            },
        }
    }
}

/// An attestation encodes its fields in declaration order.
pub open spec fn enc_attestation(a: AttestationV) -> Seq<u8> {
    a.attested_by + crate::codec::le_bytes(a.valid_until as nat, 8)
}

/// An optional attestation: a presence byte, then the attestation.
pub open spec fn enc_opt_attestation(o: Option<AttestationV>) -> Seq<u8> {
    match o {
        Option::None => seq![0u8],
        Option::Some(a) => seq![1u8] + enc_attestation(a),
    }
}

/// A claim encodes its fields in declaration order.
pub open spec fn enc_claim(c: ClaimV) -> Seq<u8> {
    crate::codec::le_bytes(c.id as nat, 8) + enc_bytes(c.description) + enc_statement_seq(
        c.statements,
    ) + c.created_by + enc_opt_attestation(c.attestation)
}

/// What the encoder emits for a claim is its image's encoding.
pub proof fn lemma_claim_enc(c: &Claim<u64, u64>)
    ensures
        c.enc() == enc_claim(c@),
{
    lemma_enc_vec_statements(&c.statements);
    assert(c.attestation.enc() =~= enc_opt_attestation(c@.attestation));
    assert(c.enc() =~= enc_claim(c@));
}

/// Reading an optional attestation back.
pub open spec fn dec_opt_attestation(s: Seq<u8>) -> Option<(Option<AttestationV>, Seq<u8>)> {
    if s.len() == 0 {
        None
    } else if s[0] == 0 {
        Some((Option::<AttestationV>::None, s.skip(1)))
    } else if s[0] == 1 {
        match crate::identity::did::dec_did(s.skip(1)) {
            Option::None => None,
            Option::Some((attested_by, r1)) => match crate::codec::dec_u64(r1) {
                Option::None => None,
                Option::Some((valid_until, r2)) => Some(
                    (Some(AttestationV { attested_by, valid_until }), r2),
                ),
            },
        }
    } else {
        None
    }
}

/// Reading a claim back, field by field.
pub open spec fn dec_claim(s: Seq<u8>) -> Option<(ClaimV, Seq<u8>)> {
    match crate::codec::dec_u64(s) {
        Option::None => None,
        Option::Some((id, r0)) => match dec_bytes(r0) {
            Option::None => None,
            Option::Some((description, r1)) => match dec_statement_seq(r1) {
                Option::None => None,
                Option::Some((statements, r2)) => match crate::identity::did::dec_did(r2) {
                    Option::None => None,
                    Option::Some((created_by, r3)) => match dec_opt_attestation(r3) {
                        Option::None => None,
                        Option::Some((attestation, r4)) => Some(
                            (ClaimV { id, description, statements, created_by, attestation }, r4),
                        ),
                    },
                },
            },
        },
    }
}

/// A claim image a real value could have: identifier fields of 32 bytes, and
/// byte strings a real buffer could hold.
pub open spec fn claim_v_bounded(c: ClaimV) -> bool {
    &&& c.description.len() < pow256(8)
    &&& c.statements.len() < pow256(8)
    &&& statements_bounded(c.statements)
    &&& c.created_by.len() == 32
    &&& (c.attestation matches Some(a) ==> a.attested_by.len() == 32)
}

/// The image of every in-memory claim is bounded.
pub proof fn lemma_claim_view_bounded(c: &Claim<u64, u64>)
    ensures
        claim_v_bounded(c@),
{
    assert(pow256(8) == 0x10000000000000000) by {
        reveal_with_fuel(pow256, 9);
    }
    assert(c.description@.len() == c.description.len());
    lemma_statements_view_bounded(&c.statements);
}

proof fn lemma_opt_attestation_round_trip(o: Option<AttestationV>, rest: Seq<u8>)
    requires
        (o matches Some(a) ==> a.attested_by.len() == 32),
    ensures
        dec_opt_attestation(enc_opt_attestation(o) + rest) == Some((o, rest)),
{
    match o {
        Option::None => {
            assert((enc_opt_attestation(o) + rest).skip(1) =~= rest);
        },
        Option::Some(a) => {
            let s = enc_opt_attestation(o) + rest;
            let t1 = crate::codec::le_bytes(a.valid_until as nat, 8) + rest;
            assert(s.skip(1) =~= a.attested_by + t1);
            assert((a.attested_by + t1).take(32) =~= a.attested_by);
            assert((a.attested_by + t1).skip(32) =~= t1);
            crate::codec::lemma_u64_round_trip(a.valid_until, rest);
        },
    }
}

/// Round trip: a claim read back is the claim that was written.
pub proof fn lemma_claim_round_trip(c: ClaimV, rest: Seq<u8>)
    requires
        claim_v_bounded(c),
    ensures
        dec_claim(enc_claim(c) + rest) == Some((c, rest)),
{
    let t4 = rest;
    let t3 = enc_opt_attestation(c.attestation) + t4;
    let t2 = c.created_by + t3;
    let t1 = enc_statement_seq(c.statements) + t2;
    let t0 = enc_bytes(c.description) + t1;
    assert(enc_claim(c) + rest =~= crate::codec::le_bytes(c.id as nat, 8) + t0);
    crate::codec::lemma_u64_round_trip(c.id, t0);
    lemma_bytes_round_trip(c.description, t1);
    lemma_statement_seq_round_trip(c.statements, t2);
    assert(t2.take(32) =~= c.created_by);
    assert(t2.skip(32) =~= t3);
    lemma_opt_attestation_round_trip(c.attestation, t4);
}

/// Read an optional attestation at `pos`.
fn decode_opt_attestation(bytes: &Vec<u8>, pos: usize) -> (r: Option<
    (Option<Attestation<u64>>, usize),
>)
    requires
        pos <= bytes@.len(),
    ensures
        (r matches Some(p) ==> pos < p.1 <= bytes@.len() && dec_opt_attestation(
            bytes@.skip(pos as int),
        ) == Some(
            (
                match p.0 {
                    Option::Some(a) => Some(a@),
                    Option::None => None,
                },
                bytes@.skip(p.1 as int),
            ),
        )),
        r is None ==> dec_opt_attestation(bytes@.skip(pos as int)) is None,
{
    if pos == bytes.len() {
        return None;
    }
    let tag = bytes[pos];
    proof {
        assert(bytes@.skip(pos as int)[0] == tag);
        assert(bytes@.skip(pos as int).skip(1) =~= bytes@.skip(pos + 1));
    }
    if tag == 0 {
        Some((None, pos + 1))
    } else if tag == 1 {
        match crate::identity::did::decode_did(bytes, pos + 1) {
            None => None,
            Some((attested_by, p1)) => match crate::codec::decode_u64(bytes, p1) {
                None => None,
                Some((valid_until, end)) => Some(
                    (Some(Attestation { attested_by, valid_until }), end),
                ),
            },
        }
    } else {
        None
    }
}

/// Read a claim at `pos`.
pub fn decode_claim(bytes: &Vec<u8>, pos: usize) -> (r: Option<(Claim<u64, u64>, usize)>)
    requires
        pos <= bytes@.len(),
    ensures
        (r matches Some(p) ==> pos < p.1 <= bytes@.len() && dec_claim(bytes@.skip(pos as int))
            == Some((p.0@, bytes@.skip(p.1 as int)))),
        r is None ==> dec_claim(bytes@.skip(pos as int)) is None,
{
    match crate::codec::decode_u64(bytes, pos) {
        None => None,
        Some((id, p0)) => match decode_bytes(bytes, p0) {
            None => None,
            Some((description, p1)) => match decode_statement_seq(bytes, p1) {
                None => None,
                Some((statements, p2)) => match crate::identity::did::decode_did(bytes, p2) {
                    None => None,
                    Some((created_by, p3)) => match decode_opt_attestation(bytes, p3) {
                        None => None,
                        Some((attestation, end)) => Some(
                            (
                                Claim { id, description, statements, created_by, attestation },
                                end,
                            ),
                        ),
                    },
                },
            },
        },
    }
}

} // verus!
