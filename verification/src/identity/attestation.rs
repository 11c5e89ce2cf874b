//! A verifier's endorsement of a claim.

use crate::codec::Encodable;
use crate::identity::did::Did;
use vstd::prelude::*;

verus! {

/// Who attested a claim and until when the attestation is valid.
#[derive(Debug, Clone, PartialEq, Eq)]
pub struct Attestation<Timestamp> {
    pub attested_by: Did,
    pub valid_until: Timestamp,
}

impl<Timestamp: Encodable> Encodable for Attestation<Timestamp> {
    open spec fn enc(&self) -> Seq<u8> {
        self.attested_by.enc() + self.valid_until.enc()
    }

    fn encode_to(&self, out: &mut Vec<u8>) {
        self.attested_by.encode_to(out);
        self.valid_until.encode_to(out);
        proof {
            assert(out@ =~= old(out)@ + self.enc());
        }
    }
}

} // verus!
