//! The identity module schema: decentralized-identifier, claim, and catalog
//! operations for the ledger generation that keys catalogs by index.

pub mod attestation;
pub mod claim;
pub mod did;
pub mod did_property;
pub mod fact;

use crate::call::Call;
use crate::codec::Encodable;
use crate::identity::claim::Statement;
use crate::identity::did::{decode_did, Did};
use crate::identity::did_property::DidProperty;
use crate::system::System;
use vstd::prelude::*;

verus! {

/// Module name
pub const MODULE: &'static str = "Identity";

/// A catalog's key in this schema generation.
pub type CatalogId = u32;

/// A claim's globally unique index.
pub type ClaimIndex = u64;

/// A point in time, as the ledger counts it.
pub type Moment = u64;

/// A short display name.
pub type ShortName = Vec<u8>;

/// The name of an identifier property.
pub type DidPropertyName = Vec<u8>;

/// A runtime type binding that supports the identity operations.
pub trait Identity: System {

}

const REGISTER_DID: &'static str = "register_did";

const REGISTER_DID_FOR: &'static str = "register_did_for";

const UPDATE_DID: &'static str = "update_did";

const REPLACE_DID: &'static str = "replace_did";

const UPDATE_DID_CONTROLLERS: &'static str = "update_did_controllers";

const AUTHORIZE_CLAIM_CONSUMERS: &'static str = "authorize_claim_consumers";

const REVOKE_CLAIM_CONSUMERS: &'static str = "revoke_claim_consumers";

const AUTHORIZE_CLAIM_ISSUERS: &'static str = "authorize_claim_issuers";

const REVOKE_CLAIM_ISSUERS: &'static str = "revoke_claim_issuers";

const MAKE_CLAIM: &'static str = "make_claim";

const ATTEST_CLAIM: &'static str = "attest_claim";

const REVOKE_ATTESTATION: &'static str = "revoke_attestation";

const CREATE_CATALOG: &'static str = "create_catalog";

const REMOVE_CATALOG: &'static str = "remove_catalog";

const ADD_DIDS_TO_CATALOG: &'static str = "add_dids_to_catalog";

const REMOVE_DIDS_FROM_CATALOG: &'static str = "remove_dids_from_catalog";

/// Event name
pub const EVENT_REGISTERED: &'static str = "Registered";

/// Event name
pub const EVENT_DID_UPDATED: &'static str = "DidUpdated";

/// Event name
pub const EVENT_DID_REPLACED: &'static str = "DidReplaced";

/// Event name
pub const EVENT_DID_CONTROLLERS_UPDATED: &'static str = "DidControllersUpdated";

/// Event name
pub const EVENT_CLAIM_CONSUMERS_ADDED: &'static str = "ClaimConsumersAdded";

/// Event name
pub const EVENT_CLAIM_CONSUMERS_REMOVED: &'static str = "ClaimConsumersRemoved";

/// Event name
pub const EVENT_CLAIM_ISSUERS_ADDED: &'static str = "ClaimIssuersAdded";

/// Event name
pub const EVENT_CLAIM_ISSUERS_REMOVED: &'static str = "ClaimIssuersRemoved";

/// Event name
pub const EVENT_CLAIM_MADE: &'static str = "ClaimMade";

/// Event name
pub const EVENT_CLAIM_ATTESTED: &'static str = "ClaimAttested";

/// Event name
pub const EVENT_CLAIM_ATTESTATION_REVOKED: &'static str = "ClaimAttestationRevoked";

/// Event name
pub const EVENT_CATALOG_CREATED: &'static str = "CatalogCreated";

/// Event name
pub const EVENT_CATALOG_REMOVED: &'static str = "CatalogRemoved";

/// Event name
pub const EVENT_CATALOG_DIDS_ADDED: &'static str = "CatalogDidsAdded";

/// Event name
pub const EVENT_CATALOG_DIDS_REMOVED: &'static str = "CatalogDidsRemoved";

/// Arguments for registering a new identifier for the caller.
pub struct RegisterDidArgs {
    pub properties: Option<Vec<DidProperty>>,
}

impl Encodable for RegisterDidArgs {
    open spec fn enc(&self) -> Seq<u8> {
        self.properties.enc()
    }

    fn encode_to(&self, out: &mut Vec<u8>) {
        self.properties.encode_to(out);
    }
}

/// Build the identifier-registration call.
pub fn register_did(properties: Option<Vec<DidProperty>>) -> (c: Call<RegisterDidArgs>)
    ensures
        c.module@ == "Identity"@,
        c.function@ == "register_did"@,
        c.args == (RegisterDidArgs { properties }),
{
    Call::new(MODULE, REGISTER_DID, RegisterDidArgs { properties })
}

/// Arguments for registering an identifier on a subject's behalf.
pub struct RegisterDidForArgs<T: Identity> {
    pub subject: <T as System>::AccountId,
    pub properties: Option<Vec<DidProperty>>,
}

impl<T: Identity> Encodable for RegisterDidForArgs<T> {
    open spec fn enc(&self) -> Seq<u8> {
        self.subject.enc() + self.properties.enc()
    }

    fn encode_to(&self, out: &mut Vec<u8>) {
        self.subject.encode_to(out);
        self.properties.encode_to(out);
        proof {
            assert(out@ =~= old(out)@ + self.enc());
        }
    }
}

/// Build the registration-for-a-subject call.
pub fn register_did_for<T: Identity>(
    subject: <T as System>::AccountId,
    properties: Option<Vec<DidProperty>>,
) -> (c: Call<RegisterDidForArgs<T>>)
    ensures
        c.module@ == "Identity"@,
        c.function@ == "register_did_for"@,
        c.args == (RegisterDidForArgs::<T> { subject, properties }),
{
    Call::new(MODULE, REGISTER_DID_FOR, RegisterDidForArgs { subject, properties })
}

/// Arguments for adding and removing an identifier's properties.
pub struct UpdateDidArgs {
    pub did: Did,
    pub add_properties: Option<Vec<DidProperty>>,
    pub remove_keys: Option<Vec<DidPropertyName>>,
}

impl Encodable for UpdateDidArgs {
    open spec fn enc(&self) -> Seq<u8> {
        self.did.enc() + self.add_properties.enc() + self.remove_keys.enc()
    }

    fn encode_to(&self, out: &mut Vec<u8>) {
        self.did.encode_to(out);
        self.add_properties.encode_to(out);
        self.remove_keys.encode_to(out);
        proof {
            assert(out@ =~= old(out)@ + self.enc());
        }
    }
}

/// Build the identifier-update call.
pub fn update_did(
    did: Did,
    add_properties: Option<Vec<DidProperty>>,
    remove_keys: Option<Vec<DidPropertyName>>,
) -> (c: Call<UpdateDidArgs>)
    ensures
        c.module@ == "Identity"@,
        c.function@ == "update_did"@,
        c.args == (UpdateDidArgs { did, add_properties, remove_keys }),
{
    Call::new(MODULE, UPDATE_DID, UpdateDidArgs { did, add_properties, remove_keys })
}

/// Arguments for replacing all of an identifier's properties.
pub struct ReplaceDidArgs {
    pub did: Did,
    pub properties: Option<Vec<DidProperty>>,
}

impl Encodable for ReplaceDidArgs {
    open spec fn enc(&self) -> Seq<u8> {
        self.did.enc() + self.properties.enc()
    }

    fn encode_to(&self, out: &mut Vec<u8>) {
        self.did.encode_to(out);
        self.properties.encode_to(out);
        proof {
            assert(out@ =~= old(out)@ + self.enc());
        }
    }
}

/// Build the identifier-replacement call.
pub fn replace_did(did: Did, properties: Option<Vec<DidProperty>>) -> (c: Call<ReplaceDidArgs>)
    ensures
        c.module@ == "Identity"@,
        c.function@ == "replace_did"@,
        c.args == (ReplaceDidArgs { did, properties }),
{
    Call::new(MODULE, REPLACE_DID, ReplaceDidArgs { did, properties })
}

/// Arguments for changing which accounts control an identifier.
pub struct UpdateDidControllersArgs<T: Identity> {
    pub did: Did,
    pub add: Option<Vec<<T as System>::AccountId>>,
    pub remove: Option<Vec<<T as System>::AccountId>>,
}

impl<T: Identity> Encodable for UpdateDidControllersArgs<T> {
    open spec fn enc(&self) -> Seq<u8> {
        self.did.enc() + self.add.enc() + self.remove.enc()
    }

    fn encode_to(&self, out: &mut Vec<u8>) {
        self.did.encode_to(out);
        self.add.encode_to(out);
        self.remove.encode_to(out);
        proof {
            assert(out@ =~= old(out)@ + self.enc());
        }
    }
}

/// Build the controller-update call.
pub fn update_did_controllers<T: Identity>(
    did: Did,
    add: Option<Vec<<T as System>::AccountId>>,
    remove: Option<Vec<<T as System>::AccountId>>,
) -> (c: Call<UpdateDidControllersArgs<T>>)
    ensures
        c.module@ == "Identity"@,
        c.function@ == "update_did_controllers"@,
        c.args == (UpdateDidControllersArgs::<T> { did, add, remove }),
{
    Call::new(MODULE, UPDATE_DID_CONTROLLERS, UpdateDidControllersArgs { did, add, remove })
}

/// Arguments for authorizing claim consumers, each until a moment.
pub struct AuthorizeClaimConsumersArgs {
    pub target_did: Did,
    pub claim_consumers: Vec<(Did, Moment)>,
}

impl Encodable for AuthorizeClaimConsumersArgs {
    open spec fn enc(&self) -> Seq<u8> {
        self.target_did.enc() + self.claim_consumers.enc()
    }

    fn encode_to(&self, out: &mut Vec<u8>) {
        self.target_did.encode_to(out);
        self.claim_consumers.encode_to(out);
        proof {
            assert(out@ =~= old(out)@ + self.enc());
        }
    }
}

/// Build the consumer-authorization call.
pub fn authorize_claim_consumers(target_did: Did, claim_consumers: Vec<(Did, Moment)>) -> (c:
    Call<AuthorizeClaimConsumersArgs>)
    ensures
        c.module@ == "Identity"@,
        c.function@ == "authorize_claim_consumers"@,
        c.args == (AuthorizeClaimConsumersArgs { target_did, claim_consumers }),
{
    Call::new(
        MODULE,
        AUTHORIZE_CLAIM_CONSUMERS,
        AuthorizeClaimConsumersArgs { target_did, claim_consumers },
    )
}

/// Arguments for revoking claim consumers.
pub struct RevokeClaimConsumersArgs {
    pub target_did: Did,
    pub claim_consumers: Vec<Did>,
}

impl Encodable for RevokeClaimConsumersArgs {
    open spec fn enc(&self) -> Seq<u8> {
        self.target_did.enc() + self.claim_consumers.enc()
    }

    fn encode_to(&self, out: &mut Vec<u8>) {
        self.target_did.encode_to(out);
        self.claim_consumers.encode_to(out);
        proof {
            assert(out@ =~= old(out)@ + self.enc());
        }
    }
}

/// Build the consumer-revocation call.
pub fn revoke_claim_consumers(target_did: Did, claim_consumers: Vec<Did>) -> (c: Call<
    RevokeClaimConsumersArgs,
>)
    ensures
        c.module@ == "Identity"@,
        c.function@ == "revoke_claim_consumers"@,
        c.args == (RevokeClaimConsumersArgs { target_did, claim_consumers }),
{
    Call::new(
        MODULE,
        REVOKE_CLAIM_CONSUMERS,
        RevokeClaimConsumersArgs { target_did, claim_consumers },
    )
}

/// Arguments for authorizing claim issuers, each until a moment.
pub struct AuthorizeClaimIssuersArgs {
    pub target_did: Did,
    pub claim_issuers: Vec<(Did, Moment)>,
}

impl Encodable for AuthorizeClaimIssuersArgs {
    open spec fn enc(&self) -> Seq<u8> {
        self.target_did.enc() + self.claim_issuers.enc()
    }

    fn encode_to(&self, out: &mut Vec<u8>) {
        self.target_did.encode_to(out);
        self.claim_issuers.encode_to(out);
        proof {
            assert(out@ =~= old(out)@ + self.enc());
        }
    }
}

/// Build the issuer-authorization call.
pub fn authorize_claim_issuers(target_did: Did, claim_issuers: Vec<(Did, Moment)>) -> (c: Call<
    AuthorizeClaimIssuersArgs,
>)
    ensures
        c.module@ == "Identity"@,
        c.function@ == "authorize_claim_issuers"@,
        c.args == (AuthorizeClaimIssuersArgs { target_did, claim_issuers }),
{
    Call::new(
        MODULE,
        AUTHORIZE_CLAIM_ISSUERS,
        AuthorizeClaimIssuersArgs { target_did, claim_issuers },
    )
}

/// Arguments for revoking claim issuers.
pub struct RevokeClaimIssuersArgs {
    pub target_did: Did,
    pub claim_issuers: Vec<Did>,
}

impl Encodable for RevokeClaimIssuersArgs {
    open spec fn enc(&self) -> Seq<u8> {
        self.target_did.enc() + self.claim_issuers.enc()
    }

    fn encode_to(&self, out: &mut Vec<u8>) {
        self.target_did.encode_to(out);
        self.claim_issuers.encode_to(out);
        proof {
            assert(out@ =~= old(out)@ + self.enc());
        }
    }
}

/// Build the issuer-revocation call.
pub fn revoke_claim_issuers(target_did: Did, claim_issuers: Vec<Did>) -> (c: Call<
    RevokeClaimIssuersArgs,
>)
    ensures
        c.module@ == "Identity"@,
        c.function@ == "revoke_claim_issuers"@,
        c.args == (RevokeClaimIssuersArgs { target_did, claim_issuers }),
{
    Call::new(MODULE, REVOKE_CLAIM_ISSUERS, RevokeClaimIssuersArgs { target_did, claim_issuers })
}

/// Arguments for a consumer making a claim about an identifier.
pub struct MakeClaimArgs {
    pub claim_consumer: Did,
    pub target_did: Did,
    pub description: Vec<u8>,
    pub statements: Vec<Statement>,
}

impl Encodable for MakeClaimArgs {
    open spec fn enc(&self) -> Seq<u8> {
        self.claim_consumer.enc() + self.target_did.enc() + self.description.enc()
            + self.statements.enc()
    }

    fn encode_to(&self, out: &mut Vec<u8>) {
        self.claim_consumer.encode_to(out);
        self.target_did.encode_to(out);
        self.description.encode_to(out);
        self.statements.encode_to(out);
        proof {
            assert(out@ =~= old(out)@ + self.enc());
        }
    }
}

/// Build the claim-making call.
pub fn make_claim(
    claim_consumer: Did,
    target_did: Did,
    description: Vec<u8>,
    statements: Vec<Statement>,
) -> (c: Call<MakeClaimArgs>)
    ensures
        c.module@ == "Identity"@,
        c.function@ == "make_claim"@,
        c.args == (MakeClaimArgs { claim_consumer, target_did, description, statements }),
{
    Call::new(
        MODULE,
        MAKE_CLAIM,
        MakeClaimArgs { claim_consumer, target_did, description, statements },
    )
}

/// Arguments for an issuer attesting a claim. The encoded order is the
/// declared order: the two identifiers, the claim's index, the statements,
/// then the expiry moment.
pub struct AttestClaimArgs {
    pub claim_issuer: Did,
    pub target_did: Did,
    pub claim_index: ClaimIndex,
    pub statements: Vec<Statement>,
    pub valid_until: Moment,
}

impl Encodable for AttestClaimArgs {
    open spec fn enc(&self) -> Seq<u8> {
        self.claim_issuer.enc() + self.target_did.enc() + self.claim_index.enc()
            + self.statements.enc() + self.valid_until.enc()
    }

    fn encode_to(&self, out: &mut Vec<u8>) {
        self.claim_issuer.encode_to(out);
        self.target_did.encode_to(out);
        self.claim_index.encode_to(out);
        self.statements.encode_to(out);
        self.valid_until.encode_to(out);
        proof {
            assert(out@ =~= old(out)@ + self.enc());
        }
    }
}

/// Build the claim-attestation call.
pub fn attest_claim(
    claim_issuer: Did,
    target_did: Did,
    claim_index: ClaimIndex,
    statements: Vec<Statement>,
    valid_until: Moment,
) -> (c: Call<AttestClaimArgs>)
    ensures
        c.module@ == "Identity"@,
        c.function@ == "attest_claim"@,
        c.args == (AttestClaimArgs {
            claim_issuer,
            target_did,
            claim_index,
            statements,
            valid_until,
        }),
{
    Call::new(
        MODULE,
        ATTEST_CLAIM,
        AttestClaimArgs { claim_issuer, target_did, claim_index, statements, valid_until },
    )
}

/// Arguments for revoking an attestation.
pub struct RevokeAttestationArgs {
    pub claim_issuer: Did,
    pub target_did: Did,
    pub claim_index: ClaimIndex,
}

impl Encodable for RevokeAttestationArgs {
    open spec fn enc(&self) -> Seq<u8> {
        self.claim_issuer.enc() + self.target_did.enc() + self.claim_index.enc()
    }

    fn encode_to(&self, out: &mut Vec<u8>) {
        self.claim_issuer.encode_to(out);
        self.target_did.encode_to(out);
        self.claim_index.encode_to(out);
        proof {
            assert(out@ =~= old(out)@ + self.enc());
        }
    }
}

/// Build the attestation-revocation call.
pub fn revoke_attestation(claim_issuer: Did, target_did: Did, claim_index: ClaimIndex) -> (c: Call<
    RevokeAttestationArgs,
>)
    ensures
        c.module@ == "Identity"@,
        c.function@ == "revoke_attestation"@,
        c.args == (RevokeAttestationArgs { claim_issuer, target_did, claim_index }),
{
    Call::new(
        MODULE,
        REVOKE_ATTESTATION,
        RevokeAttestationArgs { claim_issuer, target_did, claim_index },
    )
}

/// Arguments for creating a catalog: this schema version names the owning
/// identifier, so the payload is that identifier's 32 bytes.
pub struct CreateCatalogArgs {
    pub owner_did: Did,
}

impl Encodable for CreateCatalogArgs {
    open spec fn enc(&self) -> Seq<u8> {
        self.owner_did.enc()
    }

    fn encode_to(&self, out: &mut Vec<u8>) {
        self.owner_did.encode_to(out);
    }
}

/// Build the catalog-creation call.
pub fn create_catalog(owner_did: Did) -> (c: Call<CreateCatalogArgs>)
    ensures
        c.module@ == "Identity"@,
        c.function@ == "create_catalog"@,
        c.args == (CreateCatalogArgs { owner_did }),
        c.args.enc() == owner_did.id@,
{
    Call::new(MODULE, CREATE_CATALOG, CreateCatalogArgs { owner_did })
}

/// Read a whole catalog-creation payload back. The payload must be exactly
/// one identifier: input of any other length — in particular the other
/// schema generation's empty payload — is refused.
pub fn decode_create_catalog_args(bytes: &Vec<u8>) -> (r: Option<CreateCatalogArgs>)
    ensures
        (r matches Some(a) ==> bytes@.len() == 32 && a.owner_did.id@ == bytes@),
        r is Some <==> bytes@.len() == 32,
{
    if bytes.len() != 32 {
        return None;
    }
    match decode_did(bytes, 0) {
        Some((d, end)) => {
            proof {
                assert(bytes@.skip(0) =~= bytes@);
                assert(bytes@.take(32) =~= bytes@);
            }
            Some(CreateCatalogArgs { owner_did: d })
        },
        None => {
            proof {
                assert(bytes@.skip(0) =~= bytes@);
            }
            None
        },
    }
}

/// Arguments for removing a catalog.
pub struct RemoveCatalogArgs {
    pub owner_did: Did,
    pub catalog_id: CatalogId,
}

impl Encodable for RemoveCatalogArgs {
    open spec fn enc(&self) -> Seq<u8> {
        self.owner_did.enc() + self.catalog_id.enc()
    }

    fn encode_to(&self, out: &mut Vec<u8>) {
        self.owner_did.encode_to(out);
        self.catalog_id.encode_to(out);
        proof {
            assert(out@ =~= old(out)@ + self.enc());
        }
    }
}

/// Build the catalog-removal call.
pub fn remove_catalog(owner_did: Did, catalog_id: CatalogId) -> (c: Call<RemoveCatalogArgs>)
    ensures
        c.module@ == "Identity"@,
        c.function@ == "remove_catalog"@,
        c.args == (RemoveCatalogArgs { owner_did, catalog_id }),
{
    Call::new(MODULE, REMOVE_CATALOG, RemoveCatalogArgs { owner_did, catalog_id })
}

/// Arguments for listing identifiers in a catalog, each under a short name.
pub struct AddDidsToCatalogArgs {
    pub owner_did: Did,
    pub catalog_id: CatalogId,
    pub dids: Vec<(Did, ShortName)>,
}

impl Encodable for AddDidsToCatalogArgs {
    open spec fn enc(&self) -> Seq<u8> {
        self.owner_did.enc() + self.catalog_id.enc() + self.dids.enc()
    }

    fn encode_to(&self, out: &mut Vec<u8>) {
        self.owner_did.encode_to(out);
        self.catalog_id.encode_to(out);
        self.dids.encode_to(out);
        proof {
            assert(out@ =~= old(out)@ + self.enc());
        }
    }
}

/// Build the call that adds identifiers to a catalog.
pub fn add_dids_to_catalog(
    owner_did: Did,
    catalog_id: CatalogId,
    dids: Vec<(Did, ShortName)>,
) -> (c: Call<AddDidsToCatalogArgs>)
    ensures
        c.module@ == "Identity"@,
        c.function@ == "add_dids_to_catalog"@,
        c.args == (AddDidsToCatalogArgs { owner_did, catalog_id, dids }),
{
    Call::new(MODULE, ADD_DIDS_TO_CATALOG, AddDidsToCatalogArgs { owner_did, catalog_id, dids })
}

/// Arguments for delisting identifiers from a catalog.
pub struct RemoveDidsFromCatalogArgs {
    pub owner_did: Did,
    pub catalog_id: CatalogId,
    pub dids: Vec<Did>,
}

impl Encodable for RemoveDidsFromCatalogArgs {
    open spec fn enc(&self) -> Seq<u8> {
        self.owner_did.enc() + self.catalog_id.enc() + self.dids.enc()
    }

    fn encode_to(&self, out: &mut Vec<u8>) {
        self.owner_did.encode_to(out);
        self.catalog_id.encode_to(out);
        self.dids.encode_to(out);
        proof {
            assert(out@ =~= old(out)@ + self.enc());
        }
    }
}

/// Build the call that removes identifiers from a catalog.
pub fn remove_dids_from_catalog(
    owner_did: Did,
    catalog_id: CatalogId,
    dids: Vec<Did>,
) -> (c: Call<RemoveDidsFromCatalogArgs>)
    ensures
        c.module@ == "Identity"@,
        c.function@ == "remove_dids_from_catalog"@,
        c.args == (RemoveDidsFromCatalogArgs { owner_did, catalog_id, dids }),
{
    Call::new(
        MODULE,
        REMOVE_DIDS_FROM_CATALOG,
        RemoveDidsFromCatalogArgs { owner_did, catalog_id, dids },
    )
}

} // verus!
