//! The asset-registry module schema: catalog and asset operations for the
//! ledger generation that keys catalogs and assets by content hash.

use crate::call::Call;
use crate::codec::{
    dec_bool, dec_bytes, dec_u128, dec_u16, dec_u32, dec_u8, decode_bool, decode_bytes,
    decode_u128, decode_u16, decode_u32, decode_u8, enc_bool, enc_bytes, le_bytes,
    lemma_bool_round_trip, lemma_bytes_round_trip, lemma_enc_vec_bytes, lemma_u128_round_trip,
    lemma_u16_round_trip, lemma_u32_round_trip, lemma_u8_round_trip, pow256, Encodable,
};
use crate::system::System;
use vstd::prelude::*;

verus! {

/// Module name
pub const MODULE: &'static str = "AssetRegistry";

const CREATE_REGISTRY: &'static str = "create_catalog";

const ADD_KYC_PROVIDER: &'static str = "add_kycprovider";

const CREATE_ASSET: &'static str = "create_asset";

const CREATE_ASSET_PROPERTY: &'static str = "create_asset_property";

const VERIFY_ASSET_PROPERTY: &'static str = "verify_asset_property";

const REMOVE_VERIFICATION: &'static str = "remove_verification";

/// Event name
pub const EVENT_CREATED: &'static str = "Created";

/// Event name
pub const EVENT_VERIFIED: &'static str = "Verified";

/// Event name
pub const EVENT_ADDED: &'static str = "Added";

/// Event name
pub const EVENT_REMOVED: &'static str = "Removed";

/// Event name
pub const EVENT_TRANSFERED: &'static str = "Transfered";

/// A runtime type binding that supports the asset-registry operations.
pub trait AssetRegistry: System {

}

/// The primitive type a property value carries.
#[derive(Debug, Clone, PartialEq, Eq)]
pub enum DataType {
    Bool,
    String,
    U8,
    U16,
    U32,
    U128,
}

/// The discriminant byte a data type encodes to, following declared order.
pub open spec fn data_type_tag(dt: DataType) -> u8 {
    match dt {
        DataType::Bool => 0,
        DataType::String => 1,
        DataType::U8 => 2,
        DataType::U16 => 3,
        DataType::U32 => 4,
        DataType::U128 => 5,
    }
}

impl Encodable for DataType {
    open spec fn enc(&self) -> Seq<u8> {
        seq![data_type_tag(*self)]
    }

    fn encode_to(&self, out: &mut Vec<u8>) {
        let tag: u8 = match self {
            DataType::Bool => 0,
            DataType::String => 1,
            DataType::U8 => 2,
            DataType::U16 => 3,
            DataType::U32 => 4,
            DataType::U128 => 5,
        };
        out.push(tag);
        proof {
            assert(out@ =~= old(out)@ + self.enc());
        }
    }
}

impl Default for DataType {
    fn default() -> (r: Self)
        ensures
            r == DataType::String,
    {
        DataType::String
    }
}

/// A typed property value: a discriminant tag plus one optional field per
/// possible primitive type. Exactly the field named by `data_type` must be
/// populated; `wf` states that invariant, the constructors establish it, and
/// the wire layout is the tag followed by every optional field in declared
/// order.
#[derive(Debug, Clone, PartialEq, Eq)]
pub struct DataValue {
    pub data_type: DataType,
    pub bool_value: Option<bool>,
    pub string_value: Option<Vec<u8>>,
    pub u8_value: Option<u8>,
    pub u16_value: Option<u16>,
    pub u32_value: Option<u32>,
    pub u128_value: Option<u128>,
}

impl DataValue {
    /// The populated optional field is the one `data_type` names; all others
    /// are empty.
    pub open spec fn wf(self) -> bool {
        &&& self.bool_value is Some <==> self.data_type == DataType::Bool
        &&& self.string_value is Some <==> self.data_type == DataType::String
        &&& self.u8_value is Some <==> self.data_type == DataType::U8
        &&& self.u16_value is Some <==> self.data_type == DataType::U16
        &&& self.u32_value is Some <==> self.data_type == DataType::U32
        &&& self.u128_value is Some <==> self.data_type == DataType::U128
    }

    /// How many of the optional fields are populated.
    pub open spec fn populated_count(self) -> int {
        (if self.bool_value is Some {
            1int
        } else {
            0int
        }) + (if self.string_value is Some {
            1int
        } else {
            0int
        }) + (if self.u8_value is Some {
            1int
        } else {
            0int
        }) + (if self.u16_value is Some {
            1int
        } else {
            0int
        }) + (if self.u32_value is Some {
            1int
        } else {
            0int
        }) + (if self.u128_value is Some {
            1int
        } else {
            0int
        })
    }

    pub fn from_bool(b: bool) -> (r: DataValue)
        ensures
            r.wf(),
            r.data_type == DataType::Bool,
            r.bool_value == Some(b),
    {
        DataValue {
            data_type: DataType::Bool,
            bool_value: Some(b),
            string_value: None,
            u8_value: None,
            u16_value: None,
            u32_value: None,
            u128_value: None,
        }
    }

    pub fn from_string(s: Vec<u8>) -> (r: DataValue)
        ensures
            r.wf(),
            r.data_type == DataType::String,
            r.string_value == Some(s),
    {
        DataValue {
            data_type: DataType::String,
            bool_value: None,
            string_value: Some(s),
            u8_value: None,
            u16_value: None,
            u32_value: None,
            u128_value: None,
        }
    }

    pub fn from_u8(x: u8) -> (r: DataValue)
        ensures
            r.wf(),
            r.data_type == DataType::U8,
            r.u8_value == Some(x),
    {
        DataValue {
            data_type: DataType::U8,
            bool_value: None,
            string_value: None,
            u8_value: Some(x),
            u16_value: None,
            u32_value: None,
            u128_value: None,
        }
    }

    pub fn from_u16(x: u16) -> (r: DataValue)
        ensures
            r.wf(),
            r.data_type == DataType::U16,
            r.u16_value == Some(x),
    {
        DataValue {
            data_type: DataType::U16,
            bool_value: None,
            string_value: None,
            u8_value: None,
            u16_value: Some(x),
            u32_value: None,
            u128_value: None,
        }
    }

    pub fn from_u32(x: u32) -> (r: DataValue)
        ensures
            r.wf(),
            r.data_type == DataType::U32,
            r.u32_value == Some(x),
    {
        DataValue {
            data_type: DataType::U32,
            bool_value: None,
            string_value: None,
            u8_value: None,
            u16_value: None,
            u32_value: Some(x),
            u128_value: None,
        }
    }

    pub fn from_u128(x: u128) -> (r: DataValue)
        ensures
            r.wf(),
            r.data_type == DataType::U128,
            r.u128_value == Some(x),
    {
        DataValue {
            data_type: DataType::U128,
            bool_value: None,
            string_value: None,
            u8_value: None,
            u16_value: None,
            u32_value: None,
            u128_value: Some(x),
        }
    }
}

/// Every well-formed property value populates exactly one optional field,
/// and that field is the one its `data_type` names.
pub proof fn lemma_data_value_exactly_one(v: DataValue)
    requires
        v.wf(),
    ensures
        v.populated_count() == 1,
        v.data_type == DataType::Bool ==> v.bool_value is Some,
        v.data_type == DataType::String ==> v.string_value is Some,
        v.data_type == DataType::U8 ==> v.u8_value is Some,
        v.data_type == DataType::U16 ==> v.u16_value is Some,
        v.data_type == DataType::U32 ==> v.u32_value is Some,
        v.data_type == DataType::U128 ==> v.u128_value is Some,
{
}

/// The default property value is an empty string, well-formed.
impl Default for DataValue {
    fn default() -> (r: Self)
        ensures
            r.wf(),
            r.data_type == DataType::String,
            (r.string_value matches Some(s) && s@ == Seq::<u8>::empty()),
    {
        DataValue {
            data_type: DataType::String,
            bool_value: None,
            string_value: Some(Vec::new()),
            u8_value: None,
            u16_value: None,
            u32_value: None,
            u128_value: None,
        }
    }
}

impl Encodable for DataValue {
    open spec fn enc(&self) -> Seq<u8> {
        self.data_type.enc() + self.bool_value.enc() + self.string_value.enc()
            + self.u8_value.enc() + self.u16_value.enc() + self.u32_value.enc()
            + self.u128_value.enc()
    }

    fn encode_to(&self, out: &mut Vec<u8>) {
        self.data_type.encode_to(out);
        self.bool_value.encode_to(out);
        self.string_value.encode_to(out);
        self.u8_value.encode_to(out);
        self.u16_value.encode_to(out);
        self.u32_value.encode_to(out);
        self.u128_value.encode_to(out);
        proof {
            assert(out@ =~= old(out)@ + self.enc());
        }
    }
}

/// The mathematical image of a property value.
pub struct DataValueV {
    pub data_type: DataType,
    pub bool_value: Option<bool>,
    pub string_value: Option<Seq<u8>>,
    pub u8_value: Option<u8>,
    pub u16_value: Option<u16>,
    pub u32_value: Option<u32>,
    pub u128_value: Option<u128>,
}

impl View for DataValue {
    type V = DataValueV;

    open spec fn view(&self) -> DataValueV {
        DataValueV {
            data_type: self.data_type,
            bool_value: self.bool_value,
            string_value: match self.string_value {
                Option::Some(v) => Some(v@),
                Option::None => None,
            },
            u8_value: self.u8_value,
            u16_value: self.u16_value,
            u32_value: self.u32_value,
            u128_value: self.u128_value,
        }
    }
}

/// An optional bool field: a presence byte, then the value when present.
pub open spec fn enc_opt_bool(o: Option<bool>) -> Seq<u8> {
    match o {
        Option::None => seq![0u8],
        Option::Some(b) => seq![1u8] + enc_bool(b),
    }
}

/// Reading an optional bool field back.
pub open spec fn dec_opt_bool(s: Seq<u8>) -> Option<(Option<bool>, Seq<u8>)> {
    if s.len() == 0 {
        None
    } else if s[0] == 0 {
        Some((Option::<bool>::None, s.skip(1)))
    } else if s[0] == 1 {
        match dec_bool(s.skip(1)) {
            Option::Some((x, r)) => Some((Option::<bool>::Some(x), r)),
            Option::None => None,
        }
    } else {
        None
    }
}

pub proof fn lemma_opt_bool_round_trip(o: Option<bool>, rest: Seq<u8>)
    ensures
        dec_opt_bool(enc_opt_bool(o) + rest) == Some((o, rest)),
{
    match o {
        Option::None => {
            assert((enc_opt_bool(o) + rest).skip(1) =~= rest);
        },
        Option::Some(b) => {
            assert((enc_opt_bool(o) + rest).skip(1) =~= enc_bool(b) + rest);
            lemma_bool_round_trip(b, rest);
        },
    }
}

/// An optional bytes field: a presence byte, then the value when present.
pub open spec fn enc_opt_bytes(o: Option<Seq<u8>>) -> Seq<u8> {
    match o {
        Option::None => seq![0u8],
        Option::Some(b) => seq![1u8] + enc_bytes(b),
    }
}

/// Reading an optional bytes field back.
pub open spec fn dec_opt_bytes(s: Seq<u8>) -> Option<(Option<Seq<u8>>, Seq<u8>)> {
    if s.len() == 0 {
        None
    } else if s[0] == 0 {
        Some((Option::<Seq<u8>>::None, s.skip(1)))
    } else if s[0] == 1 {
        match dec_bytes(s.skip(1)) {
            Option::Some((x, r)) => Some((Option::<Seq<u8>>::Some(x), r)),
            Option::None => None,
        }
    } else {
        None
    }
}

pub proof fn lemma_opt_bytes_round_trip(o: Option<Seq<u8>>, rest: Seq<u8>)
    requires
        (o matches Some(b) ==> b.len() < pow256(8)),
    ensures
        dec_opt_bytes(enc_opt_bytes(o) + rest) == Some((o, rest)),
{
    match o {
        Option::None => {
            assert((enc_opt_bytes(o) + rest).skip(1) =~= rest);
        },
        Option::Some(b) => {
            assert((enc_opt_bytes(o) + rest).skip(1) =~= enc_bytes(b) + rest);
            lemma_bytes_round_trip(b, rest);
        },
    }
}

/// An optional u8 field: a presence byte, then the value when present.
pub open spec fn enc_opt_u8(o: Option<u8>) -> Seq<u8> {
    match o {
        Option::None => seq![0u8],
        Option::Some(b) => seq![1u8] + le_bytes(b as nat, 1),
    }
}

/// Reading an optional u8 field back.
pub open spec fn dec_opt_u8(s: Seq<u8>) -> Option<(Option<u8>, Seq<u8>)> {
    if s.len() == 0 {
        None
    } else if s[0] == 0 {
        Some((Option::<u8>::None, s.skip(1)))
    } else if s[0] == 1 {
        match dec_u8(s.skip(1)) {
            Option::Some((x, r)) => Some((Option::<u8>::Some(x), r)),
            Option::None => None,
        }
    } else {
        None
    }
}

pub proof fn lemma_opt_u8_round_trip(o: Option<u8>, rest: Seq<u8>)
    ensures
        dec_opt_u8(enc_opt_u8(o) + rest) == Some((o, rest)),
{
    match o {
        Option::None => {
            assert((enc_opt_u8(o) + rest).skip(1) =~= rest);
        },
        Option::Some(b) => {
            assert((enc_opt_u8(o) + rest).skip(1) =~= le_bytes(b as nat, 1) + rest);
            lemma_u8_round_trip(b, rest);
        },
    }
}

/// An optional u16 field: a presence byte, then the value when present.
pub open spec fn enc_opt_u16(o: Option<u16>) -> Seq<u8> {
    match o {
        Option::None => seq![0u8],
        Option::Some(b) => seq![1u8] + le_bytes(b as nat, 2),
    }
}

/// Reading an optional u16 field back.
pub open spec fn dec_opt_u16(s: Seq<u8>) -> Option<(Option<u16>, Seq<u8>)> {
    if s.len() == 0 {
        None
    } else if s[0] == 0 {
        Some((Option::<u16>::None, s.skip(1)))
    } else if s[0] == 1 {
        match dec_u16(s.skip(1)) {
            Option::Some((x, r)) => Some((Option::<u16>::Some(x), r)),
            Option::None => None,
        }
    } else {
        None
    }
}

pub proof fn lemma_opt_u16_round_trip(o: Option<u16>, rest: Seq<u8>)
    ensures
        dec_opt_u16(enc_opt_u16(o) + rest) == Some((o, rest)),
{
    match o {
        Option::None => {
            assert((enc_opt_u16(o) + rest).skip(1) =~= rest);
        },
        Option::Some(b) => {
            assert((enc_opt_u16(o) + rest).skip(1) =~= le_bytes(b as nat, 2) + rest);
            lemma_u16_round_trip(b, rest);
        },
    }
}

/// An optional u32 field: a presence byte, then the value when present.
pub open spec fn enc_opt_u32(o: Option<u32>) -> Seq<u8> {
    match o {
        Option::None => seq![0u8],
        Option::Some(b) => seq![1u8] + le_bytes(b as nat, 4),
    }
}

/// Reading an optional u32 field back.
pub open spec fn dec_opt_u32(s: Seq<u8>) -> Option<(Option<u32>, Seq<u8>)> {
    if s.len() == 0 {
        None
    } else if s[0] == 0 {
        Some((Option::<u32>::None, s.skip(1)))
    } else if s[0] == 1 {
        match dec_u32(s.skip(1)) {
            Option::Some((x, r)) => Some((Option::<u32>::Some(x), r)),
            Option::None => None,
        }
    } else {
        None
    }
}

pub proof fn lemma_opt_u32_round_trip(o: Option<u32>, rest: Seq<u8>)
    ensures
        dec_opt_u32(enc_opt_u32(o) + rest) == Some((o, rest)),
{
    match o {
        Option::None => {
            assert((enc_opt_u32(o) + rest).skip(1) =~= rest);
        },
        Option::Some(b) => {
            assert((enc_opt_u32(o) + rest).skip(1) =~= le_bytes(b as nat, 4) + rest);
            lemma_u32_round_trip(b, rest);
        },
    }
}

/// An optional u128 field: a presence byte, then the value when present.
pub open spec fn enc_opt_u128(o: Option<u128>) -> Seq<u8> {
    match o {
        Option::None => seq![0u8],
        Option::Some(b) => seq![1u8] + le_bytes(b as nat, 16),
    }
}

/// Reading an optional u128 field back.
pub open spec fn dec_opt_u128(s: Seq<u8>) -> Option<(Option<u128>, Seq<u8>)> {
    if s.len() == 0 {
        None
    } else if s[0] == 0 {
        Some((Option::<u128>::None, s.skip(1)))
    } else if s[0] == 1 {
        match dec_u128(s.skip(1)) {
            Option::Some((x, r)) => Some((Option::<u128>::Some(x), r)),
            Option::None => None,
        }
    } else {
        None
    }
}

pub proof fn lemma_opt_u128_round_trip(o: Option<u128>, rest: Seq<u8>)
    ensures
        dec_opt_u128(enc_opt_u128(o) + rest) == Some((o, rest)),
{
    match o {
        Option::None => {
            assert((enc_opt_u128(o) + rest).skip(1) =~= rest);
        },
        Option::Some(b) => {
            assert((enc_opt_u128(o) + rest).skip(1) =~= le_bytes(b as nat, 16) + rest);
            lemma_u128_round_trip(b, rest);
        },
    }
}

/// A property value encodes as the discriminant tag, then every optional
/// field in declared order.
pub open spec fn enc_data_value(v: DataValueV) -> Seq<u8> {
    seq![data_type_tag(v.data_type)] + enc_opt_bool(v.bool_value) + enc_opt_bytes(v.string_value)
        + enc_opt_u8(v.u8_value) + enc_opt_u16(v.u16_value) + enc_opt_u32(v.u32_value)
        + enc_opt_u128(v.u128_value)
}

/// What the encoder emits for a property value is its image's encoding.
pub proof fn lemma_data_value_enc(v: &DataValue)
    ensures
        v.enc() == enc_data_value(v@),
{
    assert(v.data_type.enc() =~= seq![data_type_tag(v.data_type)]);
    assert(v.bool_value.enc() =~= enc_opt_bool(v@.bool_value));
    match &v.string_value {
        Option::Some(x) => {
            lemma_enc_vec_bytes(*x);
        },
        Option::None => {},
    }
    assert(v.string_value.enc() =~= enc_opt_bytes(v@.string_value));
    assert(v.u8_value.enc() =~= enc_opt_u8(v@.u8_value));
    assert(v.u16_value.enc() =~= enc_opt_u16(v@.u16_value));
    assert(v.u32_value.enc() =~= enc_opt_u32(v@.u32_value));
    assert(v.u128_value.enc() =~= enc_opt_u128(v@.u128_value));
    assert(v.enc() =~= enc_data_value(v@));
}

/// Reading a data type back: one of the six discriminant bytes.
pub open spec fn dec_data_type(s: Seq<u8>) -> Option<(DataType, Seq<u8>)> {
    if s.len() == 0 {
        None
    } else {
        let t = s[0];
        let r = s.skip(1);
        if t == 0 {
            Some((DataType::Bool, r))
        } else if t == 1 {
            Some((DataType::String, r))
        } else if t == 2 {
            Some((DataType::U8, r))
        } else if t == 3 {
            Some((DataType::U16, r))
        } else if t == 4 {
            Some((DataType::U32, r))
        } else if t == 5 {
            Some((DataType::U128, r))
        } else {
            None
        }
    }
}

pub proof fn lemma_data_type_round_trip(dt: DataType, rest: Seq<u8>)
    ensures
        dec_data_type(seq![data_type_tag(dt)] + rest) == Some((dt, rest)),
{
    assert((seq![data_type_tag(dt)] + rest).skip(1) =~= rest);
}

/// Reading a property value back, field by field.
pub open spec fn dec_data_value(s: Seq<u8>) -> Option<(DataValueV, Seq<u8>)> {
    match dec_data_type(s) {
        Option::None => None,
        Option::Some((data_type, r0)) => match dec_opt_bool(r0) {
            Option::None => None,
            Option::Some((bool_value, r1)) => match dec_opt_bytes(r1) {
                Option::None => None,
                Option::Some((string_value, r2)) => match dec_opt_u8(r2) {
                    Option::None => None,
                    Option::Some((u8_value, r3)) => match dec_opt_u16(r3) {
                        Option::None => None,
                        Option::Some((u16_value, r4)) => match dec_opt_u32(r4) {
                            Option::None => None,
                            Option::Some((u32_value, r5)) => match dec_opt_u128(r5) {
                                Option::None => None,
                                Option::Some((u128_value, r6)) => Some(
                                    (
                                        DataValueV {
                                            data_type,
                                            bool_value,
                                            string_value,
                                            u8_value,
                                            u16_value,
                                            u32_value,
                                            u128_value,
                                        },
                                        r6,
                                    ),
                                ),
                            },
                        },
                    },
                },
            },
        },
    }
}

/// A property-value image whose byte string a real buffer could hold.
pub open spec fn data_value_v_bounded(v: DataValueV) -> bool {
    v.string_value matches Some(s) ==> s.len() < pow256(8)
}

/// The image of every in-memory property value is bounded.
pub proof fn lemma_data_value_view_bounded(v: &DataValue)
    ensures
        data_value_v_bounded(v@),
{
    assert(pow256(8) == 0x10000000000000000) by {
        reveal_with_fuel(pow256, 9);
    }
    match &v.string_value {
        Option::Some(s) => {
            assert(s@.len() == s.len());
        },
        Option::None => {},
    }
}

/// Assembling a property value from its parts: once each field reads back
/// as written, the whole value does.
proof fn lemma_data_value_assemble(
    s: Seq<u8>,
    v: DataValueV,
    t0: Seq<u8>,
    t1: Seq<u8>,
    t2: Seq<u8>,
    t3: Seq<u8>,
    t4: Seq<u8>,
    t5: Seq<u8>,
    t6: Seq<u8>,
)
    requires
        dec_data_type(s) == Some((v.data_type, t0)),
        dec_opt_bool(t0) == Some((v.bool_value, t1)),
        dec_opt_bytes(t1) == Some((v.string_value, t2)),
        dec_opt_u8(t2) == Some((v.u8_value, t3)),
        dec_opt_u16(t3) == Some((v.u16_value, t4)),
        dec_opt_u32(t4) == Some((v.u32_value, t5)),
        dec_opt_u128(t5) == Some((v.u128_value, t6)),
    ensures
        dec_data_value(s) == Some((v, t6)),
{
}

/// Round trip: a property value read back is the value that was written.
#[verifier::rlimit(100)]
pub proof fn lemma_data_value_round_trip(v: DataValueV, rest: Seq<u8>)
    requires
        data_value_v_bounded(v),
    ensures
        dec_data_value(enc_data_value(v) + rest) == Some((v, rest)),
{
    let e6 = enc_opt_u128(v.u128_value);
    let e5 = enc_opt_u32(v.u32_value);
    let e4 = enc_opt_u16(v.u16_value);
    let e3 = enc_opt_u8(v.u8_value);
    let e2 = enc_opt_bytes(v.string_value);
    let e1 = enc_opt_bool(v.bool_value);
    let t6 = rest;
    let t5 = e6 + t6;
    let t4 = e5 + t5;
    let t3 = e4 + t4;
    let t2 = e3 + t3;
    let t1 = e2 + t2;
    let t0 = e1 + t1;
    let s = enc_data_value(v) + rest;
    assert(s =~= seq![data_type_tag(v.data_type)] + t0);
    lemma_data_type_round_trip(v.data_type, t0);
    lemma_opt_bool_round_trip(v.bool_value, t1);
    lemma_opt_bytes_round_trip(v.string_value, t2);
    lemma_opt_u8_round_trip(v.u8_value, t3);
    lemma_opt_u16_round_trip(v.u16_value, t4);
    lemma_opt_u32_round_trip(v.u32_value, t5);
    lemma_opt_u128_round_trip(v.u128_value, t6);
    lemma_data_value_assemble(s, v, t0, t1, t2, t3, t4, t5, t6);
}

/// Read a data type at `pos`.
pub fn decode_data_type(bytes: &Vec<u8>, pos: usize) -> (r: Option<(DataType, usize)>)
    requires
        pos <= bytes@.len(),
    ensures
        (r matches Some(p) ==> pos < p.1 <= bytes@.len() && dec_data_type(bytes@.skip(pos as int))
            == Some((p.0, bytes@.skip(p.1 as int)))),
        r is None ==> dec_data_type(bytes@.skip(pos as int)) is None,
{
    if pos == bytes.len() {
        return None;
    }
    let t = bytes[pos];
    proof {
        assert(bytes@.skip(pos as int)[0] == t);
        assert(bytes@.skip(pos as int).skip(1) =~= bytes@.skip(pos + 1));
    }
    let dt = if t == 0 {
        DataType::Bool
    } else if t == 1 {
        DataType::String
    } else if t == 2 {
        DataType::U8
    } else if t == 3 {
        DataType::U16
    } else if t == 4 {
        DataType::U32
    } else if t == 5 {
        DataType::U128
    } else {
        return None;
    };
    Some((dt, pos + 1))
}

fn decode_opt_bool(bytes: &Vec<u8>, pos: usize) -> (r: Option<(Option<bool>, usize)>)
    requires
        pos <= bytes@.len(),
    ensures
        (r matches Some(p) ==> pos < p.1 <= bytes@.len() && dec_opt_bool(
            bytes@.skip(pos as int),
        ) == Some((p.0, bytes@.skip(p.1 as int)))),
        r is None ==> dec_opt_bool(bytes@.skip(pos as int)) is None,
{
    if pos == bytes.len() {
        return None;
    }
    let tag = bytes[pos];
    proof {
        assert(bytes@.skip(pos as int)[0] == tag);
        assert(bytes@.skip(pos as int).skip(1) =~= bytes@.skip(pos + 1));
    }
    if tag == 0 {
        Some((None, pos + 1))
    } else if tag == 1 {
        match decode_bool(bytes, pos + 1) {
            Some((b, end)) => Some((Some(b), end)),
            None => None,
        }
    } else {
        None
    }
}

fn decode_opt_bytes(bytes: &Vec<u8>, pos: usize) -> (r: Option<(Option<Vec<u8>>, usize)>)
    requires
        pos <= bytes@.len(),
    ensures
        (r matches Some(p) ==> pos < p.1 <= bytes@.len() && dec_opt_bytes(
            bytes@.skip(pos as int),
        ) == Some(
            (
                match p.0 {
                    Option::Some(v) => Some(v@),
                    Option::None => None,
                },
                bytes@.skip(p.1 as int),
            ),
        )),
        r is None ==> dec_opt_bytes(bytes@.skip(pos as int)) is None,
{
    if pos == bytes.len() {
        return None;
    }
    let tag = bytes[pos];
    proof {
        assert(bytes@.skip(pos as int)[0] == tag);
        assert(bytes@.skip(pos as int).skip(1) =~= bytes@.skip(pos + 1));
    }
    if tag == 0 {
        Some((None, pos + 1))
    } else if tag == 1 {
        match decode_bytes(bytes, pos + 1) {
            Some((v, end)) => Some((Some(v), end)),
            None => None,
        }
    } else {
        None
    }
}

fn decode_opt_u8(bytes: &Vec<u8>, pos: usize) -> (r: Option<(Option<u8>, usize)>)
    requires
        pos <= bytes@.len(),
    ensures
        (r matches Some(p) ==> pos < p.1 <= bytes@.len() && dec_opt_u8(
            bytes@.skip(pos as int),
        ) == Some((p.0, bytes@.skip(p.1 as int)))),
        r is None ==> dec_opt_u8(bytes@.skip(pos as int)) is None,
{
    if pos == bytes.len() {
        return None;
    }
    let tag = bytes[pos];
    proof {
        assert(bytes@.skip(pos as int)[0] == tag);
        assert(bytes@.skip(pos as int).skip(1) =~= bytes@.skip(pos + 1));
    }
    if tag == 0 {
        Some((None, pos + 1))
    } else if tag == 1 {
        match decode_u8(bytes, pos + 1) {
            Some((x, end)) => Some((Some(x), end)),
            None => None,
        }
    } else {
        None
    }
}

fn decode_opt_u16(bytes: &Vec<u8>, pos: usize) -> (r: Option<(Option<u16>, usize)>)
    requires
        pos <= bytes@.len(),
    ensures
        (r matches Some(p) ==> pos < p.1 <= bytes@.len() && dec_opt_u16(
            bytes@.skip(pos as int),
        ) == Some((p.0, bytes@.skip(p.1 as int)))),
        r is None ==> dec_opt_u16(bytes@.skip(pos as int)) is None,
{
    if pos == bytes.len() {
        return None;
    }
    let tag = bytes[pos];
    proof {
        assert(bytes@.skip(pos as int)[0] == tag);
        assert(bytes@.skip(pos as int).skip(1) =~= bytes@.skip(pos + 1));
    }
    if tag == 0 {
        Some((None, pos + 1))
    } else if tag == 1 {
        match decode_u16(bytes, pos + 1) {
            Some((x, end)) => Some((Some(x), end)),
            None => None,
        }
    } else {
        None
    }
}

fn decode_opt_u32(bytes: &Vec<u8>, pos: usize) -> (r: Option<(Option<u32>, usize)>)
    requires
        pos <= bytes@.len(),
    ensures
        (r matches Some(p) ==> pos < p.1 <= bytes@.len() && dec_opt_u32(
            bytes@.skip(pos as int),
        ) == Some((p.0, bytes@.skip(p.1 as int)))),
        r is None ==> dec_opt_u32(bytes@.skip(pos as int)) is None,
{
    if pos == bytes.len() {
        return None;
    }
    let tag = bytes[pos];
    proof {
        assert(bytes@.skip(pos as int)[0] == tag);
        assert(bytes@.skip(pos as int).skip(1) =~= bytes@.skip(pos + 1));
    }
    if tag == 0 {
        Some((None, pos + 1))
    } else if tag == 1 {
        match decode_u32(bytes, pos + 1) {
            Some((x, end)) => Some((Some(x), end)),
            None => None,
        }
    } else {
        None
    }
}

fn decode_opt_u128(bytes: &Vec<u8>, pos: usize) -> (r: Option<(Option<u128>, usize)>)
    requires
        pos <= bytes@.len(),
    ensures
        (r matches Some(p) ==> pos < p.1 <= bytes@.len() && dec_opt_u128(
            bytes@.skip(pos as int),
        ) == Some((p.0, bytes@.skip(p.1 as int)))),
        r is None ==> dec_opt_u128(bytes@.skip(pos as int)) is None,
{
    if pos == bytes.len() {
        return None;
    }
    let tag = bytes[pos];
    proof {
        assert(bytes@.skip(pos as int)[0] == tag);
        assert(bytes@.skip(pos as int).skip(1) =~= bytes@.skip(pos + 1));
    }
    if tag == 0 {
        Some((None, pos + 1))
    } else if tag == 1 {
        match decode_u128(bytes, pos + 1) {
            Some((x, end)) => Some((Some(x), end)),
            None => None,
        }
    } else {
        None
    }
}

/// Read a property value at `pos`.
pub fn decode_data_value(bytes: &Vec<u8>, pos: usize) -> (r: Option<(DataValue, usize)>)
    requires
        pos <= bytes@.len(),
    ensures
        (r matches Some(p) ==> pos < p.1 <= bytes@.len() && dec_data_value(
            bytes@.skip(pos as int),
        ) == Some((p.0@, bytes@.skip(p.1 as int)))),
        r is None ==> dec_data_value(bytes@.skip(pos as int)) is None,
{
    match decode_data_type(bytes, pos) {
        None => None,
        Some((data_type, p0)) => match decode_opt_bool(bytes, p0) {
            None => None,
            Some((bool_value, p1)) => match decode_opt_bytes(bytes, p1) {
                None => None,
                Some((string_value, p2)) => match decode_opt_u8(bytes, p2) {
                    None => None,
                    Some((u8_value, p3)) => match decode_opt_u16(bytes, p3) {
                        None => None,
                        Some((u16_value, p4)) => match decode_opt_u32(bytes, p4) {
                            None => None,
                            Some((u32_value, p5)) => match decode_opt_u128(bytes, p5) {
                                None => None,
                                Some((u128_value, end)) => Some(
                                    (
                                        DataValue {
                                            data_type,
                                            bool_value,
                                            string_value,
                                            u8_value,
                                            u16_value,
                                            u32_value,
                                            u128_value,
                                        },
                                        end,
                                    ),
                                ),
                            },
                        },
                    },
                },
            },
        },
    }
}

/// Arguments for an extrinsic that needs none: encodes to nothing at all.
#[derive(Debug, Clone, PartialEq, Eq)]
pub struct EmptyArgs {}

impl Encodable for EmptyArgs {
    open spec fn enc(&self) -> Seq<u8> {
        Seq::<u8>::empty()
    }

    fn encode_to(&self, out: &mut Vec<u8>) {
        proof {
            assert(out@ =~= old(out)@ + self.enc());
        }
    }
}

/// Read a whole empty payload back. Only a zero-length buffer is an empty
/// payload: input with anything in it — in particular the other schema
/// generation's catalog-creation payload — is refused.
pub fn decode_empty_args(bytes: &Vec<u8>) -> (r: Option<EmptyArgs>)
    ensures
        r is Some <==> bytes@.len() == 0,
{
    if bytes.len() == 0 {
        Some(EmptyArgs {  })
    } else {
        None
    }
}

/// Build the catalog-creation call; this schema version takes no arguments
/// for it, so the payload encodes to a zero-length byte buffer.
pub fn create_catalog() -> (c: Call<EmptyArgs>)
    ensures
        c.module@ == "AssetRegistry"@,
        c.function@ == "create_catalog"@,
        c.args.enc() == Seq::<u8>::empty(),
{
    Call::new(MODULE, CREATE_REGISTRY, EmptyArgs {  })
}

/// Arguments for registering a verification provider with a catalog.
pub struct AddKycproviderArgs<T: AssetRegistry> {
    pub catalog_id: <T as System>::Hash,
    pub kycprovider: <T as System>::AccountId,
}

impl<T: AssetRegistry> Encodable for AddKycproviderArgs<T> {
    open spec fn enc(&self) -> Seq<u8> {
        self.catalog_id.enc() + self.kycprovider.enc()
    }

    fn encode_to(&self, out: &mut Vec<u8>) {
        self.catalog_id.encode_to(out);
        self.kycprovider.encode_to(out);
        proof {
            assert(out@ =~= old(out)@ + self.enc());
        }
    }
}

/// Build the call that registers a verification provider.
pub fn add_kycprovider<T: AssetRegistry>(
    catalog_id: <T as System>::Hash,
    kycprovider: <T as System>::AccountId,
) -> (c: Call<AddKycproviderArgs<T>>)
    ensures
        c.module@ == "AssetRegistry"@,
        c.function@ == "add_kycprovider"@,
        c.args == (AddKycproviderArgs::<T> { catalog_id, kycprovider }),
{
    Call::new(MODULE, ADD_KYC_PROVIDER, AddKycproviderArgs { catalog_id, kycprovider })
}

/// Arguments for creating an asset under a catalog.
pub struct CreateDidArgs<T: AssetRegistry> {
    pub catalog_id: <T as System>::Hash,
    pub owner: <T as System>::AccountId,
}

impl<T: AssetRegistry> Encodable for CreateDidArgs<T> {
    open spec fn enc(&self) -> Seq<u8> {
        self.catalog_id.enc() + self.owner.enc()
    }

    fn encode_to(&self, out: &mut Vec<u8>) {
        self.catalog_id.encode_to(out);
        self.owner.encode_to(out);
        proof {
            assert(out@ =~= old(out)@ + self.enc());
        }
    }
}

/// Build the asset-creation call.
pub fn create_asset<T: AssetRegistry>(
    catalog_id: <T as System>::Hash,
    owner: <T as System>::AccountId,
) -> (c: Call<CreateDidArgs<T>>)
    ensures
        c.module@ == "AssetRegistry"@,
        c.function@ == "create_asset"@,
        c.args == (CreateDidArgs::<T> { catalog_id, owner }),
{
    Call::new(MODULE, CREATE_ASSET, CreateDidArgs { catalog_id, owner })
}

/// Arguments for attaching a typed property to an asset.
pub struct CreatePropertyArgs<T: AssetRegistry> {
    pub asset_id: <T as System>::Hash,
    pub issued: i64,
    pub expiry: i64,
    pub assertion: Vec<u8>,
    pub data_type: DataType,
    pub value: DataValue,
}

impl<T: AssetRegistry> Encodable for CreatePropertyArgs<T> {
    open spec fn enc(&self) -> Seq<u8> {
        self.asset_id.enc() + self.issued.enc() + self.expiry.enc() + enc_bytes(self.assertion@)
            + self.data_type.enc() + self.value.enc()
    }

    fn encode_to(&self, out: &mut Vec<u8>) {
        self.asset_id.encode_to(out);
        self.issued.encode_to(out);
        self.expiry.encode_to(out);
        self.assertion.encode_to(out);
        self.data_type.encode_to(out);
        self.value.encode_to(out);
        proof {
            crate::codec::lemma_enc_vec_bytes(self.assertion);
            assert(out@ =~= old(out)@ + self.enc());
        }
    }
}

/// Build the property-creation call.
pub fn create_asset_property<T: AssetRegistry>(
    asset_id: <T as System>::Hash,
    issued: i64,
    expiry: i64,
    assertion: Vec<u8>,
    data_type: DataType,
    value: DataValue,
) -> (c: Call<CreatePropertyArgs<T>>)
    ensures
        c.module@ == "AssetRegistry"@,
        c.function@ == "create_asset_property"@,
        c.args == (CreatePropertyArgs::<T> {
            asset_id,
            issued,
            expiry,
            assertion,
            data_type,
            value,
        }),
{
    Call::new(
        MODULE,
        CREATE_ASSET_PROPERTY,
        CreatePropertyArgs { asset_id, issued, expiry, assertion, data_type, value },
    )
}

/// Arguments for endorsing an asset property.
pub struct VerifyPropertyArgs<T: AssetRegistry> {
    pub asset_id: <T as System>::Hash,
    pub property_id: <T as System>::Hash,
    pub issued: i64,
    pub expiry: i64,
}

impl<T: AssetRegistry> Encodable for VerifyPropertyArgs<T> {
    open spec fn enc(&self) -> Seq<u8> {
        self.asset_id.enc() + self.property_id.enc() + self.issued.enc() + self.expiry.enc()
    }

    fn encode_to(&self, out: &mut Vec<u8>) {
        self.asset_id.encode_to(out);
        self.property_id.encode_to(out);
        self.issued.encode_to(out);
        self.expiry.encode_to(out);
        proof {
            assert(out@ =~= old(out)@ + self.enc());
        }
    }
}

/// Build the property-verification call.
pub fn verify_asset_property<T: AssetRegistry>(
    asset_id: <T as System>::Hash,
    property_id: <T as System>::Hash,
    issued: i64,
    expiry: i64,
) -> (c: Call<VerifyPropertyArgs<T>>)
    ensures
        c.module@ == "AssetRegistry"@,
        c.function@ == "verify_asset_property"@,
        c.args == (VerifyPropertyArgs::<T> { asset_id, property_id, issued, expiry }),
{
    Call::new(
        MODULE,
        VERIFY_ASSET_PROPERTY,
        VerifyPropertyArgs { asset_id, property_id, issued, expiry },
    )
}

/// Arguments for withdrawing a property verification.
pub struct RemoveVerificationArgs<T: AssetRegistry> {
    pub asset_id: <T as System>::Hash,
    pub property_id: <T as System>::Hash,
}

impl<T: AssetRegistry> Encodable for RemoveVerificationArgs<T> {
    open spec fn enc(&self) -> Seq<u8> {
        self.asset_id.enc() + self.property_id.enc()
    }

    fn encode_to(&self, out: &mut Vec<u8>) {
        self.asset_id.encode_to(out);
        self.property_id.encode_to(out);
        proof {
            assert(out@ =~= old(out)@ + self.enc());
        }
    }
}

/// Build the verification-withdrawal call.
pub fn remove_verification<T: AssetRegistry>(
    asset_id: <T as System>::Hash,
    property_id: <T as System>::Hash,
) -> (c: Call<RemoveVerificationArgs<T>>)
    ensures
        c.module@ == "AssetRegistry"@,
        c.function@ == "remove_verification"@,
        c.args == (RemoveVerificationArgs::<T> { asset_id, property_id }),
{
    Call::new(MODULE, REMOVE_VERIFICATION, RemoveVerificationArgs { asset_id, property_id })
}

/// Arguments naming an asset and an owning account.
pub struct AssetOwnerArgs<T: AssetRegistry> {
    pub asset_id: <T as System>::Hash,
    pub owner: <T as System>::AccountId,
}

impl<T: AssetRegistry> Encodable for AssetOwnerArgs<T> {
    open spec fn enc(&self) -> Seq<u8> {
        self.asset_id.enc() + self.owner.enc()
    }

    fn encode_to(&self, out: &mut Vec<u8>) {
        self.asset_id.encode_to(out);
        self.owner.encode_to(out);
        proof {
            assert(out@ =~= old(out)@ + self.enc());
        }
    }
}

/// Build an owner-scoped call; this schema version dispatches it through the
/// verification-withdrawal function name.
pub fn asset_owner_addax<T: AssetRegistry>(
    asset_id: <T as System>::Hash,
    owner: <T as System>::AccountId,
) -> (c: Call<AssetOwnerArgs<T>>)
    ensures
        c.module@ == "AssetRegistry"@,
        c.function@ == "remove_verification"@,
        c.args == (AssetOwnerArgs::<T> { asset_id, owner }),
{
    Call::new(MODULE, REMOVE_VERIFICATION, AssetOwnerArgs { asset_id, owner })
}

} // verus!
