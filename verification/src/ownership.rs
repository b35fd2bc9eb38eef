//! Recording the contract's owner with `cw_ownable`.

use crate::codec::wasm_json_str_bytes;
use crate::storage::contents;
use cosmwasm_std::MemoryStorage;
use vstd::prelude::*;
use vstd::utf8::encode_utf8;

verus! {

/// The storage key under which `cw_ownable` keeps the ownership record.
pub open spec fn ownership_key() -> Seq<u8> {
    encode_utf8("ownership"@)
}

/// The ownership record `cw_ownable` stores for `owner`: CosmWasm's JSON of
/// an `Ownership` with that owner and nothing pending.
pub open spec fn ownership_record(owner: Seq<char>) -> Seq<u8> {
    encode_utf8("{\"owner\":"@) + wasm_json_str_bytes(owner) + encode_utf8(
        ",\"pending_owner\":null,\"pending_expiry\":null}"@,
    )
}

/// Setting up ownership stored the record for `owner`.
pub open spec fn ownership_stored(owner: Seq<char>) -> Result<Seq<u8>, Seq<char>> {
    Ok(ownership_record(owner))
}

/// An address that CosmWasm's mock validator accepts whatever else holds:
/// 3 to 90 characters, each a lower-case ASCII letter or a digit.
pub open spec fn plain_address(owner: Seq<char>) -> bool {
    &&& 3 <= owner.len() <= 90
    &&& forall|i: int| 0 <= i < owner.len() ==> ('a' <= #[trigger] owner[i] <= 'z' || '0' <= owner[i] <= '9')
}

/// What `cw_ownable::initialize_owner` does for `owner` with CosmWasm's
/// default mock address validator: the bytes of the ownership record it
/// stores, or the text of the error when the address is refused.
pub uninterp spec fn ownership_init(owner: Seq<char>) -> Result<Seq<u8>, Seq<char>>;

/// The storage after setting up ownership for `owner`: the record is stored
/// when the address is accepted, and nothing changes when it is refused.
pub open spec fn after_ownership_init(c: Map<Seq<u8>, Seq<u8>>, owner: Seq<char>) -> Map<
    Seq<u8>,
    Seq<u8>,
> {
    match ownership_init(owner) {
        Ok(record) => c.insert(ownership_key(), record),
        Err(_) => c,
    }
}

/// Whether setting up ownership for `owner` failed with the error text `text`.
pub open spec fn ownership_refused(owner: Seq<char>, text: Seq<char>) -> bool {
    ownership_init(owner) == Err::<Seq<u8>, Seq<char>>(text)
}

/// `cw_ownable::initialize_owner(storage, api, Some(owner))` with CosmWasm's
/// default `MockApi` as the address validator. The validator runs first; when it
/// refuses the address nothing is stored and its error comes back as text.
/// Otherwise the ownership record (owner set, nothing pending) is stored
/// under the key `ownership`. The validator accepts an address of 3 to 90
/// lower-case ASCII letters and digits (its round trip through the padded,
/// rotated and shuffled canonical form gives the same text back); which
/// other addresses it accepts is left to the name `ownership_init`.
#[verifier::external_body]
pub fn initialize_owner(storage: &mut MemoryStorage, owner: &str) -> (res: Result<(), String>)
    ensures
        res is Ok <==> ownership_init(owner@) is Ok,
        res is Ok ==> ownership_init(owner@) == ownership_stored(owner@),
        plain_address(owner@) ==> res is Ok,
        res matches Err(e) ==> ownership_refused(owner@, e@),
        contents(*final(storage)) == after_ownership_init(contents(*old(storage)), owner@),
{
    let api = cosmwasm_std::testing::MockApi::default();
    match cw_ownable::initialize_owner(storage, &api, Some(owner)) {
        Ok(_) => Ok(()),
        Err(e) => Err(e.to_string()),
    }
}

} // verus!
