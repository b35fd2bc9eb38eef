//! The contract's key-value store and the byte-level helpers that build keys.

use crate::codec::{wasm_json_addr, wasm_json_str_bytes};
use cosmwasm_std::Addr;
use cosmwasm_std::MemoryStorage;
use cosmwasm_std::Storage;
use crate::records::{cw721_index_keys, cw721_indexed, cw721_token_key};
use cosmwasm_std::{Empty, Order};
use cw721_base::state::Cw721Contract;
use cw721_base::Extension;
use cw_storage_plus::Item;
use vstd::prelude::*;
use vstd::utf8::encode_utf8;

verus! {

/// The in-memory key-value store of CosmWasm, the backend the contract runs on.
#[verifier::external_type_specification]
#[verifier::external_body]
pub struct ExMemoryStorage(MemoryStorage);

/// What a `MemoryStorage` holds: each stored key with its value.
pub uninterp spec fn contents(storage: MemoryStorage) -> Map<Seq<u8>, Seq<u8>>;

/// `Storage::get` of `MemoryStorage`: the value stored under `key`, if any
/// (a clone of the map entry).
#[verifier::external_body]
pub fn storage_get(storage: &MemoryStorage, key: &[u8]) -> (res: Option<Vec<u8>>)
    ensures
        res is Some <==> contents(*storage).dom().contains(key@),
        res matches Some(v) ==> v@ == contents(*storage)[key@],
{
    storage.get(key)
}

/// `Storage::set` of `MemoryStorage`: stores `value` under `key`, replacing
/// what was there. `MemoryStorage::set` panics on an empty value, so it is left out.
#[verifier::external_body]
pub fn storage_set(storage: &mut MemoryStorage, key: &[u8], value: &[u8])
    requires
        value@.len() > 0,
    ensures
        contents(*final(storage)) == contents(*old(storage)).insert(key@, value@),
{
    storage.set(key, value)
}

/// `Storage::remove` of `MemoryStorage`: drops the entry under `key`, if any.
#[verifier::external_body]
pub fn storage_remove(storage: &mut MemoryStorage, key: &[u8])
    ensures
        contents(*final(storage)) == contents(*old(storage)).remove(key@),
{
    storage.remove(key)
}

/// `cw_storage_plus::Item::<Addr>::new(key).save(storage, addr)`: stores
/// CosmWasm's JSON of the address under the bytes of `key`. Writing a string
/// cannot fail, so the result is always `Ok` and is dropped here. Reading the
/// stored bytes back with CosmWasm's `from_slice` gives the address.
#[verifier::external_body]
pub fn item_save_addr(storage: &mut MemoryStorage, key: &str, addr: &str)
    ensures
        contents(*final(storage)) == contents(*old(storage)).insert(
            encode_utf8(key@),
            wasm_json_str_bytes(addr@),
        ),
        wasm_json_addr(contents(*final(storage))[encode_utf8(key@)]) == Some(addr@),
{
    let _ = Item::<Addr>::new(key).save(storage, &Addr::unchecked(addr));
}

/// The keys of everything stored, as `Storage::range` over the whole store
/// hands them out (ascending): each key once, and every stored key.
#[verifier::external_body]
pub fn storage_keys(storage: &MemoryStorage) -> (res: Vec<Vec<u8>>)
    ensures
        forall|i: int| 0 <= i < res@.len() ==> contents(*storage).dom().contains(#[trigger] res@[i]@),
        forall|k: Seq<u8>| contents(*storage).dom().contains(k) ==> exists|i: int| 0 <= i < res@.len() && #[trigger] res@[i]@ == k,
        forall|i: int, j: int| 0 <= i < j < res@.len() ==> res@[i]@ != res@[j]@,
{
    storage.range(None, None, Order::Ascending).map(|record| record.0).collect()
}

/// The key of a token in cw721-base's `tokens` map
/// (`Cw721Contract::default().tokens.key(token_id)`).
#[verifier::external_body]
pub fn cw721_token_key_bytes(token_id: &str) -> (res: Vec<u8>)
    ensures
        res@ == cw721_token_key(token_id@),
{
    let contract = Cw721Contract::<Extension, Empty, Empty, Empty>::default();
    contract.tokens.key(token_id).to_vec()
}

/// `Cw721Contract::default().tokens.remove(storage, token_id)`: cw721-base
/// reads its record of the token (CosmWasm's `from_slice`) and drops both
/// the record and the token's entry in its index of tokens by owner. The
/// record must be there and read, with an owner whose bytes fit the index
/// key's two-byte length (the key builder panics on a longer one); then the
/// call cannot fail, and its `Ok` is dropped here.
#[verifier::external_body]
pub fn cw721_remove_token(storage: &mut MemoryStorage, token_id: &str)
    requires
        cw721_indexed(contents(*old(storage)), token_id@),
    ensures
        contents(*final(storage)) == contents(*old(storage)).remove(cw721_token_key(token_id@)).remove_keys(
            cw721_index_keys(contents(*old(storage)), token_id@),
        ),
{
    let contract = Cw721Contract::<Extension, Empty, Empty, Empty>::default();
    let _ = contract.tokens.remove(storage, token_id);
}

/// Appends the bytes of `tail` to `out`.
pub fn push_bytes(out: &mut Vec<u8>, tail: &[u8])
    ensures
        final(out)@ == old(out)@ + tail@,
{
    let mut i: usize = 0;
    while i < tail.len()
        invariant
            i <= tail@.len(),
            out@ == old(out)@ + tail@.subrange(0, i as int),
        decreases tail@.len() - i,
    {
        out.push(tail[i]);
        i = i + 1;
        assert(tail@.subrange(0, i as int) == tail@.subrange(0, (i - 1) as int).push(tail@[i - 1]));
    }
    assert(tail@.subrange(0, tail@.len() as int) == tail@);
}

} // verus!
