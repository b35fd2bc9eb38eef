//! Reading and writing the contract's records: owners, state, approvals and
//! token metadata.

use crate::codec::{
    approval_list_view, bin_approval, bin_state, bin_token, bincode2_token_decode,
    bincode_approval_decode, decode_approval, decode_state, decode_token_record, encode_approval,
    encode_state, encode_token_fields, opt_record_view, opt_str_view, parse_cw721_token_owner,
    parse_wasm_json_addr, song_fields_model, token_record_view, utf8_text, wasm_json_str_bytes,
    SongFields,
};
use crate::listing::{
    lemma_listing_len, list_tokens, listed_for, lists_tokens, stored_suffixes, texts, tokens_listed,
};
use crate::records::{
    approval_key, approval_key_text, approval_record, cw721_index_keys, approved_spender, has_approval_record, config_key, cw721_token_key, expired,
    owner_key, owner_key_text, owner_of, state_found, state_in, state_missing, stored_token,
    token_approval_keys, token_info_key, token_info_key_text,
};
use crate::storage::{
    contents, cw721_remove_token, cw721_token_key_bytes, item_save_addr, storage_get, storage_remove, storage_set,
};
use crate::types::{
    generic_error, ApprovalInfo, ErrorModel, Expiry, MyCw721ContractState, MyStdError, SongMetadata, StateModel,
    TokenRecord,
};
use cosmwasm_std::MemoryStorage;
use vstd::prelude::*;
use vstd::utf8::{encode_utf8, encode_utf8_valid_utf8, valid_utf8};

verus! {

broadcast use encode_utf8_valid_utf8;

/// The key text of a token's metadata record.
pub fn token_info_key_string(token_id: &str) -> (res: String)
    ensures
        res@ == token_info_key_text(token_id@),
{
    let mut key = "token_info_".to_string();
    key.append(token_id);
    key
}

/// The key text of a token's owner record.
pub fn owner_key_string(token_id: &str) -> (res: String)
    ensures
        res@ == owner_key_text(token_id@),
{
    let mut key = "owner_of_".to_string();
    key.append(token_id);
    key
}

/// The key text of an approval of `spender` for a token.
pub fn approval_key_string(token_id: &str, spender: &str) -> (res: String)
    ensures
        res@ == approval_key_text(token_id@, spender@),
{
    let mut key = "approval_".to_string();
    key.append(token_id);
    key.append("_");
    key.append(spender);
    key
}

/// The bytes stored under `key`, if any. A key that is not UTF-8 text is
/// refused. Reading the bytes as a value is left to the caller: a value that
/// does not read counts as absent.
pub fn may_load(storage: &MemoryStorage, key: &[u8]) -> (res: Result<Option<Vec<u8>>, MyStdError>)
    ensures
        !valid_utf8(key@) ==> (res matches Err(e) && e@ == generic_error("Invalid UTF-8 sequence"@)),
        valid_utf8(key@) ==> (res matches Ok(v) && (v is Some <==> contents(*storage).dom().contains(key@))),
        res matches Ok(Some(v)) ==> v@ == contents(*storage)[key@],
{
    if utf8_text(key).is_none() {
        return Err(MyStdError::generic("Invalid UTF-8 sequence"));
    }
    Ok(storage_get(storage, key))
}

/// The owner recorded for a token: the one its owner record names, or,
/// without such a record, the one cw721-base's record of the token names.
/// Looking it up cannot fail: the key is always UTF-8 text.
pub fn get_owner_of_token(storage: &MemoryStorage, token_id: &str) -> (res: Result<Option<String>, MyStdError>)
    ensures
        res matches Ok(o) && (o matches Some(a) ==> owner_of(contents(*storage), token_id@) == Some(a@))
            && (o is None ==> owner_of(contents(*storage), token_id@) is None),
{
    let key = owner_key_string(token_id);
    match may_load(storage, key.as_str().as_bytes()) {
        Ok(Some(bytes)) => Ok(parse_wasm_json_addr(bytes.as_slice())),
        Ok(None) => {
            let base_key = cw721_token_key_bytes(token_id);
            match storage_get(storage, base_key.as_slice()) {
                Some(bytes) => Ok(parse_cw721_token_owner(bytes.as_slice())),
                None => Ok(None),
            }
        },
        Err(_) => Err(MyStdError::NotFound),
    }
}

/// The owner recorded for a token, as answered to queries.
pub fn query_owner(storage: &MemoryStorage, token_id: &str) -> (res: Result<Option<String>, MyStdError>)
    ensures
        res matches Ok(o) && (o matches Some(a) ==> owner_of(contents(*storage), token_id@) == Some(a@))
            && (o is None ==> owner_of(contents(*storage), token_id@) is None),
{
    match get_owner_of_token(storage, token_id) {
        Ok(Some(owner)) => Ok(Some(owner)),
        Ok(None) => Ok(None),
        Err(_) => Err(MyStdError::generic("Error: NotFound")),
    }
}

/// Records `owner` as the owner of a token; afterwards the token's owner
/// reads as `owner`.
pub fn save_token_owner(storage: &mut MemoryStorage, token_id: &str, owner: &str) -> (res: Result<(), MyStdError>)
    ensures
        res is Ok,
        contents(*final(storage)) == contents(*old(storage)).insert(
            owner_key(token_id@),
            wasm_json_str_bytes(owner@),
        ),
        owner_of(contents(*final(storage)), token_id@) == Some(owner@),
{
    let key = owner_key_string(token_id);
    item_save_addr(storage, key.as_str(), owner);
    Ok(())
}

/// Records `owner` as the owner of a token.
pub fn set_owner_of_token(storage: &mut MemoryStorage, token_id: &String, owner: &String) -> (res: Result<(), MyStdError>)
    ensures
        res is Ok,
        contents(*final(storage)) == contents(*old(storage)).insert(
            owner_key(token_id@),
            wasm_json_str_bytes(owner@),
        ),
        owner_of(contents(*final(storage)), token_id@) == Some(owner@),
{
    save_token_owner(storage, token_id.as_str(), owner.as_str())?;
    Ok(())
}

/// Reads the state stored under `key`.
fn load_state_at(storage: &MemoryStorage, key: &str) -> (res: Result<MyCw721ContractState, MyStdError>)
    ensures
        !contents(*storage).dom().contains(encode_utf8(key@)) ==> (res matches Err(e) && e@
            == generic_error("State not found"@)),
        contents(*storage).dom().contains(encode_utf8(key@)) ==> match bincode_decode_at(contents(*storage), key@) {
            Ok(m) => (res matches Ok(s) && s@ == m),
            Err(t) => (res matches Err(e) && e@ == generic_error("Failed to deserialize the state: "@ + t)),
        },
{
    match storage_get(storage, key.as_bytes()) {
        None => Err(MyStdError::generic("State not found")),
        Some(data) => match decode_state(data.as_slice()) {
            Ok(state) => Ok(state),
            Err(text) => {
                let mut msg = "Failed to deserialize the state: ".to_string();
                msg.append(text.as_str());
                Err(MyStdError::generic(msg.as_str()))
            },
        },
    }
}

/// How bincode reads the bytes stored under the key `key`.
pub open spec fn bincode_decode_at(c: Map<Seq<u8>, Seq<u8>>, key: Seq<char>) -> Result<StateModel, Seq<char>> {
    crate::codec::bincode_state_decode(c[encode_utf8(key)])
}

/// The contract state as stored, or the error that reading it gives.
pub fn load_state(storage: &MemoryStorage) -> (res: Result<MyCw721ContractState, MyStdError>)
    ensures
        res matches Ok(s) ==> state_in(contents(*storage)) == state_found(s@),
        res matches Err(e) ==> state_in(contents(*storage)) == state_missing(e@),
{
    load_state_at(storage, "config")
}

/// Stores the contract state; afterwards it reads back as given.
pub fn save_state(storage: &mut MemoryStorage, state: &MyCw721ContractState) -> (res: Result<(), MyStdError>)
    ensures
        res is Ok,
        contents(*final(storage)) == contents(*old(storage)).insert(config_key(), bin_state(state@)),
        state_in(contents(*final(storage))) == state_found(state@),
{
    let data = encode_state(state);
    proof { lemma_bin_state_nonempty(state@); }
    storage_set(storage, "config".as_bytes(), data.as_slice());
    Ok(())
}

/// The bincode layout of any state is at least eight bytes long.
pub proof fn lemma_bin_state_nonempty(m: StateModel)
    ensures
        bin_state(m).len() >= 8,
{
    crate::codec::lemma_le_bytes_len(encode_utf8(m.version).len(), 8);
}


/// The storage after reading the state and storing it again: the state's
/// bytes are rewritten in bincode's layout when they read, and nothing
/// changes when they do not.
pub open spec fn after_resave(c: Map<Seq<u8>, Seq<u8>>) -> Map<Seq<u8>, Seq<u8>> {
    match state_in(c) {
        Ok(m) => c.insert(config_key(), bin_state(m)),
        Err(_) => c,
    }
}

/// Reads the state and stores it again.
pub(crate) fn resave_state(storage: &mut MemoryStorage) -> (res: Result<(), MyStdError>)
    ensures
        res is Ok <==> state_in(contents(*old(storage))) is Ok,
        res matches Err(e) ==> state_in(contents(*old(storage))) == state_missing(e@),
        contents(*final(storage)) == after_resave(contents(*old(storage))),
{
    let state = load_state(storage)?;
    save_state(storage, &state)?;
    Ok(())
}

/// Brings the state up to date after a transfer: it is read and stored again.
pub(crate) fn update_state_after_transfer(storage: &mut MemoryStorage, token_id: &String, new_owner: &String) -> (res: Result<(), MyStdError>)
    ensures
        res is Ok <==> state_in(contents(*old(storage))) is Ok,
        res matches Err(e) ==> state_in(contents(*old(storage))) == state_missing(e@),
        contents(*final(storage)) == after_resave(contents(*old(storage))),
{
    resave_state(storage)
}

/// Brings the state up to date after a mint: it is read and stored again.
pub(crate) fn update_state_after_mint(storage: &mut MemoryStorage, token_id: &String, minter: &str) -> (res: Result<(), MyStdError>)
    ensures
        res is Ok <==> state_in(contents(*old(storage))) is Ok,
        res matches Err(e) ==> state_in(contents(*old(storage))) == state_missing(e@),
        contents(*final(storage)) == after_resave(contents(*old(storage))),
{
    resave_state(storage)
}

/// Brings the state up to date after a burn: it is read and stored again.
pub(crate) fn update_state_after_burn(storage: &mut MemoryStorage, token_id: &String, owner: &str) -> (res: Result<(), MyStdError>)
    ensures
        res is Ok <==> state_in(contents(*old(storage))) is Ok,
        res matches Err(e) ==> state_in(contents(*old(storage))) == state_missing(e@),
        contents(*final(storage)) == after_resave(contents(*old(storage))),
{
    resave_state(storage)
}

/// The tokens whose recorded owner is `owner`, each once.
pub fn get_all_tokens_by_owner(storage: &MemoryStorage, owner: &str) -> (res: Result<Vec<String>, MyStdError>)
    ensures
        res matches Ok(v) && lists_tokens(texts(v@), contents(*storage), Some(owner@)),
{
    Ok(list_tokens(storage, Some(owner)))
}

/// The expiration an approval gets: the given one, or never.
pub open spec fn expiry_or_never(expires: Option<Expiry>) -> Expiry {
    match expires {
        Some(e) => e,
        None => Expiry::Never,
    }
}

/// The keys of the approval records of `operator` for every token whose
/// recorded owner is `owner`.
pub open spec fn operator_approval_keys(c: Map<Seq<u8>, Seq<u8>>, owner: Seq<char>, operator: Seq<char>) -> Set<Seq<u8>> {
    Set::new(|k: Seq<u8>| exists|id: Seq<char>| owner_of(c, id) == Some(owner) && k == approval_key(id, operator))
}

/// The storage once `operator` is approved, until `expires`, for every token
/// whose recorded owner is `owner`.
pub open spec fn approved_for_all(c: Map<Seq<u8>, Seq<u8>>, owner: Seq<char>, operator: Seq<char>, expires: Expiry) -> Map<Seq<u8>, Seq<u8>> {
    c.union_prefer_right(
        Map::new(
            |k: Seq<u8>| operator_approval_keys(c, owner, operator).contains(k),
            |k: Seq<u8>| bin_approval(operator, expires),
        ),
    )
}

/// The storage once the approvals of `operator` for every token whose
/// recorded owner is `owner` are withdrawn.
pub open spec fn revoked_for_all(c: Map<Seq<u8>, Seq<u8>>, owner: Seq<char>, operator: Seq<char>) -> Map<Seq<u8>, Seq<u8>> {
    c.remove_keys(operator_approval_keys(c, owner, operator))
}

/// The approval keys of `operator` for the first `n` of the listed tokens.
spec fn first_approval_keys(ids: Seq<Seq<char>>, n: int, operator: Seq<char>) -> Set<Seq<u8>> {
    Set::new(|k: Seq<u8>| exists|j: int| 0 <= j < n && k == approval_key(ids[j], operator))
}

/// Over a listing of the tokens of `owner`, the approval keys of all listed
/// tokens are those of the owner's tokens.
proof fn lemma_all_listed_keys(ids: Seq<Seq<char>>, c: Map<Seq<u8>, Seq<u8>>, owner: Seq<char>, operator: Seq<char>)
    requires
        lists_tokens(ids, c, Some(owner)),
    ensures
        first_approval_keys(ids, ids.len() as int, operator) =~= operator_approval_keys(c, owner, operator),
{
    assert forall|k: Seq<u8>| first_approval_keys(ids, ids.len() as int, operator).contains(k) implies operator_approval_keys(c, owner, operator).contains(k) by {
        let j = choose|j: int| 0 <= j < ids.len() && k == approval_key(ids[j], operator);
        assert(ids.contains(ids[j]));
    }
    assert forall|k: Seq<u8>| operator_approval_keys(c, owner, operator).contains(k) implies first_approval_keys(ids, ids.len() as int, operator).contains(k) by {
        let id = choose|id: Seq<char>| owner_of(c, id) == Some(owner) && k == approval_key(id, operator);
        assert(listed_for(c, id, Some(owner)));
        assert(ids.contains(id));
        let j = choose|j: int| 0 <= j < ids.len() && ids[j] == id;
        assert(k == approval_key(ids[j], operator));
    }
}

/// Approves `operator`, until `expires` (never, when not given), for every
/// token whose recorded owner is `owner`.
pub fn save_all_approvals(storage: &mut MemoryStorage, owner: &str, operator: &str, expires: Option<Expiry>) -> (res: Result<(), MyStdError>)
    ensures
        res is Ok,
        contents(*final(storage)) == approved_for_all(contents(*old(storage)), owner@, operator@, expiry_or_never(expires)),
        forall|id: Seq<char>|
            owner_of(contents(*old(storage)), id) == Some(owner@) ==> bincode_approval_decode(
                #[trigger] contents(*final(storage))[approval_key(id, operator@)],
            ) == Some((operator@, expiry_or_never(expires))),
{
    let ghost c = contents(*storage);
    let all_tokens_owned = get_all_tokens_by_owner(storage, owner)?;
    let ghost ids = texts(all_tokens_owned@);
    let ghost value = bin_approval(operator@, expiry_or_never(expires));
    let mut i: usize = 0;
    while i < all_tokens_owned.len()
        invariant
            i <= all_tokens_owned@.len(),
            ids == texts(all_tokens_owned@),
            value == bin_approval(operator@, expiry_or_never(expires)),
            contents(*storage) == c.union_prefer_right(
                Map::new(|k: Seq<u8>| first_approval_keys(ids, i as int, operator@).contains(k), |k: Seq<u8>| value),
            ),
            i > 0 ==> bincode_approval_decode(value) == Some((operator@, expiry_or_never(expires))),
        decreases all_tokens_owned@.len() - i,
    {
        let ghost before = contents(*storage);
        save_approval(storage, all_tokens_owned[i].as_str(), operator, expires)?;
        proof {
            assert(contents(*storage)[approval_key(all_tokens_owned@[i as int]@, operator@)] == value);
            assert(ids[i as int] == all_tokens_owned@[i as int]@);
            let next = Map::new(|k: Seq<u8>| first_approval_keys(ids, i + 1, operator@).contains(k), |k: Seq<u8>| value);
            assert forall|k: Seq<u8>| first_approval_keys(ids, i + 1, operator@).contains(k) <==> (first_approval_keys(ids, i as int, operator@).contains(k) || k == approval_key(ids[i as int], operator@)) by {
                if first_approval_keys(ids, i + 1, operator@).contains(k) {
                    let j = choose|j: int| 0 <= j < i + 1 && k == approval_key(ids[j], operator@);
                    if j < i {
                        assert(first_approval_keys(ids, i as int, operator@).contains(k));
                    }
                }
                if first_approval_keys(ids, i as int, operator@).contains(k) {
                    let j = choose|j: int| 0 <= j < i && k == approval_key(ids[j], operator@);
                    assert(0 <= j < i + 1 && k == approval_key(ids[j], operator@));
                }
                if k == approval_key(ids[i as int], operator@) {
                    assert(0 <= i < i + 1 && k == approval_key(ids[i as int], operator@));
                }
            }
            assert(contents(*storage) =~= c.union_prefer_right(next));
        }
        i = i + 1;
    }
    proof {
        lemma_all_listed_keys(ids, c, owner@, operator@);
        assert(contents(*storage) =~= approved_for_all(c, owner@, operator@, expiry_or_never(expires)));
        assert forall|id: Seq<char>| owner_of(c, id) == Some(owner@) implies bincode_approval_decode(
            #[trigger] contents(*storage)[approval_key(id, operator@)],
        ) == Some((operator@, expiry_or_never(expires))) by {
            assert(listed_for(c, id, Some(owner@)));
            assert(ids.contains(id));
            let j = choose|j: int| 0 <= j < ids.len() && ids[j] == id;
            assert(first_approval_keys(ids, ids.len() as int, operator@).contains(approval_key(id, operator@)));
        }
    }
    Ok(())
}

/// Withdraws the approvals of `operator` for every token whose recorded
/// owner is `owner`.
pub(crate) fn remove_all_approvals(storage: &mut MemoryStorage, owner: &str, operator: &str) -> (res: Result<(), MyStdError>)
    ensures
        res is Ok,
        contents(*final(storage)) == revoked_for_all(contents(*old(storage)), owner@, operator@),
{
    let ghost c = contents(*storage);
    let all_tokens_owned = get_all_tokens_by_owner(storage, owner)?;
    let ghost ids = texts(all_tokens_owned@);
    let mut i: usize = 0;
    while i < all_tokens_owned.len()
        invariant
            i <= all_tokens_owned@.len(),
            ids == texts(all_tokens_owned@),
            contents(*storage) == c.remove_keys(first_approval_keys(ids, i as int, operator@)),
        decreases all_tokens_owned@.len() - i,
    {
        remove_approval(storage, all_tokens_owned[i].as_str(), operator)?;
        proof {
            assert(ids[i as int] == all_tokens_owned@[i as int]@);
            assert forall|k: Seq<u8>| first_approval_keys(ids, i + 1, operator@).contains(k) <==> (first_approval_keys(ids, i as int, operator@).contains(k) || k == approval_key(ids[i as int], operator@)) by {
                if first_approval_keys(ids, i + 1, operator@).contains(k) {
                    let j = choose|j: int| 0 <= j < i + 1 && k == approval_key(ids[j], operator@);
                    if j < i {
                        assert(first_approval_keys(ids, i as int, operator@).contains(k));
                    }
                }
                if first_approval_keys(ids, i as int, operator@).contains(k) {
                    let j = choose|j: int| 0 <= j < i && k == approval_key(ids[j], operator@);
                    assert(0 <= j < i + 1 && k == approval_key(ids[j], operator@));
                }
                if k == approval_key(ids[i as int], operator@) {
                    assert(0 <= i < i + 1 && k == approval_key(ids[i as int], operator@));
                }
            }
            assert(contents(*storage) =~= c.remove_keys(first_approval_keys(ids, i + 1, operator@)));
        }
        i = i + 1;
    }
    proof {
        lemma_all_listed_keys(ids, c, owner@, operator@);
    }
    Ok(())
}

/// Sets the total supply in the stored state.
pub fn update_total_supply(storage: &mut MemoryStorage, new_supply: u64) -> (res: Result<(), MyStdError>)
    ensures
        res is Ok <==> state_in(contents(*old(storage))) is Ok,
        res matches Err(e) ==> state_in(contents(*old(storage))) == state_missing(e@),
        contents(*final(storage)) == match state_in(contents(*old(storage))) {
            Ok(m) => contents(*old(storage)).insert(
                config_key(),
                bin_state(StateModel { total_supply: new_supply, ..m }),
            ),
            Err(_) => contents(*old(storage)),
        },
{
    let mut state = load_state(storage)?;
    state.total_supply = new_supply;
    save_state(storage, &state)
}

/// Stores an approval of `spender` for a token, ending as `expires` says
/// (never, when not given).
pub fn save_approval(storage: &mut MemoryStorage, token_id: &str, spender: &str, expires: Option<Expiry>) -> (res: Result<(), MyStdError>)
    ensures
        res is Ok,
        contents(*final(storage)) == contents(*old(storage)).insert(
            approval_key(token_id@, spender@),
            bin_approval(spender@, expiry_or_never(expires)),
        ),
        bincode_approval_decode(contents(*final(storage))[approval_key(token_id@, spender@)]) == Some(
            (spender@, expiry_or_never(expires)),
        ),
{
    let key = approval_key_string(token_id, spender);
    let expires_value = match expires {
        Some(e) => e,
        None => Expiry::Never,
    };
    let bin_data = encode_approval(spender, expires_value);
    proof {
        crate::codec::lemma_le_bytes_len(encode_utf8(spender@).len(), 8);
    }
    storage_set(storage, key.as_str().as_bytes(), bin_data.as_slice());
    Ok(())
}

/// Whether `spender` holds an approval for a token that is still running at
/// block height `height` and block time `time` (nanoseconds).
pub fn holds_approval(storage: &MemoryStorage, token_id: &str, spender: &String, height: u64, time: u64) -> (res: bool)
    ensures
        res == approved_spender(contents(*storage), token_id@, spender@, height, time),
{
    let key = approval_key_string(token_id, spender.as_str());
    let bytes = match storage_get(storage, key.as_str().as_bytes()) {
        Some(b) => b,
        None => {
            return false;
        },
    };
    match decode_approval(bytes.as_slice()) {
        Some((who, expires)) => who.eq(spender) && !has_expired(expires, height, time),
        None => false,
    }
}

/// Whether an approval ending as `expires` has run out at block height
/// `height` and block time `time`.
pub fn has_expired(expires: Expiry, height: u64, time: u64) -> (res: bool)
    ensures
        res == expired(expires, height, time),
{
    match expires {
        Expiry::AtHeight(h) => height >= h,
        Expiry::AtTime(t) => time >= t,
        Expiry::Never => false,
    }
}

/// Drops the approval of `spender` for a token.
pub fn remove_approval(storage: &mut MemoryStorage, token_id: &str, spender: &str) -> (res: Result<(), MyStdError>)
    ensures
        res is Ok,
        contents(*final(storage)) == contents(*old(storage)).remove(approval_key(token_id@, spender@)),
{
    let key = approval_key_string(token_id, spender);
    storage_remove(storage, key.as_str().as_bytes());
    Ok(())
}

/// The bincode2 layout of a token's metadata record.
pub open spec fn bin_token_record(r: TokenRecord) -> Seq<u8> {
    bin_token(
        r.owner@,
        approval_list_view(r.approvals@),
        match r.token_uri {
            Some(u) => Some(u@),
            None => None,
        },
        r.extension@,
    )
}

/// The fields of song metadata, in order.
pub fn song_fields(song: &SongMetadata) -> (res: SongFields)
    ensures
        song_fields_model(res) == song@,
{
    (
        song.artist.clone(),
        song.album.clone(),
        song.artwork_url.clone(),
        song.year,
        song.track_name.clone(),
        song.audio_track_url.clone(),
    )
}

/// The bytes a token's metadata record is kept in.
pub fn encode_token_record(record: &TokenRecord) -> (res: Vec<u8>)
    ensures
        res@ == bin_token_record(*record),
        bincode2_token_decode(res@) == Some(token_record_view(*record)),
        res@.len() > 0,
{
    let fields = song_fields(&record.extension);
    let uri: Option<&str> = match &record.token_uri {
        Some(u) => Some(u.as_str()),
        None => None,
    };
    let res = encode_token_fields(record.owner.as_str(), record.approvals.as_slice(), uri, &fields);
    assert(opt_str_view(uri) == token_record_view(*record).2);
    proof {
        crate::codec::lemma_le_bytes_len(encode_utf8(record.owner@).len(), 8);
    }
    res
}

/// Stores a token's metadata record.
pub fn save_token_info(storage: &mut MemoryStorage, token_id: &str, token_info: &TokenRecord) -> (res: Result<(), MyStdError>)
    ensures
        res is Ok,
        contents(*final(storage)) == contents(*old(storage)).insert(
            token_info_key(token_id@),
            bin_token_record(*token_info),
        ),
        stored_token(contents(*final(storage)), token_id@) == Some(token_record_view(*token_info)),
{
    let key = token_info_key_string(token_id);
    let data = encode_token_record(token_info);
    storage_set(storage, key.as_str().as_bytes(), data.as_slice());
    let _check = storage_get(storage, key.as_str().as_bytes());
    Ok(())
}

/// A token's metadata record, read as bincode2 lays it out (the layout
/// that minting and `save_token_info` write); a record that does not read
/// counts as absent.
pub fn read_token_info(storage: &MemoryStorage, token_id: &str) -> (res: Result<Option<TokenRecord>, MyStdError>)
    ensures
        res matches Ok(o) && opt_record_view(o) == stored_token(contents(*storage), token_id@),
{
    let key = token_info_key_string(token_id);
    match may_load(storage, key.as_str().as_bytes()) {
        Ok(Some(bytes)) => Ok(decode_token_record(bytes.as_slice())),
        Ok(None) => Ok(None),
        Err(e) => Err(e),
    }
}

/// How many tokens have `owner` as recorded owner, once the state reads.
pub fn query_number_of_tokens_owned_by(storage: &MemoryStorage, owner: &str) -> (res: Result<u64, MyStdError>)
    ensures
        res is Ok <==> state_in(contents(*storage)) is Ok,
        res matches Ok(n) ==> n == tokens_listed(contents(*storage), Some(owner@)).len(),
        res matches Err(e) ==> state_in(contents(*storage)) == state_missing(e@),
{
    let _state = load_state(storage)?;
    let owned = get_all_tokens_by_owner(storage, owner)?;
    proof {
        lemma_listing_len(texts(owned@), contents(*storage), Some(owner@));
    }
    Ok(owned.len() as u64)
}

/// The spenders approved for a token: each spender whose approval record
/// for the token reads as an approval of that spender, once.
pub fn get_all_approvals_for_token(storage: &MemoryStorage, token_id: &str) -> (res: Result<Vec<String>, MyStdError>)
    ensures
        res matches Ok(v) && texts(v@).no_duplicates() && (forall|spender: Seq<char>|
            #[trigger] texts(v@).contains(spender) <==> has_approval_record(
                contents(*storage),
                token_id@,
                spender,
            )),
{
    let ghost c = contents(*storage);
    let prefix = approval_key_string(token_id, "");
    let found = stored_suffixes(storage, prefix.as_str().as_bytes());
    proof {
        reveal_strlit("");
        assert forall|spender: Seq<char>| encode_utf8(prefix@) + encode_utf8(spender) == approval_key(token_id@, spender) by {
            crate::codec::lemma_encode_utf8_concat(prefix@, spender);
            assert(prefix@ + spender =~= approval_key_text(token_id@, spender));
        }
    }
    let mut spenders: Vec<String> = Vec::new();
    let mut i: usize = 0;
    while i < found.len()
        invariant
            i <= found@.len(),
            c == contents(*storage),
            texts(found@).no_duplicates(),
            forall|t: Seq<char>| #[trigger] texts(found@).contains(t) <==> c.dom().contains(approval_key(token_id@, t)),
            texts(spenders@).no_duplicates(),
            forall|t: Seq<char>| #[trigger] texts(spenders@).contains(t) ==> has_approval_record(c, token_id@, t),
            forall|t: Seq<char>| #[trigger] texts(spenders@).contains(t) ==> exists|j: int| 0 <= j < i && found@[j]@ == t,
            forall|j: int|
                0 <= j < i && has_approval_record(c, token_id@, #[trigger] found@[j]@) ==> texts(spenders@).contains(
                    found@[j]@,
                ),
        decreases found@.len() - i,
    {
        let key = approval_key_string(token_id, found[i].as_str());
        let keep = match storage_get(storage, key.as_str().as_bytes()) {
            Some(bytes) => match decode_approval(bytes.as_slice()) {
                Some((who, _)) => who.eq(&found[i]),
                None => false,
            },
            None => false,
        };
        let ghost before = texts(spenders@);
        let ghost cur = found@[i as int]@;
        proof {
            assert(texts(found@)[i as int] == cur);
        }
        if keep {
            proof {
                if before.contains(cur) {
                    let j = choose|j: int| 0 <= j < i && found@[j]@ == cur;
                    assert(texts(found@)[j] == texts(found@)[i as int]);
                }
            }
            spenders.push(found[i].clone());
            proof {
                assert(texts(spenders@) =~= before.push(cur));
                assert forall|t: Seq<char>| #[trigger] texts(spenders@).contains(t) implies (before.contains(t) || t == cur) by {
                    let j = choose|j: int| 0 <= j < texts(spenders@).len() && texts(spenders@)[j] == t;
                    if j < before.len() {
                        assert(before[j] == t);
                    }
                }
                assert forall|t: Seq<char>| before.contains(t) implies #[trigger] texts(spenders@).contains(t) by {
                    let j = choose|j: int| 0 <= j < before.len() && before[j] == t;
                    assert(texts(spenders@)[j] == t);
                }
                assert(texts(spenders@)[before.len() as int] == cur);
            }
        }
        i = i + 1;
    }
    proof {
        assert forall|t: Seq<char>| has_approval_record(c, token_id@, t) implies #[trigger] texts(spenders@).contains(t) by {
            assert(texts(found@).contains(t));
            let j = choose|j: int| 0 <= j < texts(found@).len() && texts(found@)[j] == t;
            assert(found@[j]@ == t);
        }
    }
    Ok(spenders)
}

/// `spenders` names each spender the token has an approval record for, once.
pub open spec fn spenders_of(c: Map<Seq<u8>, Seq<u8>>, id: Seq<char>, spenders: Seq<Seq<char>>) -> bool {
    &&& spenders.no_duplicates()
    &&& forall|s: Seq<char>| #[trigger] spenders.contains(s) <==> has_approval_record(c, id, s)
}

/// The approvals shown for a token, taking its spenders in the given order:
/// each approval record that reads and, unless expired ones are included,
/// has not run out at block height `height` and block time `time`.
pub open spec fn shown_approvals(
    c: Map<Seq<u8>, Seq<u8>>,
    id: Seq<char>,
    spenders: Seq<Seq<char>>,
    include_expired: bool,
    height: u64,
    time: u64,
) -> Seq<(Seq<char>, Expiry)>
    decreases spenders.len(),
{
    if spenders.len() == 0 {
        Seq::empty()
    } else {
        let rest = shown_approvals(c, id, spenders.drop_last(), include_expired, height, time);
        match approval_record(c, id, spenders.last()) {
            Some(a) => if include_expired || !expired(a.1, height, time) {
                rest.push(a)
            } else {
                rest
            },
            None => rest,
        }
    }
}

/// The approvals of a token, one per spender with an approval record that
/// reads; expired ones only when `include_expired` is set.
pub fn token_approvals(storage: &MemoryStorage, token_id: &str, include_expired: bool, height: u64, time: u64) -> (res: Vec<ApprovalInfo>)
    ensures
        exists|spenders: Seq<Seq<char>>|
            spenders_of(contents(*storage), token_id@, spenders) && approval_list_view(res@) == shown_approvals(
                contents(*storage),
                token_id@,
                spenders,
                include_expired,
                height,
                time,
            ),
{
    let ghost c = contents(*storage);
    let spenders = match get_all_approvals_for_token(storage, token_id) {
        Ok(v) => v,
        Err(_) => Vec::new(),
    };
    let ghost sp = texts(spenders@);
    let mut out: Vec<ApprovalInfo> = Vec::new();
    let mut i: usize = 0;
    while i < spenders.len()
        invariant
            i <= spenders@.len(),
            c == contents(*storage),
            sp == texts(spenders@),
            approval_list_view(out@) == shown_approvals(c, token_id@, sp.take(i as int), include_expired, height, time),
        decreases spenders@.len() - i,
    {
        let key = approval_key_string(token_id, spenders[i].as_str());
        let ghost before = approval_list_view(out@);
        proof {
            assert(sp.take(i + 1).drop_last() =~= sp.take(i as int));
            assert(sp.take(i + 1).last() == spenders@[i as int]@);
        }
        match storage_get(storage, key.as_str().as_bytes()) {
            Some(bytes) => match decode_approval(bytes.as_slice()) {
                Some((spender, expires)) => {
                    if include_expired || !has_expired(expires, height, time) {
                        out.push(ApprovalInfo { spender, expires });
                        assert(approval_list_view(out@) =~= before.push(
                            (out@.last().spender@, out@.last().expires),
                        ));
                    }
                },
                None => {},
            },
            None => {},
        }
        i = i + 1;
    }
    proof {
        assert(sp.take(spenders@.len() as int) =~= sp);
        assert(spenders_of(c, token_id@, sp));
    }
    out
}

/// The approval keys of the first `n` of the listed spenders of a token.
spec fn first_spender_keys(id: Seq<char>, spenders: Seq<Seq<char>>, n: int) -> Set<Seq<u8>> {
    Set::new(|k: Seq<u8>| exists|j: int| 0 <= j < n && k == approval_key(id, spenders[j]))
}

/// Drops every approval record of a token.
pub(crate) fn remove_all_approvals_for_token(storage: &mut MemoryStorage, token_id: &str) -> (res: Result<(), MyStdError>)
    ensures
        res is Ok,
        contents(*final(storage)) == contents(*old(storage)).remove_keys(
            token_approval_keys(contents(*old(storage)), token_id@),
        ),
{
    let ghost start = contents(*storage);
    let all_spenders = get_all_approvals_for_token(storage, token_id)?;
    let ghost spenders = texts(all_spenders@);
    let mut i: usize = 0;
    while i < all_spenders.len()
        invariant
            i <= all_spenders@.len(),
            spenders == texts(all_spenders@),
            contents(*storage) == start.remove_keys(first_spender_keys(token_id@, spenders, i as int)),
        decreases all_spenders@.len() - i,
    {
        let key = approval_key_string(token_id, all_spenders[i].as_str());
        storage_remove(storage, key.as_str().as_bytes());
        proof {
            assert(spenders[i as int] == all_spenders@[i as int]@);
            assert forall|k: Seq<u8>| first_spender_keys(token_id@, spenders, i + 1).contains(k) <==> (
                first_spender_keys(token_id@, spenders, i as int).contains(k) || k == approval_key(token_id@, spenders[i as int])) by {
                if first_spender_keys(token_id@, spenders, i + 1).contains(k) {
                    let j = choose|j: int| 0 <= j < i + 1 && k == approval_key(token_id@, spenders[j]);
                    if j < i {
                        assert(first_spender_keys(token_id@, spenders, i as int).contains(k));
                    }
                }
                if first_spender_keys(token_id@, spenders, i as int).contains(k) {
                    let j = choose|j: int| 0 <= j < i && k == approval_key(token_id@, spenders[j]);
                    assert(0 <= j < i + 1 && k == approval_key(token_id@, spenders[j]));
                }
                if k == approval_key(token_id@, spenders[i as int]) {
                    assert(0 <= i < i + 1 && k == approval_key(token_id@, spenders[i as int]));
                }
            }
            assert(contents(*storage) =~= start.remove_keys(first_spender_keys(token_id@, spenders, i + 1)));
        }
        i = i + 1;
    }
    proof {
        let listed = first_spender_keys(token_id@, spenders, spenders.len() as int);
        assert forall|k: Seq<u8>| start.dom().contains(k) implies (listed.contains(k) <==> token_approval_keys(start, token_id@).contains(k)) by {
            if token_approval_keys(start, token_id@).contains(k) {
                let spender = choose|spender: Seq<char>|
                    k == approval_key(token_id@, spender) && has_approval_record(start, token_id@, spender);
                assert(spenders.contains(spender));
                let j = choose|j: int| 0 <= j < spenders.len() && spenders[j] == spender;
                assert(k == approval_key(token_id@, spenders[j]));
            }
            if listed.contains(k) {
                let j = choose|j: int| 0 <= j < spenders.len() && k == approval_key(token_id@, spenders[j]);
                assert(spenders.contains(spenders[j]));
                assert(k == approval_key(token_id@, spenders[j]) && has_approval_record(start, token_id@, spenders[j]));
            }
        }
        assert(start.remove_keys(listed) =~= start.remove_keys(token_approval_keys(start, token_id@)));
    }
    Ok(())
}

/// Drops a token's metadata record, its owner record, cw721-base's record
/// of it and, when cw721-base indexes it by owner, that index entry.
pub(crate) fn remove_token_info_and_owner(storage: &mut MemoryStorage, token_id: &str) -> (res: Result<(), MyStdError>)
    ensures
        res is Ok,
        contents(*final(storage)) == contents(*old(storage)).remove(token_info_key(token_id@)).remove(
            owner_key(token_id@),
        ).remove(cw721_token_key(token_id@)).remove_keys(cw721_index_keys(contents(*old(storage)), token_id@)),
{
    let ghost c0 = contents(*storage);
    let info_key_text = token_info_key_string(token_id);
    storage_remove(storage, info_key_text.as_str().as_bytes());
    let owner_key_text = owner_key_string(token_id);
    storage_remove(storage, owner_key_text.as_str().as_bytes());
    let ghost c1 = contents(*storage);
    proof {
        crate::records::lemma_cw721_key_apart(token_id@, token_id@, Seq::empty());
        assert(cw721_index_keys(c1, token_id@) == cw721_index_keys(c0, token_id@));
    }
    let base_key = cw721_token_key_bytes(token_id);
    let indexed = match storage_get(storage, base_key.as_slice()) {
        Some(bytes) => match parse_cw721_token_owner(bytes.as_slice()) {
            Some(owner) => {
                let n = owner.as_str().as_bytes().len();
                assert(n == encode_utf8(owner@).len());
                n <= 0xFFFF
            },
            None => false,
        },
        None => false,
    };
    if indexed {
        cw721_remove_token(storage, token_id);
    } else {
        storage_remove(storage, base_key.as_slice());
        assert(cw721_index_keys(c1, token_id@) =~= Set::empty());
    }
    assert(contents(*storage) =~= c0.remove(token_info_key(token_id@)).remove(owner_key(token_id@)).remove(
        cw721_token_key(token_id@),
    ).remove_keys(cw721_index_keys(c0, token_id@)));
    Ok(())
}

/// The contract state, as answered to queries.
pub fn query_state(storage: &MemoryStorage) -> (res: Result<MyCw721ContractState, MyStdError>)
    ensures
        res matches Ok(s) ==> state_in(contents(*storage)) == state_found(s@),
        res matches Err(e) ==> state_in(contents(*storage)) == state_missing(e@),
{
    load_state(storage)
}

} // verus!
