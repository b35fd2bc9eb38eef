//! The contract's operations: setup, minting, burning, transfers, sends and
//! approvals.

use crate::codec::{
    bin_approval, bin_state, bin_token, bincode_approval_decode, encode_token_fields,
    wasm_json_str_bytes, TokenView,
};
use crate::ownership::{
    after_ownership_init, initialize_owner, ownership_init, ownership_key, ownership_record,
    ownership_refused, plain_address,
};
use crate::records::{
    approval_key, approved_spender, config_key, contract_state_key, cw721_index_keys, cw721_token_key,
    lemma_apart_from_approvals, lemma_key_injective, lemma_state_key_apart, owner_key, owner_of,
    state_found, state_in, stored_token, token_approval_keys, token_info_key,
};
use crate::response::{
    add_attribute, custom_add_attribute, custom_response_new, custom_response_view, plain_response,
    response_new, response_view,
};
use crate::song::{
    approved_for_all, expiry_or_never, get_owner_of_token, holds_approval, load_state,
    remove_all_approvals, remove_all_approvals_for_token, remove_approval, revoked_for_all, remove_token_info_and_owner, save_all_approvals, save_approval, save_state,
    save_token_owner, set_owner_of_token, token_info_key_string, update_state_after_mint,
    update_state_after_transfer,
};
use crate::storage::{contents, storage_set};
use crate::types::{
    generic_error, ErrorModel, Expiry, InstantiateMsg, MyCustomMsg, MyCw721, MyCw721ContractState,
    MyStdError, SongMetadata, StateModel,
};
use cosmwasm_std::{MemoryStorage, Response};
use vstd::prelude::*;
use vstd::utf8::encode_utf8;

verus! {

/// The storage once a minted token's metadata record is written.
pub open spec fn with_minted_record(
    c: Map<Seq<u8>, Seq<u8>>,
    id: Seq<char>,
    minter: Seq<char>,
    song: crate::types::SongModel,
) -> Map<Seq<u8>, Seq<u8>> {
    c.insert(token_info_key(id), bin_token(minter, Seq::empty(), None, song))
}

/// The storage once a minted token's metadata and owner records are written.
pub open spec fn after_mint_records(
    c: Map<Seq<u8>, Seq<u8>>,
    id: Seq<char>,
    minter: Seq<char>,
    song: crate::types::SongModel,
) -> Map<Seq<u8>, Seq<u8>> {
    with_minted_record(c, id, minter, song).insert(owner_key(id), wasm_json_str_bytes(minter))
}

/// A minted token's record: the minter as owner, no approvals, no URI, and
/// the song metadata.
pub open spec fn minted_token(minter: Seq<char>, song: crate::types::SongModel) -> TokenView {
    (minter, Seq::empty(), None, song)
}

/// Writes a minted token's metadata record; the stored state is untouched.
fn write_mint_record(storage: &mut MemoryStorage, token_id: &str, minter: &str, song: &SongMetadata)
    ensures
        contents(*final(storage)) == with_minted_record(contents(*old(storage)), token_id@, minter@, song@),
        stored_token(contents(*final(storage)), token_id@) == Some(minted_token(minter@, song@)),
        state_in(contents(*final(storage))) == state_in(contents(*old(storage))),
{
    proof {
        lemma_state_key_apart(token_id@, Seq::empty());
    }
    let fields = crate::song::song_fields(song);
    let no_approvals: Vec<crate::types::ApprovalInfo> = Vec::new();
    let serialized_token_info = encode_token_fields(minter, no_approvals.as_slice(), None, &fields);
    assert(crate::codec::approval_list_view(no_approvals@) =~= Seq::empty());
    proof {
        crate::codec::lemma_le_bytes_len(encode_utf8(minter@).len(), 8);
    }
    let storage_key = token_info_key_string(token_id);
    storage_set(storage, storage_key.as_str().as_bytes(), serialized_token_info.as_slice());
    proof {
        assert(crate::codec::opt_str_view(None) == None::<Seq<char>>);
    }
}

impl MyCw721 {
    /// Stores the contract state under the contract object's own key.
    pub fn save_state(storage: &mut MemoryStorage, state: &MyCw721ContractState) -> (res: Result<(), MyStdError>)
        ensures
            res is Ok,
            contents(*final(storage)) == contents(*old(storage)).insert(
                contract_state_key(),
                bin_state(state@),
            ),
    {
        let data = crate::codec::encode_state(state);
        proof {
            crate::song::lemma_bin_state_nonempty(state@);
        }
        storage_set(storage, "contract_state".as_bytes(), data.as_slice());
        Ok(())
    }

    /// Mints a song token. Only the contract itself may mint. The token's
    /// metadata record is written with the minter as owner, no approvals and
    /// no URI; then the total supply in the stored state goes up by one (not
    /// past the largest `u64`) and the minter is recorded as the token's
    /// owner. When the state does not read, only the metadata record stays.
    pub fn mint_nft(
        &mut self,
        storage: &mut MemoryStorage,
        contract_address: &String,
        sender: &String,
        song_metadata: SongMetadata,
        token_id: String,
    ) -> (res: Result<Response, MyStdError>)
        ensures
            final(self)@ == old(self)@,
            sender@ != contract_address@ ==> (res matches Err(e) && e@ == ErrorModel::PermissionDenied)
                && contents(*final(storage)) == contents(*old(storage)),
            sender@ == contract_address@ ==> match state_in(contents(*old(storage))) {
                Err(e) => (res matches Err(x) && x@ == e) && contents(*final(storage)) == with_minted_record(
                    contents(*old(storage)),
                    token_id@,
                    sender@,
                    song_metadata@,
                ),
                Ok(m) => (res matches Ok(r) && response_view(r) == plain_response(
                    seq![("action"@, "mint"@), ("minter"@, sender@), ("token_id"@, token_id@)],
                )) && contents(*final(storage)) == after_mint_records(
                    contents(*old(storage)),
                    token_id@,
                    sender@,
                    song_metadata@,
                ).insert(
                    config_key(),
                    bin_state(StateModel { total_supply: saturating_increment(m.total_supply), ..m }),
                ),
            },
            res is Ok ==> owner_of(contents(*final(storage)), token_id@) == Some(sender@),
            sender@ == contract_address@ ==> stored_token(contents(*final(storage)), token_id@) == Some(
                minted_token(sender@, song_metadata@),
            ),
    {
        if !sender.eq(contract_address) {
            return Err(MyStdError::PermissionDenied);
        }
        let unique_token_id = token_id.clone();
        let ghost c0 = contents(*storage);
        write_mint_record(storage, unique_token_id.as_str(), sender.as_str(), &song_metadata);
        let ghost c1 = contents(*storage);
        proof {
            lemma_state_key_apart(token_id@, Seq::empty());
            crate::records::lemma_owner_key_apart(token_id@, token_id@, Seq::empty());
        }

        let mut state = load_state(storage)?;
        state.total_supply = state.total_supply.saturating_add(1);
        save_state(storage, &state)?;
        let ghost c2 = contents(*storage);
        update_state_after_mint(storage, &token_id, sender.as_str())?;
        assert(contents(*storage) =~= c2);
        assert(c2 == c1.insert(config_key(), bin_state(state@)));
        save_token_owner(storage, token_id.as_str(), sender.as_str())?;
        assert(contents(*storage) =~= after_mint_records(c0, token_id@, sender@, song_metadata@).insert(
            config_key(),
            bin_state(state@),
        ));

        proof {
            crate::response::lemma_attribute_keys();
        }
        let response = add_attribute(
            add_attribute(add_attribute(response_new(), "action", "mint"), "minter", sender.as_str()),
            "token_id",
            unique_token_id.as_str(),
        );
        assert(response_view(response).attributes =~= seq![("action"@, "mint"@), ("minter"@, sender@), ("token_id"@, token_id@)]);
        let _debug_owner = get_owner_of_token(storage, token_id.as_str())?;
        Ok(response)
    }

    /// Burns a token held by the sender: its approval records, its metadata
    /// record, its owner record and cw721-base's record of it are dropped,
    /// and the total supply goes down by one (not below zero).
    /// `burn_effect` spells out each outcome.
    pub fn burn_nft(&mut self, storage: &mut MemoryStorage, sender: &String, token_id: String) -> (res: Result<
        Response<MyCustomMsg>,
        MyStdError,
    >)
        ensures
            final(self)@ == old(self)@,
            burn_effect(contents(*old(storage)), contents(*final(storage)), sender@, token_id@, res),
            res is Ok ==> owner_of(contents(*final(storage)), token_id@) is None,
            res is Ok ==> stored_token(contents(*final(storage)), token_id@) is None
                && !contents(*final(storage)).dom().contains(token_info_key(token_id@)),
    {
        drop_token(storage, sender, &token_id)?;
        let mut state = load_state(storage)?;
        state.total_supply = state.total_supply.saturating_sub(1);
        save_state(storage, &state)?;
        proof {
            crate::response::lemma_attribute_keys();
        }
        let mut response = custom_response_new();
        response = custom_add_attribute(response, "action", "burn");
        response = custom_add_attribute(response, "burner", sender.as_str());
        response = custom_add_attribute(response, "token_id", token_id.as_str());
        assert(custom_response_view(response).attributes =~= seq![
            ("action"@, "burn"@),
            ("burner"@, sender@),
            ("token_id"@, token_id@),
        ]);
        Ok(response)
    }

    /// Transfers a token to `recipient` on behalf of its owner: the sender
    /// must be the owner or hold an approval for the token that is still
    /// running at block height `height` and block time `time`
    /// (nanoseconds). Then the state is read and stored again.
    pub fn transfer_nft(
        &self,
        storage: &mut MemoryStorage,
        sender: &String,
        recipient: String,
        token_id: String,
        height: u64,
        time: u64,
    ) -> (res: Result<Response<MyCustomMsg>, MyStdError>)
        ensures
            owner_of(contents(*old(storage)), token_id@) is None ==> (res matches Err(e) && e@
                == ErrorModel::NotFound) && contents(*final(storage)) == contents(*old(storage)),
            owner_of(contents(*old(storage)), token_id@) matches Some(o) && o != sender@ && !approved_spender(
                contents(*old(storage)),
                token_id@,
                sender@,
                height,
                time,
            ) ==> (res matches Err(e) && e@ == ErrorModel::Unauthorized) && contents(*final(storage))
                == contents(*old(storage)),
            may_transfer(contents(*old(storage)), token_id@, sender@, height, time) ==> match state_in(
                contents(*old(storage)),
            ) {
                Err(e) => (res matches Err(x) && x@ == e) && contents(*final(storage)) == contents(*old(storage)).insert(
                    owner_key(token_id@),
                    wasm_json_str_bytes(recipient@),
                ),
                Ok(m) => (res matches Ok(r) && custom_response_view(r) == plain_response(Seq::empty()))
                    && contents(*final(storage)) == contents(*old(storage)).insert(
                    owner_key(token_id@),
                    wasm_json_str_bytes(recipient@),
                ).insert(config_key(), bin_state(m)),
            },
            res is Ok ==> owner_of(contents(*final(storage)), token_id@) == Some(recipient@),
            owner_of(contents(*old(storage)), token_id@) == Some(sender@) && state_in(contents(*old(storage))) is Ok
                ==> res is Ok && owner_of(contents(*final(storage)), token_id@) == Some(recipient@),
    {
        let current_owner = get_owner_of_token(storage, token_id.as_str())?;
        let current_owner = match current_owner {
            None => {
                return Err(MyStdError::NotFound);
            },
            Some(o) => o,
        };
        if !current_owner.eq(sender) && !holds_approval(storage, token_id.as_str(), sender, height, time) {
            return Err(MyStdError::Unauthorized);
        }
        let ghost c0 = contents(*storage);
        set_owner_of_token(storage, &token_id, &recipient)?;
        let ghost c1 = contents(*storage);
        proof {
            lemma_state_key_apart(token_id@, Seq::empty());
            assert(state_in(c1) == state_in(c0));
        }
        update_state_after_transfer(storage, &token_id, &recipient)?;
        Ok(custom_response_new())
    }

    /// Sends a token to `recipient` on behalf of its owner, with a custom
    /// message that must have been read (`msg` is `None` when it could not
    /// be). The sender must be the owner or hold an approval for the token
    /// that is still running at block height `height` and block time `time`.
    /// The token must have an owner.
    pub fn send_nft(
        &self,
        storage: &mut MemoryStorage,
        sender: &String,
        recipient: String,
        token_id: String,
        msg: Option<MyCustomMsg>,
        height: u64,
        time: u64,
    ) -> (res: Result<Response<MyCustomMsg>, MyStdError>)
        requires
            owner_of(contents(*old(storage)), token_id@) is Some,
        ensures
            !may_transfer(contents(*old(storage)), token_id@, sender@, height, time) ==> (res matches Err(e) && e@
                == ErrorModel::PermissionDenied) && contents(*final(storage)) == contents(*old(storage)),
            may_transfer(contents(*old(storage)), token_id@, sender@, height, time) && msg is None ==> (res matches Err(e)
                && e@ == generic_error("Failed to deserialize custom message"@)) && contents(*final(storage))
                == contents(*old(storage)),
            may_transfer(contents(*old(storage)), token_id@, sender@, height, time) && msg is Some ==> (res matches Ok(r)
                && custom_response_view(r) == plain_response(
                seq![
                    ("action"@, "send_nft"@),
                    ("sender"@, sender@),
                    ("recipient"@, recipient@),
                    ("token_id"@, token_id@),
                ],
            )) && contents(*final(storage)) == contents(*old(storage)).insert(
                owner_key(token_id@),
                wasm_json_str_bytes(recipient@),
            ),
            res is Ok ==> owner_of(contents(*final(storage)), token_id@) == Some(recipient@),
            owner_of(contents(*old(storage)), token_id@) == Some(sender@) && msg is Some ==> res is Ok
                && owner_of(contents(*final(storage)), token_id@) == Some(recipient@),
    {
        let current_owner = get_owner_of_token(storage, token_id.as_str())?;
        let owner = current_owner.unwrap();
        if !sender.eq(&owner) && !holds_approval(storage, token_id.as_str(), sender, height, time) {
            return Err(MyStdError::PermissionDenied);
        }
        let _custom_msg = parse_custom_msg(msg)?;
        set_owner_of_token(storage, &token_id, &recipient)?;
        proof {
            crate::response::lemma_attribute_keys();
        }
        let mut response = custom_response_new();
        response = custom_add_attribute(response, "action", "send_nft");
        response = custom_add_attribute(response, "sender", sender.as_str());
        response = custom_add_attribute(response, "recipient", recipient.as_str());
        response = custom_add_attribute(response, "token_id", token_id.as_str());
        assert(custom_response_view(response).attributes =~= seq![
            ("action"@, "send_nft"@),
            ("sender"@, sender@),
            ("recipient"@, recipient@),
            ("token_id"@, token_id@),
        ]);
        Ok(response)
    }

    /// Approves `spender` for a token held by the sender, until `expires`
    /// (never, when not given). The token must have an owner.
    pub fn approve(
        &self,
        storage: &mut MemoryStorage,
        sender: &String,
        spender: String,
        token_id: String,
        expires: Option<Expiry>,
    ) -> (res: Result<Response<MyCustomMsg>, MyStdError>)
        requires
            owner_of(contents(*old(storage)), token_id@) is Some,
        ensures
            owner_of(contents(*old(storage)), token_id@) != Some(sender@) ==> (res matches Err(e) && e@
                == ErrorModel::PermissionDenied) && contents(*final(storage)) == contents(*old(storage)),
            owner_of(contents(*old(storage)), token_id@) == Some(sender@) ==> (res matches Ok(r)
                && custom_response_view(r) == plain_response(
                seq![
                    ("action"@, "approve"@),
                    ("sender"@, sender@),
                    ("spender"@, spender@),
                    ("token_id"@, token_id@),
                ],
            )) && contents(*final(storage)) == contents(*old(storage)).insert(
                approval_key(token_id@, spender@),
                bin_approval(spender@, expiry_or_never(expires)),
            ) && bincode_approval_decode(contents(*final(storage))[approval_key(token_id@, spender@)]) == Some(
                (spender@, expiry_or_never(expires)),
            ),
    {
        let current_owner = get_owner_of_token(storage, token_id.as_str())?;
        let owner = current_owner.unwrap();
        if !sender.eq(&owner) {
            return Err(MyStdError::PermissionDenied);
        }
        save_approval(storage, token_id.as_str(), spender.as_str(), expires)?;
        proof {
            crate::response::lemma_attribute_keys();
        }
        let mut response = custom_response_new();
        response = custom_add_attribute(response, "action", "approve");
        response = custom_add_attribute(response, "sender", sender.as_str());
        response = custom_add_attribute(response, "spender", spender.as_str());
        response = custom_add_attribute(response, "token_id", token_id.as_str());
        assert(custom_response_view(response).attributes =~= seq![
            ("action"@, "approve"@),
            ("sender"@, sender@),
            ("spender"@, spender@),
            ("token_id"@, token_id@),
        ]);
        Ok(response)
    }

    /// Withdraws the approval of `spender` for a token held by the sender.
    /// The token must have an owner.
    pub fn revoke(&self, storage: &mut MemoryStorage, sender: &String, spender: String, token_id: String) -> (res: Result<
        Response<MyCustomMsg>,
        MyStdError,
    >)
        requires
            owner_of(contents(*old(storage)), token_id@) is Some,
        ensures
            owner_of(contents(*old(storage)), token_id@) != Some(sender@) ==> (res matches Err(e) && e@
                == ErrorModel::PermissionDenied) && contents(*final(storage)) == contents(*old(storage)),
            owner_of(contents(*old(storage)), token_id@) == Some(sender@) ==> (res matches Ok(r)
                && custom_response_view(r) == plain_response(
                seq![
                    ("action"@, "revoke"@),
                    ("sender"@, sender@),
                    ("spender"@, spender@),
                    ("token_id"@, token_id@),
                ],
            )) && contents(*final(storage)) == contents(*old(storage)).remove(approval_key(token_id@, spender@)),
    {
        let current_owner = get_owner_of_token(storage, token_id.as_str())?;
        let owner = current_owner.unwrap();
        if !sender.eq(&owner) {
            return Err(MyStdError::PermissionDenied);
        }
        remove_approval(storage, token_id.as_str(), spender.as_str())?;
        proof {
            crate::response::lemma_attribute_keys();
        }
        let mut response = custom_response_new();
        response = custom_add_attribute(response, "action", "revoke");
        response = custom_add_attribute(response, "sender", sender.as_str());
        response = custom_add_attribute(response, "spender", spender.as_str());
        response = custom_add_attribute(response, "token_id", token_id.as_str());
        assert(custom_response_view(response).attributes =~= seq![
            ("action"@, "revoke"@),
            ("sender"@, sender@),
            ("spender"@, spender@),
            ("token_id"@, token_id@),
        ]);
        Ok(response)
    }

    /// Approves `operator`, until `expires` (never, when not given), for
    /// every token whose recorded owner is the sender.
    pub fn approve_all(&self, storage: &mut MemoryStorage, sender: &String, operator: String, expires: Option<Expiry>) -> (res:
        Result<Response<MyCustomMsg>, MyStdError>)
        ensures
            res matches Ok(r) && custom_response_view(r) == plain_response(Seq::empty()),
            contents(*final(storage)) == approved_for_all(
                contents(*old(storage)),
                sender@,
                operator@,
                expiry_or_never(expires),
            ),
            forall|id: Seq<char>|
                owner_of(contents(*old(storage)), id) == Some(sender@) ==> bincode_approval_decode(
                    #[trigger] contents(*final(storage))[approval_key(id, operator@)],
                ) == Some((operator@, expiry_or_never(expires))),
    {
        save_all_approvals(storage, sender.as_str(), operator.as_str(), expires)?;
        Ok(custom_response_new())
    }

    /// Withdraws `operator`'s approval for every token whose recorded owner
    /// is the sender.
    pub fn revoke_all(&self, storage: &mut MemoryStorage, sender: &String, operator: String) -> (res: Result<
        Response<MyCustomMsg>,
        MyStdError,
    >)
        ensures
            res matches Ok(r) && custom_response_view(r) == plain_response(Seq::empty()),
            contents(*final(storage)) == revoked_for_all(contents(*old(storage)), sender@, operator@),
    {
        remove_all_approvals(storage, sender.as_str(), operator.as_str())?;
        Ok(custom_response_new())
    }

    /// The standard burn entry: deletes a token held by the sender, as
    /// `burn_nft` does, and answers with an empty response. The total supply
    /// goes down by one when the stored state reads; when it does not, the
    /// state is left alone and the burn still succeeds.
    pub fn burn(&self, storage: &mut MemoryStorage, sender: &String, token_id: String) -> (res: Result<
        Response<MyCustomMsg>,
        MyStdError,
    >)
        ensures
            plain_burn_effect(contents(*old(storage)), contents(*final(storage)), sender@, token_id@, res),
            res is Ok ==> owner_of(contents(*final(storage)), token_id@) is None,
            res is Ok ==> stored_token(contents(*final(storage)), token_id@) is None
                && !contents(*final(storage)).dom().contains(token_info_key(token_id@)),
    {
        drop_token(storage, sender, &token_id)?;
        match load_state(storage) {
            Ok(state) => {
                let mut state = state;
                state.total_supply = state.total_supply.saturating_sub(1);
                save_state(storage, &state)?;
            },
            Err(_) => {},
        }
        Ok(custom_response_new())
    }
}

/// The custom message carried by a send, once read: a message that could
/// not be read (`None`) is refused.
fn parse_custom_msg(msg: Option<MyCustomMsg>) -> (res: Result<MyCustomMsg, MyStdError>)
    ensures
        msg is Some <==> res is Ok,
        res matches Err(e) ==> e@ == generic_error("Failed to deserialize custom message"@),
{
    match msg {
        Some(m) => Ok(m),
        None => Err(MyStdError::generic("Failed to deserialize custom message")),
    }
}

/// What burning a token on behalf of `sender` does, from the storage `c0`
/// to the storage `c1`, with the answer `res`: a token with no owner is
/// refused as missing and one held by another as not permitted, leaving
/// storage as it was. Otherwise the token is `burned` and, when the
/// state reads, its total supply goes down by one (not below zero) and the
/// answer lists the action, the burner and the token; when the state does
/// not read, the token stays burnt and the read's error comes back.
pub open spec fn burn_effect(
    c0: Map<Seq<u8>, Seq<u8>>,
    c1: Map<Seq<u8>, Seq<u8>>,
    sender: Seq<char>,
    id: Seq<char>,
    res: Result<Response<MyCustomMsg>, MyStdError>,
) -> bool {
    match owner_of(c0, id) {
        None => (res matches Err(e) && e@ == ErrorModel::Other("Token does not exist"@)) && c1 == c0,
        Some(o) => if o != sender {
            (res matches Err(e) && e@ == ErrorModel::PermissionDenied) && c1 == c0
        } else {
            match state_in(c0) {
                Err(e) => (res matches Err(x) && x@ == e) && c1 == burned(c0, id),
                Ok(m) => (res matches Ok(r) && custom_response_view(r) == plain_response(
                    seq![("action"@, "burn"@), ("burner"@, sender), ("token_id"@, id)],
                )) && c1 == burned(c0, id).insert(
                    config_key(),
                    bin_state(StateModel { total_supply: saturating_decrement(m.total_supply), ..m }),
                ),
            }
        },
    }
}

/// What the standard burn does, from the storage `c0` to the storage `c1`,
/// with the answer `res`: refusals as in `burn_effect`; otherwise the token
/// is `burned`, the total supply goes down by one (not below zero) when the
/// state reads, and the answer is an empty response.
pub open spec fn plain_burn_effect(
    c0: Map<Seq<u8>, Seq<u8>>,
    c1: Map<Seq<u8>, Seq<u8>>,
    sender: Seq<char>,
    id: Seq<char>,
    res: Result<Response<MyCustomMsg>, MyStdError>,
) -> bool {
    match owner_of(c0, id) {
        None => (res matches Err(e) && e@ == ErrorModel::Other("Token does not exist"@)) && c1 == c0,
        Some(o) => if o != sender {
            (res matches Err(e) && e@ == ErrorModel::PermissionDenied) && c1 == c0
        } else {
            (res matches Ok(r) && custom_response_view(r) == plain_response(Seq::empty())) && c1 == match state_in(
                c0,
            ) {
                Err(_) => burned(c0, id),
                Ok(m) => burned(c0, id).insert(
                    config_key(),
                    bin_state(StateModel { total_supply: saturating_decrement(m.total_supply), ..m }),
                ),
            }
        },
    }
}

/// Drops a token held by the sender: its approval records, its metadata
/// record, its owner record and cw721-base's record of it. A token without
/// an owner is refused as missing, one held by another as not permitted,
/// and storage is then left as it was. The stored state is not touched.
fn drop_token(storage: &mut MemoryStorage, sender: &String, token_id: &String) -> (res: Result<(), MyStdError>)
    ensures
        owner_of(contents(*old(storage)), token_id@) is None ==> (res matches Err(e) && e@ == ErrorModel::Other(
            "Token does not exist"@,
        )) && contents(*final(storage)) == contents(*old(storage)),
        owner_of(contents(*old(storage)), token_id@) matches Some(o) && o != sender@ ==> (res matches Err(e) && e@
            == ErrorModel::PermissionDenied) && contents(*final(storage)) == contents(*old(storage)),
        owner_of(contents(*old(storage)), token_id@) == Some(sender@) ==> res is Ok && contents(*final(storage))
            == burned(contents(*old(storage)), token_id@),
        state_in(contents(*final(storage))) == state_in(contents(*old(storage))),
        res is Ok ==> owner_of(contents(*final(storage)), token_id@) is None,
{
    let current_owner = match get_owner_of_token(storage, token_id.as_str()) {
        Ok(o) => o,
        Err(_) => {
            return Err(MyStdError::Other("Failed to fetch the owner".to_string()));
        },
    };
    let owner = match current_owner {
        None => {
            return Err(MyStdError::Other("Token does not exist".to_string()));
        },
        Some(o) => o,
    };
    if !owner.eq(sender) {
        return Err(MyStdError::PermissionDenied);
    }
    let ghost c0 = contents(*storage);
    remove_all_approvals_for_token(storage, token_id.as_str())?;
    let ghost cm = contents(*storage);
    proof {
        lemma_apart_from_approvals(c0, token_id@, token_id@);
        assert(cw721_index_keys(cm, token_id@) == cw721_index_keys(c0, token_id@));
    }
    remove_token_info_and_owner(storage, token_id.as_str())?;
    let ghost c1 = contents(*storage);
    proof {
        lemma_state_key_apart(token_id@, Seq::empty());
        crate::records::lemma_cw721_key_apart(token_id@, token_id@, Seq::empty());
        if crate::records::cw721_indexed(c0, token_id@) {
            crate::records::lemma_index_key_apart(
                crate::codec::cw721_token_owner(c0[cw721_token_key(token_id@)])->Some_0,
                token_id@,
                token_id@,
            );
        }
        assert(c1 =~= burned(c0, token_id@));
        assert(c1.dom().contains(config_key()) == c0.dom().contains(config_key()));
        assert(c0.dom().contains(config_key()) ==> c1[config_key()] == c0[config_key()]);
        assert(state_in(c1) == state_in(c0));
    }
    Ok(())
}

/// Whether `sender` may transfer the token at block height `height` and
/// block time `time`: the token has an owner, and the sender is that owner
/// or holds a running approval for the token.
pub open spec fn may_transfer(c: Map<Seq<u8>, Seq<u8>>, id: Seq<char>, sender: Seq<char>, height: u64, time: u64) -> bool {
    &&& owner_of(c, id) is Some
    &&& (owner_of(c, id) == Some(sender) || approved_spender(c, id, sender, height, time))
}

/// The supply after one token comes in: one more, but not past the
/// largest `u64`.
pub open spec fn saturating_increment(n: u64) -> u64 {
    if n == u64::MAX {
        n
    } else {
        (n + 1) as u64
    }
}

/// The supply after one token leaves: one less, but not below zero.
pub open spec fn saturating_decrement(n: u64) -> u64 {
    if n == 0 {
        0
    } else {
        (n - 1) as u64
    }
}

/// The storage once a token is burnt: its approval records, its metadata
/// record, its owner record, cw721-base's record of it and its entry in
/// cw721-base's owner index are gone.
pub open spec fn burned(c: Map<Seq<u8>, Seq<u8>>, id: Seq<char>) -> Map<Seq<u8>, Seq<u8>> {
    c.remove_keys(token_approval_keys(c, id)).remove(token_info_key(id)).remove(owner_key(id)).remove(
        cw721_token_key(id),
    ).remove_keys(cw721_index_keys(c, id))
}

/// The state a setup message gives: version "1.0", no tokens yet, and the
/// message's song details, token name, symbol and fee.
pub open spec fn initial_state(msg: InstantiateMsg) -> StateModel {
    StateModel {
        version: "1.0"@,
        total_supply: 0,
        artist: msg.artist@,
        album: msg.album@,
        artwork_url: msg.artwork_url@,
        year: msg.year,
        track_name: msg.track_name@,
        audio_track_url: msg.audio_track_url@,
        token_name: msg.token_name@,
        token_symbol: msg.token_symbol@,
        platform_fee: msg.platform_fee,
    }
}

/// The ownership record and the contract state never share a key.
pub proof fn lemma_ownership_key_apart()
    ensures
        ownership_key() != config_key(),
{
    reveal_strlit("ownership");
    reveal_strlit("config");
    assert("ownership"@[0] != "config"@[0]);
    lemma_key_injective("ownership"@, "config"@);
}

/// Sets the contract up: stores the initial state, then records the sender
/// as the contract's owner. The sender's address is checked by
/// `cw_ownable`; when it is refused the call fails, with the state stored.
pub fn instantiate(storage: &mut MemoryStorage, sender: &String, msg: InstantiateMsg) -> (res: Result<
    Response,
    MyStdError,
>)
    ensures
        contents(*final(storage)) == after_ownership_init(
            contents(*old(storage)).insert(config_key(), bin_state(initial_state(msg))),
            sender@,
        ),
        state_in(contents(*final(storage))) == state_found(initial_state(msg)),
        state_in(contents(*final(storage))) matches Ok(m) && m.version == "1.0"@ && m.total_supply == 0
            && m.artist == msg.artist@ && m.album == msg.album@ && m.artwork_url == msg.artwork_url@ && m.year
            == msg.year && m.track_name == msg.track_name@ && m.audio_track_url == msg.audio_track_url@
            && m.token_name == msg.token_name@ && m.token_symbol == msg.token_symbol@ && m.platform_fee
            == msg.platform_fee,
        res is Ok <==> ownership_init(sender@) is Ok,
        plain_address(sender@) ==> res is Ok,
        res is Ok ==> contents(*final(storage)) == contents(*old(storage)).insert(
            config_key(),
            bin_state(initial_state(msg)),
        ).insert(ownership_key(), ownership_record(sender@)),
        res matches Ok(r) ==> response_view(r) == plain_response(Seq::empty()),
        res matches Err(e) ==> (e@ matches ErrorModel::Other(t) && ownership_refused(sender@, t)),
{
    let _my_cw721_instance = MyCw721::init(
        msg.artist.clone(),
        msg.album.clone(),
        msg.artwork_url.clone(),
        msg.year,
        msg.track_name.clone(),
        msg.audio_track_url.clone(),
    );
    let state = MyCw721ContractState {
        version: "1.0".to_string(),
        total_supply: 0,
        artist: msg.artist.clone(),
        album: msg.album.clone(),
        artwork_url: msg.artwork_url.clone(),
        year: msg.year,
        track_name: msg.track_name.clone(),
        audio_track_url: msg.audio_track_url.clone(),
        token_name: msg.token_name.clone(),
        token_symbol: msg.token_symbol.clone(),
        platform_fee: msg.platform_fee,
    };
    save_state(storage, &state)?;
    proof {
        lemma_ownership_key_apart();
    }
    match initialize_owner(storage, sender.as_str()) {
        Ok(()) => {},
        Err(text) => {
            return Err(MyStdError::Other(text));
        },
    }
    Ok(response_new())
}

} // verus!
