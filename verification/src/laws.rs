//! Properties that span the contract's operations, stated over the storage
//! models that the operations' contracts use.

use crate::codec::{bin_approval, bincode_approval_decode, wasm_json_str_bytes};
use crate::contract::{
    after_mint_records, burn_effect, burned, initial_state, may_transfer, plain_burn_effect,
};
use crate::records::{stored_token, token_info_key};
use crate::song::{approved_for_all, operator_approval_keys, revoked_for_all};
use crate::types::{InstantiateMsg, MyCustomMsg, MyStdError};
use cosmwasm_std::Response;
use crate::records::{
    approval_key, lemma_apart_from_approvals, lemma_cw721_key_apart, lemma_owner_key_apart,
    lemma_state_key_apart, owner_key, owner_of, state_in, approved_spender, expired,
};
use crate::types::{Expiry, SongModel};
use vstd::prelude::*;

verus! {

/// Approving a spender and then revoking that approval leaves storage as it
/// was, when the spender had no approval record for the token before; the
/// token's owner is the same throughout.
pub proof fn law_revoke_undoes_approve(
    c: Map<Seq<u8>, Seq<u8>>,
    token_id: Seq<char>,
    spender: Seq<char>,
    expires: Expiry,
)
    requires
        !c.dom().contains(approval_key(token_id, spender)),
    ensures
        owner_of(c.insert(approval_key(token_id, spender), bin_approval(spender, expires)), token_id)
            == owner_of(c, token_id),
        c.insert(approval_key(token_id, spender), bin_approval(spender, expires)).remove(
            approval_key(token_id, spender),
        ) == c,
{
    lemma_owner_key_apart(token_id, token_id, spender);
    lemma_cw721_key_apart(token_id, token_id, spender);
    assert(c.insert(approval_key(token_id, spender), bin_approval(spender, expires)).remove(
        approval_key(token_id, spender),
    ) =~= c);
}

/// Approvals, in whatever form, never change who owns any token, and never
/// change the contract state.
pub proof fn law_approvals_keep_owners_and_state(
    c: Map<Seq<u8>, Seq<u8>>,
    token_id: Seq<char>,
    other: Seq<char>,
    spender: Seq<char>,
    record: Seq<u8>,
)
    ensures
        owner_of(c.insert(approval_key(other, spender), record), token_id) == owner_of(c, token_id),
        owner_of(c.remove(approval_key(other, spender)), token_id) == owner_of(c, token_id),
        state_in(c.insert(approval_key(other, spender), record)) == state_in(c),
        state_in(c.remove(approval_key(other, spender))) == state_in(c),
{
    lemma_owner_key_apart(token_id, other, spender);
    lemma_cw721_key_apart(token_id, other, spender);
    lemma_state_key_apart(other, spender);
}

/// Giving one token a new owner leaves the owner of every other token, and
/// the contract state, as they were.
pub proof fn law_transfer_keeps_other_tokens(
    c: Map<Seq<u8>, Seq<u8>>,
    token_id: Seq<char>,
    other: Seq<char>,
    recipient: Seq<char>,
)
    requires
        token_id != other,
    ensures
        owner_of(c.insert(owner_key(token_id), wasm_json_str_bytes(recipient)), other) == owner_of(
            c,
            other,
        ),
        state_in(c.insert(owner_key(token_id), wasm_json_str_bytes(recipient))) == state_in(c),
{
    lemma_owner_key_apart(other, token_id, Seq::empty());
    lemma_cw721_key_apart(other, token_id, Seq::empty());
    lemma_state_key_apart(token_id, Seq::empty());
}

/// Minting one token leaves the owner of every other token, and the
/// contract state, as they were.
pub proof fn law_mint_keeps_other_tokens(
    c: Map<Seq<u8>, Seq<u8>>,
    token_id: Seq<char>,
    other: Seq<char>,
    minter: Seq<char>,
    song: SongModel,
)
    requires
        token_id != other,
    ensures
        owner_of(after_mint_records(c, token_id, minter, song), other) == owner_of(c, other),
        state_in(after_mint_records(c, token_id, minter, song)) == state_in(c),
{
    lemma_owner_key_apart(other, token_id, Seq::empty());
    lemma_cw721_key_apart(other, token_id, Seq::empty());
    lemma_state_key_apart(token_id, Seq::empty());
}

/// Burning one token leaves the owner of every other token, and the
/// contract state, as they were; the burnt token has no owner.
pub proof fn law_burn_keeps_other_tokens(c: Map<Seq<u8>, Seq<u8>>, token_id: Seq<char>, other: Seq<char>)
    requires
        token_id != other,
    ensures
        owner_of(burned(c, token_id), other) == owner_of(c, other),
        owner_of(burned(c, token_id), token_id) is None,
        state_in(burned(c, token_id)) == state_in(c),
{
    lemma_owner_key_apart(other, token_id, Seq::empty());
    lemma_owner_key_apart(token_id, other, Seq::empty());
    lemma_cw721_key_apart(other, token_id, Seq::empty());
    lemma_cw721_key_apart(token_id, token_id, Seq::empty());
    lemma_apart_from_approvals(c, token_id, other);
    if crate::records::cw721_indexed(c, token_id) {
        let o = crate::codec::cw721_token_owner(c[crate::records::cw721_token_key(token_id)])->Some_0;
        crate::records::lemma_index_key_apart(o, token_id, other);
        crate::records::lemma_index_key_apart(o, token_id, token_id);
    }
    lemma_state_key_apart(token_id, Seq::empty());
}

/// An approval recorded for a spender lets that spender transfer the token
/// while it runs; once the approval record is dropped, it does not.
pub proof fn law_approval_lets_spender_transfer(
    c: Map<Seq<u8>, Seq<u8>>,
    token_id: Seq<char>,
    spender: Seq<char>,
    expires: Expiry,
    height: u64,
    time: u64,
)
    requires
        owner_of(c, token_id) is Some,
        c.dom().contains(approval_key(token_id, spender)),
        bincode_approval_decode(c[approval_key(token_id, spender)]) == Some((spender, expires)),
        !expired(expires, height, time),
    ensures
        may_transfer(c, token_id, spender, height, time),
        !approved_spender(c.remove(approval_key(token_id, spender)), token_id, spender, height, time),
{
}

/// A successful burn leaves the token with no metadata record, no owner
/// record and no owner, whoever the metadata record named as owner and
/// whether or not the state reads.
pub proof fn law_burn_leaves_nothing_of_the_token(
    c0: Map<Seq<u8>, Seq<u8>>,
    c1: Map<Seq<u8>, Seq<u8>>,
    sender: Seq<char>,
    token_id: Seq<char>,
    res: Result<Response<MyCustomMsg>, MyStdError>,
)
    requires
        burn_effect(c0, c1, sender, token_id, res) || plain_burn_effect(c0, c1, sender, token_id, res),
        res is Ok,
    ensures
        !c1.dom().contains(token_info_key(token_id)),
        stored_token(c1, token_id) is None,
        !c1.dom().contains(owner_key(token_id)),
        owner_of(c1, token_id) is None,
        owner_of(c0, token_id) == Some(sender),
{
    lemma_state_key_apart(token_id, Seq::empty());
    lemma_cw721_key_apart(token_id, token_id, Seq::empty());
    lemma_apart_from_approvals(c0, token_id, token_id);
    if crate::records::cw721_indexed(c0, token_id) {
        let o = crate::codec::cw721_token_owner(c0[crate::records::cw721_token_key(token_id)])->Some_0;
        crate::records::lemma_index_key_apart(o, token_id, token_id);
        lemma_index_key_not_info(o, token_id);
    }
}

/// A token's entry in cw721-base's owner index never shares a key with a
/// metadata record.
proof fn lemma_index_key_not_info(owner: Seq<char>, id: Seq<char>)
    ensures
        crate::records::cw721_owner_index_key(owner, id) != token_info_key(id),
{
    reveal_strlit("token_info_");
    crate::records::lemma_ascii_first_byte(crate::records::token_info_key_text(id));
    assert(crate::records::cw721_owner_index_key(owner, id)[0] == 0u8);
}

/// The recorded owner of a token may always transfer it, at any block
/// height and time, whatever its metadata record or approvals say.
pub proof fn law_owner_may_transfer(c: Map<Seq<u8>, Seq<u8>>, token_id: Seq<char>, sender: Seq<char>, height: u64, time: u64)
    requires
        owner_of(c, token_id) == Some(sender),
    ensures
        may_transfer(c, token_id, sender, height, time),
{
}

/// Approving an operator for all of an owner's tokens stores, under each
/// such token's approval key for the operator, the approval record of that
/// operator with exactly the expiration given; revoking them leaves no such
/// record.
pub proof fn law_approve_all_records_each_token(
    c: Map<Seq<u8>, Seq<u8>>,
    owner: Seq<char>,
    operator: Seq<char>,
    expires: Expiry,
    token_id: Seq<char>,
)
    requires
        owner_of(c, token_id) == Some(owner),
    ensures
        approved_for_all(c, owner, operator, expires).dom().contains(approval_key(token_id, operator)),
        approved_for_all(c, owner, operator, expires)[approval_key(token_id, operator)] == bin_approval(operator, expires),
        !revoked_for_all(c, owner, operator).dom().contains(approval_key(token_id, operator)),
{
    assert(operator_approval_keys(c, owner, operator).contains(approval_key(token_id, operator)));
}

/// Only the approval records of the owner's tokens change when an operator
/// is approved or revoked for all of them: any other key keeps its value.
pub proof fn law_approve_all_touches_nothing_else(
    c: Map<Seq<u8>, Seq<u8>>,
    owner: Seq<char>,
    operator: Seq<char>,
    expires: Expiry,
    k: Seq<u8>,
)
    requires
        forall|id: Seq<char>| owner_of(c, id) == Some(owner) ==> k != approval_key(id, operator),
    ensures
        approved_for_all(c, owner, operator, expires).dom().contains(k) == c.dom().contains(k),
        c.dom().contains(k) ==> approved_for_all(c, owner, operator, expires)[k] == c[k],
        revoked_for_all(c, owner, operator).dom().contains(k) == c.dom().contains(k),
{
}

/// Setting the contract up stores a state whose every field is the
/// message's own (the version "1.0" and a zero supply aside).
pub proof fn law_initial_state_is_the_message(msg: InstantiateMsg)
    ensures
        initial_state(msg).version == "1.0"@,
        initial_state(msg).total_supply == 0,
        initial_state(msg).artist == msg.artist@,
        initial_state(msg).album == msg.album@,
        initial_state(msg).artwork_url == msg.artwork_url@,
        initial_state(msg).year == msg.year,
        initial_state(msg).track_name == msg.track_name@,
        initial_state(msg).audio_track_url == msg.audio_track_url@,
        initial_state(msg).token_name == msg.token_name@,
        initial_state(msg).token_symbol == msg.token_symbol@,
        initial_state(msg).platform_fee == msg.platform_fee,
{
}

} // verus!
