//! Where the contract keeps its records, and what each record means.

use crate::codec::{
    bincode2_token_decode, bincode_approval_decode, bincode_state_decode, cw721_token_owner, wasm_json_addr, TokenView,
};
use crate::types::{generic_error, ErrorModel, Expiry, StateModel};
use vstd::prelude::*;
use vstd::utf8::{
    encode_scalar, encode_utf8, encode_utf8_decode_utf8, has_width_1_encoding, leading_byte_width_1,
};

verus! {

/// The key text of a token's metadata record.
pub open spec fn token_info_key_text(id: Seq<char>) -> Seq<char> {
    "token_info_"@ + id
}

/// The key text of a token's owner record.
pub open spec fn owner_key_text(id: Seq<char>) -> Seq<char> {
    "owner_of_"@ + id
}

/// The key text of an approval of `spender` for a token.
pub open spec fn approval_key_text(id: Seq<char>, spender: Seq<char>) -> Seq<char> {
    "approval_"@ + id + "_"@ + spender
}

/// The storage key of a token's metadata record.
pub open spec fn token_info_key(id: Seq<char>) -> Seq<u8> {
    encode_utf8(token_info_key_text(id))
}

/// The storage key of a token's owner record.
pub open spec fn owner_key(id: Seq<char>) -> Seq<u8> {
    encode_utf8(owner_key_text(id))
}

/// The storage key of an approval of `spender` for a token.
pub open spec fn approval_key(id: Seq<char>, spender: Seq<char>) -> Seq<u8> {
    encode_utf8(approval_key_text(id, spender))
}

/// The key text of a token's record in cw721-base's `tokens` map: the
/// map's namespace after its length in two big-endian bytes, then the id.
pub open spec fn cw721_token_key_text(id: Seq<char>) -> Seq<char> {
    seq!['\0', '\u{6}'] + "tokens"@ + id
}

/// The storage key of a token's record in cw721-base's `tokens` map.
pub open spec fn cw721_token_key(id: Seq<char>) -> Seq<u8> {
    encode_utf8(cw721_token_key_text(id))
}

/// Two bytes holding `n`, the most significant first.
pub open spec fn be16(n: nat) -> Seq<u8> {
    seq![(n / 256) as u8, (n % 256) as u8]
}

/// The key of a token's entry in cw721-base's index of tokens by owner:
/// the index's namespace `tokens__owner` after its length in two bytes,
/// then the owner after its length in two bytes, then the token id.
pub open spec fn cw721_owner_index_key(owner: Seq<char>, id: Seq<char>) -> Seq<u8> {
    seq![0u8, 13u8] + encode_utf8("tokens__owner"@) + be16(encode_utf8(owner).len()) + encode_utf8(owner)
        + encode_utf8(id)
}

/// Whether cw721-base's record of a token in `c` reads, with an owner whose
/// bytes fit a two-byte length: then cw721-base indexes the token by owner.
pub open spec fn cw721_indexed(c: Map<Seq<u8>, Seq<u8>>, id: Seq<char>) -> bool {
    &&& c.dom().contains(cw721_token_key(id))
    &&& cw721_token_owner(c[cw721_token_key(id)]) matches Some(o)
    &&& encode_utf8(o).len() <= 0xFFFF
}

/// The entries of cw721-base's owner index that a token has in `c`: the one
/// under its owner, when cw721-base indexes it.
pub open spec fn cw721_index_keys(c: Map<Seq<u8>, Seq<u8>>, id: Seq<char>) -> Set<Seq<u8>> {
    if cw721_indexed(c, id) {
        set![cw721_owner_index_key(cw721_token_owner(c[cw721_token_key(id)])->Some_0, id)]
    } else {
        Set::empty()
    }
}

/// The storage key of the contract state.
pub open spec fn config_key() -> Seq<u8> {
    encode_utf8("config"@)
}

/// The storage key under which the contract object saves the state.
pub open spec fn contract_state_key() -> Seq<u8> {
    encode_utf8("contract_state"@)
}

/// The owner recorded for a token: the address its owner record holds;
/// without an owner record, the owner in cw721-base's record of the token;
/// nothing when neither record is there or the one read holds no owner.
pub open spec fn owner_of(c: Map<Seq<u8>, Seq<u8>>, id: Seq<char>) -> Option<Seq<char>> {
    if c.dom().contains(owner_key(id)) {
        wasm_json_addr(c[owner_key(id)])
    } else if c.dom().contains(cw721_token_key(id)) {
        cw721_token_owner(c[cw721_token_key(id)])
    } else {
        None
    }
}

/// A token's metadata record as read from storage: what bincode2 reads
/// from it, or nothing when there is no record.
pub open spec fn stored_token(c: Map<Seq<u8>, Seq<u8>>, id: Seq<char>) -> Option<TokenView> {
    if c.dom().contains(token_info_key(id)) {
        bincode2_token_decode(c[token_info_key(id)])
    } else {
        None
    }
}

/// The contract state as read from storage, or the error that reading it gives.
pub open spec fn state_in(c: Map<Seq<u8>, Seq<u8>>) -> Result<StateModel, ErrorModel> {
    if !c.dom().contains(config_key()) {
        Err(generic_error("State not found"@))
    } else {
        match bincode_state_decode(c[config_key()]) {
            Ok(m) => Ok(m),
            Err(t) => Err(generic_error("Failed to deserialize the state: "@ + t)),
        }
    }
}

/// A state read from storage.
pub open spec fn state_found(m: StateModel) -> Result<StateModel, ErrorModel> {
    Ok(m)
}

/// A failed read of the state, with its error.
pub open spec fn state_missing(e: ErrorModel) -> Result<StateModel, ErrorModel> {
    Err(e)
}

/// Whether an approval has run out at block height `height` and block time
/// `time` (nanoseconds): at or past its height or time; never, for one that
/// never ends.
pub open spec fn expired(e: Expiry, height: u64, time: u64) -> bool {
    match e {
        Expiry::AtHeight(h) => height >= h,
        Expiry::AtTime(t) => time >= t,
        Expiry::Never => false,
    }
}

/// Whether `spender` holds an approval for the token that is still running
/// at block height `height` and block time `time`: its approval record reads
/// as an approval of that spender that has not run out.
pub open spec fn approved_spender(
    c: Map<Seq<u8>, Seq<u8>>,
    id: Seq<char>,
    spender: Seq<char>,
    height: u64,
    time: u64,
) -> bool {
    &&& c.dom().contains(approval_key(id, spender))
    &&& bincode_approval_decode(c[approval_key(id, spender)]) matches Some(a)
    &&& a.0 == spender
    &&& !expired(a.1, height, time)
}

/// What the approval record of `spender` for a token holds: its spender
/// and expiration, when there is a record and it reads.
pub open spec fn approval_record(c: Map<Seq<u8>, Seq<u8>>, id: Seq<char>, spender: Seq<char>) -> Option<(Seq<char>, Expiry)> {
    if c.dom().contains(approval_key(id, spender)) {
        bincode_approval_decode(c[approval_key(id, spender)])
    } else {
        None
    }
}

/// Whether the token has an approval record for `spender`: one under the
/// key of that token and spender that reads as an approval of that same
/// spender. (A key such as `approval_a_b_x` is also the key of token `a_b`
/// and spender `x`; the spender the record names tells the two apart.)
pub open spec fn has_approval_record(c: Map<Seq<u8>, Seq<u8>>, id: Seq<char>, spender: Seq<char>) -> bool {
    approval_record(c, id, spender) matches Some(a) && a.0 == spender
}

/// The keys of the approval records the token has.
pub open spec fn token_approval_keys(c: Map<Seq<u8>, Seq<u8>>, id: Seq<char>) -> Set<Seq<u8>> {
    Set::new(
        |k: Seq<u8>| exists|spender: Seq<char>| k == approval_key(id, spender) && has_approval_record(c, id, spender),
    )
}

/// Different key texts give different storage keys.
pub proof fn lemma_key_injective(a: Seq<char>, b: Seq<char>)
    requires
        a != b,
    ensures
        encode_utf8(a) != encode_utf8(b),
{
    encode_utf8_decode_utf8(a);
    encode_utf8_decode_utf8(b);
}

/// The owner record, the metadata record and the approval records of tokens
/// never share a key with the contract state.
pub proof fn lemma_state_key_apart(id: Seq<char>, spender: Seq<char>)
    ensures
        config_key() != owner_key(id),
        config_key() != token_info_key(id),
        config_key() != approval_key(id, spender),
{
    reveal_strlit("config");
    reveal_strlit("owner_of_");
    reveal_strlit("token_info_");
    reveal_strlit("approval_");
    assert("config"@[0] != owner_key_text(id)[0]);
    assert("config"@[0] != token_info_key_text(id)[0]);
    assert("config"@[0] != approval_key_text(id, spender)[0]);
    lemma_key_injective("config"@, owner_key_text(id));
    lemma_key_injective("config"@, token_info_key_text(id));
    lemma_key_injective("config"@, approval_key_text(id, spender));
}

/// A token's owner record never shares a key with the metadata record, an
/// approval record or cw721-base's record of any token, nor with the owner
/// record of another token.
pub proof fn lemma_owner_key_apart(id: Seq<char>, other: Seq<char>, spender: Seq<char>)
    ensures
        owner_key(id) != token_info_key(other),
        owner_key(id) != approval_key(other, spender),
        owner_key(id) != cw721_token_key(other),
        id != other ==> owner_key(id) != owner_key(other),
{
    lemma_cw721_key_apart(other, id, spender);
    reveal_strlit("owner_of_");
    reveal_strlit("token_info_");
    reveal_strlit("approval_");
    assert(owner_key_text(id)[0] != token_info_key_text(other)[0]);
    assert(owner_key_text(id)[0] != approval_key_text(other, spender)[0]);
    lemma_key_injective(owner_key_text(id), token_info_key_text(other));
    lemma_key_injective(owner_key_text(id), approval_key_text(other, spender));
    if id != other {
        assert(owner_key_text(id).subrange(9, owner_key_text(id).len() as int) == id);
        assert(owner_key_text(other).subrange(9, owner_key_text(other).len() as int) == other);
        lemma_key_injective(owner_key_text(id), owner_key_text(other));
    }
}

/// A token's key in cw721-base's `tokens` map never equals a key of the
/// contract's own records, nor the key of another token in that map.
pub proof fn lemma_cw721_key_apart(id: Seq<char>, other: Seq<char>, spender: Seq<char>)
    ensures
        cw721_token_key(id) != owner_key(other),
        cw721_token_key(id) != token_info_key(other),
        cw721_token_key(id) != approval_key(other, spender),
        cw721_token_key(id) != config_key(),
        id != other ==> cw721_token_key(id) != cw721_token_key(other),
{
    reveal_strlit("owner_of_");
    reveal_strlit("token_info_");
    reveal_strlit("approval_");
    reveal_strlit("config");
    reveal_strlit("tokens");
    let t = cw721_token_key_text(id);
    assert(t[0] == '\0');
    assert(t[0] != owner_key_text(other)[0]);
    assert(t[0] != token_info_key_text(other)[0]);
    assert(t[0] != approval_key_text(other, spender)[0]);
    assert(t[0] != "config"@[0]);
    lemma_key_injective(t, owner_key_text(other));
    lemma_key_injective(t, token_info_key_text(other));
    lemma_key_injective(t, approval_key_text(other, spender));
    lemma_key_injective(t, "config"@);
    if id != other {
        let u = cw721_token_key_text(other);
        assert(t.subrange(8, t.len() as int) == id);
        assert(u.subrange(8, u.len() as int) == other);
        lemma_key_injective(t, u);
    }
}

/// No approval record of a token shares a key with the contract state, with
/// the owner record or the metadata record of any token, or with the key of
/// any token in cw721-base's `tokens` map.
pub proof fn lemma_apart_from_approvals(c: Map<Seq<u8>, Seq<u8>>, id: Seq<char>, other: Seq<char>)
    ensures
        !token_approval_keys(c, id).contains(config_key()),
        !token_approval_keys(c, id).contains(owner_key(other)),
        !token_approval_keys(c, id).contains(token_info_key(other)),
        !token_approval_keys(c, id).contains(cw721_token_key(other)),
{
    assert forall|spender: Seq<char>| approval_key(id, spender) != config_key() by {
        lemma_state_key_apart(id, spender);
    }
    assert forall|spender: Seq<char>| approval_key(id, spender) != owner_key(other) by {
        lemma_owner_key_apart(other, id, spender);
    }
    assert forall|spender: Seq<char>| approval_key(id, spender) != cw721_token_key(other) by {
        lemma_cw721_key_apart(other, id, spender);
    }
    assert forall|spender: Seq<char>| approval_key(id, spender) != token_info_key(other) by {
        lemma_info_key_not_approval(other, id, spender);
    }
}

/// A token's metadata record never shares a key with an approval record.
pub proof fn lemma_info_key_not_approval(id: Seq<char>, other: Seq<char>, spender: Seq<char>)
    ensures
        token_info_key(id) != approval_key(other, spender),
{
    reveal_strlit("token_info_");
    reveal_strlit("approval_");
    assert(token_info_key_text(id)[0] != approval_key_text(other, spender)[0]);
    lemma_key_injective(token_info_key_text(id), approval_key_text(other, spender));
}

/// The UTF-8 encoding of a text that begins with an ASCII character begins
/// with that character's byte.
pub proof fn lemma_ascii_first_byte(t: Seq<char>)
    requires
        t.len() > 0,
        (t[0] as u32) < 0x80,
    ensures
        encode_utf8(t).len() > 0,
        encode_utf8(t)[0] as u32 == t[0] as u32,
{
    let c0 = t[0] as u32;
    assert(has_width_1_encoding(c0));
    assert(c0 as u8 == leading_byte_width_1(c0)) by (bit_vector)
        requires
            has_width_1_encoding(c0),
    ;
    assert(encode_scalar(c0) == seq![leading_byte_width_1(c0)]);
    assert(encode_utf8(t) == encode_scalar(c0) + encode_utf8(t.drop_first()));
    assert(encode_utf8(t)[0] == leading_byte_width_1(c0));
}

/// A token's entry in cw721-base's owner index never shares a key with an
/// owner record, cw721-base's record of a token, or the contract state.
pub proof fn lemma_index_key_apart(owner: Seq<char>, id: Seq<char>, other: Seq<char>)
    ensures
        cw721_owner_index_key(owner, id) != owner_key(other),
        cw721_owner_index_key(owner, id) != cw721_token_key(other),
        cw721_owner_index_key(owner, id) != config_key(),
{
    reveal_strlit("owner_of_");
    reveal_strlit("config");
    reveal_strlit("tokens");
    let k = cw721_owner_index_key(owner, id);
    assert(k[0] == 0u8 && k[1] == 13u8);
    lemma_ascii_first_byte(owner_key_text(other));
    lemma_ascii_first_byte("config"@);
    let t = cw721_token_key_text(other);
    lemma_ascii_first_byte(t);
    assert(t.drop_first()[0] == '\u{6}');
    lemma_ascii_first_byte(t.drop_first());
    assert(encode_utf8(t) == encode_scalar(t[0] as u32) + encode_utf8(t.drop_first()));
    assert(has_width_1_encoding(t[0] as u32));
    assert(encode_scalar(t[0] as u32).len() == 1);
    assert(encode_utf8(t)[1] == encode_utf8(t.drop_first())[0]);
}

} // verus!
