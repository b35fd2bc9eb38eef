//! Responses handed back to the chain: built with CosmWasm's `Response`.

use crate::types::MyCustomMsg;
use cosmwasm_std::{Empty, Response};
use vstd::prelude::*;

verus! {

/// CosmWasm's empty custom-message type.
#[verifier::external_type_specification]
#[verifier::external_body]
pub struct ExEmpty(Empty);

/// CosmWasm's response to a contract call.
#[verifier::external_type_specification]
#[verifier::external_body]
#[verifier::reject_recursive_types(T)]
pub struct ExResponse<T>(Response<T>);

/// What a response carries, as far as this contract builds it: its
/// attributes in order, and how many messages and events it has and
/// whether it carries data.
pub struct ResponseView {
    pub attributes: Seq<(Seq<char>, Seq<char>)>,
    pub messages: nat,
    pub events: nat,
    pub has_data: bool,
}

/// A response that carries the given attributes and nothing else.
pub open spec fn plain_response(attributes: Seq<(Seq<char>, Seq<char>)>) -> ResponseView {
    ResponseView { attributes, messages: 0, events: 0, has_data: false }
}

/// What a response with no custom messages carries.
pub uninterp spec fn response_view(r: Response) -> ResponseView;

/// What a response of the contract's custom message type carries.
pub uninterp spec fn custom_response_view(r: Response<MyCustomMsg>) -> ResponseView;

/// `Response::new`: no messages, attributes, events or data.
#[verifier::external_body]
pub fn response_new() -> (res: Response)
    ensures
        response_view(res) == plain_response(Seq::empty()),
{
    Response::new()
}

/// Whether CosmWasm accepts `key` as an attribute key: `Attribute::new`
/// panics (in debug builds) on a key that starts with an underscore.
pub open spec fn attribute_key_allowed(key: Seq<char>) -> bool {
    key.len() == 0 || key[0] != '_'
}

/// `Response::add_attribute`: the attribute is appended; nothing else changes.
/// Keys starting with an underscore make `Attribute::new` panic and are left out.
#[verifier::external_body]
pub fn add_attribute(r: Response, key: &str, value: &str) -> (res: Response)
    requires
        attribute_key_allowed(key@),
    ensures
        response_view(res) == (ResponseView {
            attributes: response_view(r).attributes.push((key@, value@)),
            ..response_view(r)
        }),
{
    r.add_attribute(key, value)
}

/// `Response::new` for the contract's custom message type.
#[verifier::external_body]
pub fn custom_response_new() -> (res: Response<MyCustomMsg>)
    ensures
        custom_response_view(res) == plain_response(Seq::empty()),
{
    Response::new()
}

/// `Response::add_attribute` for the contract's custom message type. Keys
/// starting with an underscore make `Attribute::new` panic and are left out.
#[verifier::external_body]
pub fn custom_add_attribute(r: Response<MyCustomMsg>, key: &str, value: &str) -> (res: Response<
    MyCustomMsg,
>)
    requires
        attribute_key_allowed(key@),
    ensures
        custom_response_view(res) == (ResponseView {
            attributes: custom_response_view(r).attributes.push((key@, value@)),
            ..custom_response_view(r)
        }),
{
    r.add_attribute(key, value)
}

/// The attribute keys the contract uses are all accepted.
pub proof fn lemma_attribute_keys()
    ensures
        attribute_key_allowed("action"@),
        attribute_key_allowed("minter"@),
        attribute_key_allowed("token_id"@),
        attribute_key_allowed("burner"@),
        attribute_key_allowed("sender"@),
        attribute_key_allowed("recipient"@),
        attribute_key_allowed("spender"@),
{
    reveal_strlit("action");
    reveal_strlit("minter");
    reveal_strlit("token_id");
    reveal_strlit("burner");
    reveal_strlit("sender");
    reveal_strlit("recipient");
    reveal_strlit("spender");
}

} // verus!
