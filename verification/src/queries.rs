//! The standard NFT queries of the contract object. Token owners and token
//! lists are read from storage, and lists come in pages; the operator
//! queries answer with fixed values.

use crate::codec::{approval_list_view, TokenView};
use crate::listing::{lemma_listing_len, list_tokens, texts, tokens_listed};
use crate::paging::{is_page, opt_text, page};
use crate::records::{owner_of, state_in, stored_token};
use crate::song::{
    get_owner_of_token, load_state, query_number_of_tokens_owned_by, query_state, read_token_info,
    shown_approvals, spenders_of, token_approvals,
};
use crate::storage::contents;
use crate::types::{
    generic_error, AllNftInfo, ApprovalInfo, ContractInfo, DetailedNftInfoResponse, ErrorModel,
    Expiry, MyCw721, MyCw721ContractState, MyCw721QueryMsg, MyStdError, NftInfo, OwnerInfo,
};
use cosmwasm_std::MemoryStorage;
use vstd::prelude::*;

verus! {

/// The text an optional string holds.
pub open spec fn opt_string_view(o: Option<String>) -> Option<Seq<char>> {
    match o {
        Some(s) => Some(s@),
        None => None,
    }
}

/// The URI a token record holds, if there is a record.
pub open spec fn uri_of(record: Option<TokenView>) -> Option<Seq<char>> {
    match record {
        Some(r) => r.2,
        None => None,
    }
}

/// The size of a page of tokens: `limit` when given, 10 otherwise, and
/// never more than 100.
pub open spec fn page_limit(limit: Option<u32>) -> nat {
    let l: u32 = match limit {
        Some(l) => l,
        None => 10,
    };
    if l > 100 {
        100
    } else {
        l as nat
    }
}

/// The size of a page of tokens.
fn page_size(limit: Option<u32>) -> (res: usize)
    ensures
        res == page_limit(limit),
{
    let l: u32 = match limit {
        Some(l) => l,
        None => 10,
    };
    if l > 100 {
        100
    } else {
        l as usize
    }
}

/// `approvals` are the approvals shown for a token: one per spender with an
/// approval record that reads (taking the spenders in some order), leaving
/// out those that have run out unless `include_expired` is set.
pub open spec fn shows_approvals(
    c: Map<Seq<u8>, Seq<u8>>,
    id: Seq<char>,
    approvals: Seq<ApprovalInfo>,
    include_expired: bool,
    height: u64,
    time: u64,
) -> bool {
    exists|spenders: Seq<Seq<char>>|
        spenders_of(c, id, spenders) && approval_list_view(approvals) == shown_approvals(
            c,
            id,
            spenders,
            include_expired,
            height,
            time,
        )
}

/// The approval every fixed answer names: `operator_address`, never ending.
pub open spec fn is_operator_placeholder(a: ApprovalInfo) -> bool {
    a.spender@ == "operator_address"@ && a.expires == Expiry::Never
}

/// The approval naming `operator_address`, never ending.
fn operator_placeholder() -> (res: ApprovalInfo)
    ensures
        is_operator_placeholder(res),
{
    ApprovalInfo { spender: "operator_address".to_string(), expires: Expiry::Never }
}

impl MyCw721 {
    /// The contract's name and symbol: `MyToken`, `MTK`.
    pub fn contract_info(&self) -> (res: Result<ContractInfo, MyStdError>)
        ensures
            res matches Ok(info) && info.name@ == "MyToken"@ && info.symbol@ == "MTK"@,
    {
        let response = ContractInfo { name: "MyToken".to_string(), symbol: "MTK".to_string() };
        Ok(response)
    }

    /// The number of tokens that have an owner.
    pub fn num_tokens(&self, storage: &MemoryStorage) -> (res: Result<u64, MyStdError>)
        ensures
            res matches Ok(n) && n == tokens_listed(contents(*storage), None).len(),
    {
        let all = list_tokens(storage, None);
        proof {
            lemma_listing_len(texts(all@), contents(*storage), None);
        }
        Ok(all.len() as u64)
    }

    /// A token's URI, as its metadata record holds it (none without a
    /// record that reads), and the numeric extension, which is 0. A token
    /// without an owner is not found.
    pub fn nft_info(&self, storage: &MemoryStorage, token_id: String) -> (res: Result<NftInfo, MyStdError>)
        ensures
            owner_of(contents(*storage), token_id@) is Some ==> (res matches Ok(info) && opt_string_view(
                info.token_uri,
            ) == uri_of(stored_token(contents(*storage), token_id@)) && info.extension == 0),
            owner_of(contents(*storage), token_id@) is None ==> (res matches Err(e) && e@ == ErrorModel::NotFound),
    {
        match get_owner_of_token(storage, token_id.as_str()) {
            Ok(Some(_)) => {
                let token_uri = match read_token_info(storage, token_id.as_str()) {
                    Ok(Some(record)) => record.token_uri,
                    _ => None,
                };
                Ok(NftInfo { token_uri, extension: 0 })
            },
            _ => Err(MyStdError::NotFound),
        }
    }

    /// A token's recorded owner, with its approvals: one per spender with
    /// an approval record that reads, leaving out those that have run out at
    /// block height `height` and block time `time` unless `include_expired`
    /// is set. A token without an owner is not found.
    pub fn owner_of(
        &self,
        storage: &MemoryStorage,
        token_id: String,
        include_expired: bool,
        height: u64,
        time: u64,
    ) -> (res: Result<OwnerInfo, MyStdError>)
        ensures
            owner_of(contents(*storage), token_id@) matches Some(a) ==> (res matches Ok(info) && info.owner@ == a
                && shows_approvals(contents(*storage), token_id@, info.approvals@, include_expired, height, time)),
            owner_of(contents(*storage), token_id@) is None ==> (res matches Err(e) && e@ == ErrorModel::NotFound),
    {
        match get_owner_of_token(storage, token_id.as_str()) {
            Ok(Some(owner)) => {
                let approvals = token_approvals(storage, token_id.as_str(), include_expired, height, time);
                Ok(OwnerInfo { owner, approvals })
            },
            _ => Err(MyStdError::NotFound),
        }
    }

    /// One approval of a token: not provided.
    pub fn approval(&self, token_id: String, spender: String, include_expired: bool) -> (res: Result<
        ApprovalInfo,
        MyStdError,
    >)
        ensures
            res matches Err(e) && e@ == generic_error("Method not implemented"@),
    {
        Err(MyStdError::generic("Method not implemented"))
    }

    /// All approvals of a token: not provided.
    pub fn approvals(&self, token_id: String, include_expired: bool) -> (res: Result<Vec<ApprovalInfo>, MyStdError>)
        ensures
            res matches Err(e) && e@ == generic_error("Method not implemented"@),
    {
        Err(MyStdError::generic("Method not implemented"))
    }

    /// An operator of an owner: `operator_address`, never ending.
    pub fn operator(&self, owner: String, operator: String, include_expired: bool) -> (res: Result<
        ApprovalInfo,
        MyStdError,
    >)
        ensures
            res matches Ok(a) && is_operator_placeholder(a),
    {
        Ok(operator_placeholder())
    }

    /// The operators of an owner: just `operator_address`, never ending.
    pub fn operators(
        &self,
        owner: String,
        include_expired: bool,
        start_after: Option<String>,
        limit: Option<u32>,
    ) -> (res: Result<Vec<ApprovalInfo>, MyStdError>)
        ensures
            res matches Ok(v) && v@.len() == 1 && is_operator_placeholder(v@[0]),
    {
        let mut operators: Vec<ApprovalInfo> = Vec::new();
        operators.push(operator_placeholder());
        Ok(operators)
    }

    /// A page of the tokens whose recorded owner is `owner`: those after
    /// `start_after`, in ascending order, at most `limit` (10 when not given,
    /// never more than 100).
    pub fn tokens(
        &self,
        storage: &MemoryStorage,
        owner: String,
        start_after: Option<String>,
        limit: Option<u32>,
    ) -> (res: Result<Vec<String>, MyStdError>)
        ensures
            res matches Ok(v) && is_page(
                texts(v@),
                tokens_listed(contents(*storage), Some(owner@)),
                opt_text(start_after),
                page_limit(limit),
            ),
    {
        let all = list_tokens(storage, Some(owner.as_str()));
        let size = page_size(limit);
        let res = page(&all, &start_after, size);
        proof {
            assert(texts(all@).to_set() =~= tokens_listed(contents(*storage), Some(owner@)));
        }
        Ok(res)
    }

    /// A page of the tokens that have an owner: those after `start_after`,
    /// in ascending order, at most `limit` (10 when not given, never more
    /// than 100).
    pub fn all_tokens(&self, storage: &MemoryStorage, start_after: Option<String>, limit: Option<u32>) -> (res: Result<
        Vec<String>,
        MyStdError,
    >)
        ensures
            res matches Ok(v) && is_page(
                texts(v@),
                tokens_listed(contents(*storage), None),
                opt_text(start_after),
                page_limit(limit),
            ),
    {
        let all = list_tokens(storage, None);
        let size = page_size(limit);
        let res = page(&all, &start_after, size);
        proof {
            assert(texts(all@).to_set() =~= tokens_listed(contents(*storage), None));
        }
        Ok(res)
    }

    /// Everything about a token: its owner, as `owner_of` answers, and its
    /// URI and extension, as `nft_info` answers.
    pub fn all_nft_info(
        &self,
        storage: &MemoryStorage,
        token_id: String,
        include_expired: bool,
        height: u64,
        time: u64,
    ) -> (res: Result<AllNftInfo, MyStdError>)
        ensures
            owner_of(contents(*storage), token_id@) matches Some(a) ==> (res matches Ok(x) && x.access.owner@ == a
                && shows_approvals(contents(*storage), token_id@, x.access.approvals@, include_expired, height, time)
                && opt_string_view(x.info.token_uri) == uri_of(
                stored_token(contents(*storage), token_id@),
            ) && x.info.extension == 0),
            owner_of(contents(*storage), token_id@) is None ==> (res matches Err(e) && e@ == ErrorModel::NotFound),
    {
        let access = self.owner_of(storage, token_id.clone(), include_expired, height, time)?;
        let info = self.nft_info(storage, token_id)?;
        Ok(AllNftInfo { access, info })
    }
}

/// The album-wide artist and album, from the stored state, with a token's
/// track name, from its metadata record. A failed read of the state comes
/// back as its error; a token without a metadata record that reads is not
/// found.
pub fn detailed_nft_info(storage: &MemoryStorage, token_id: &str) -> (res: Result<DetailedNftInfoResponse, MyStdError>)
    ensures
        state_in(contents(*storage)) matches Err(e) ==> (res matches Err(x) && x@ == e),
        state_in(contents(*storage)) matches Ok(m) ==> match stored_token(contents(*storage), token_id@) {
            None => res matches Err(e) && e@ == ErrorModel::NotFound,
            Some(t) => res matches Ok(d) && d.global_artist@ == m.artist && d.global_album@ == m.album
                && d.token_track_name@ == t.3.track_name,
        },
{
    let state = load_state(storage)?;
    match read_token_info(storage, token_id) {
        Ok(Some(record)) => Ok(
            DetailedNftInfoResponse {
                global_artist: state.artist,
                global_album: state.album,
                token_track_name: record.extension.track_name,
            },
        ),
        _ => Err(MyStdError::NotFound),
    }
}

/// The answer to one of the contract's own queries.
pub enum CustomQueryAnswer {
    State(MyCw721ContractState),
    Count(u64),
    Detail(DetailedNftInfoResponse),
}

/// Answers one of the contract's own queries: the stored state, the number
/// of tokens an owner holds, or the details of a token.
pub fn query_custom(storage: &MemoryStorage, msg: MyCw721QueryMsg) -> (res: Result<CustomQueryAnswer, MyStdError>)
    ensures
        msg is ContractState ==> match state_in(contents(*storage)) {
            Ok(m) => res matches Ok(CustomQueryAnswer::State(s)) && s@ == m,
            Err(e) => res matches Err(x) && x@ == e,
        },
        msg matches MyCw721QueryMsg::NumberOfTokensOwnedBy { owner } ==> match state_in(contents(*storage)) {
            Ok(_) => res matches Ok(CustomQueryAnswer::Count(n)) && n == tokens_listed(
                contents(*storage),
                Some(owner@),
            ).len(),
            Err(e) => res matches Err(x) && x@ == e,
        },
        msg matches MyCw721QueryMsg::DetailedNftInfo { token_id } ==> match state_in(contents(*storage)) {
            Err(e) => res matches Err(x) && x@ == e,
            Ok(m) => match stored_token(contents(*storage), token_id@) {
                None => res matches Err(e) && e@ == ErrorModel::NotFound,
                Some(t) => res matches Ok(CustomQueryAnswer::Detail(d)) && d.global_artist@ == m.artist
                    && d.global_album@ == m.album && d.token_track_name@ == t.3.track_name,
            },
        },
{
    match msg {
        MyCw721QueryMsg::ContractState {} => {
            let state = query_state(storage)?;
            Ok(CustomQueryAnswer::State(state))
        },
        MyCw721QueryMsg::NumberOfTokensOwnedBy { owner } => {
            let n = query_number_of_tokens_owned_by(storage, owner.as_str())?;
            Ok(CustomQueryAnswer::Count(n))
        },
        MyCw721QueryMsg::DetailedNftInfo { token_id } => {
            let detail = detailed_nft_info(storage, token_id.as_str())?;
            Ok(CustomQueryAnswer::Detail(detail))
        },
    }
}

} // verus!
