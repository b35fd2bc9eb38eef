//! A song NFT contract: tokens carrying song metadata, kept in a CosmWasm
//! key-value store, with ownership, approvals and contract-wide state; and
//! a single-token contract that keeps one NFT as JSON.

pub mod storage;
pub mod types;
pub mod codec;
pub mod response;
pub mod ownership;
pub mod records;
pub mod song;
pub mod contract;
pub mod nft;
pub mod queries;
pub mod listing;
pub mod paging;
pub mod laws;

pub use contract::instantiate;
pub use nft::{handle, init, query, HandleMsg, InitMsg, Metadata, QueryMsg, NFT};
pub use song::{
    get_all_approvals_for_token, get_all_tokens_by_owner, get_owner_of_token, load_state, may_load,
    query_owner, query_state, read_token_info, remove_approval, save_all_approvals, save_approval,
    save_state, save_token_info, save_token_owner, set_owner_of_token, update_total_supply,
};
pub use types::{
    AllNftInfo, ApprovalInfo, Config, ContractError, ContractInfo, CustomMsgType,
    DetailedNftInfoResponse, Expiry, HumanAddrWrapper, InstantiateMsg, MyCustomMsg, MyCw721,
    MyCw721ContractState, MyCw721QueryMsg, MyStdError, NftInfo, OwnerInfo, SongMetadata, TokenRecord,
};
