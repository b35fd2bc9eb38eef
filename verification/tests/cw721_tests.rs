use cosmwasm_std::testing::{mock_dependencies, mock_env, mock_info};
use cosmwasm_std::{coins, Addr};
use cw721_base::entry::execute;
use cw721_base::ExecuteMsg;
use cw_ownable::initialize_owner;
use song_contract::{get_owner_of_token, query_owner, MyCw721};

fn mock_addresses() -> [Addr; 3] {
    [
        Addr::unchecked("addr0000"),
        Addr::unchecked("addr1111"),
        Addr::unchecked("addr2222"),
    ]
}

#[test]
fn test_mint() {
    let mut deps = mock_dependencies();
    let env = mock_env();
    let info = mock_info("creator", &coins(0, "ust"));

    let init_res = initialize_owner(&mut deps.storage, &deps.api, Some("creator"));
    assert!(init_res.is_ok(), "Initialization failed: {:?}", init_res.err());

    let mint_msg = ExecuteMsg::Mint {
        token_id: "token123".into(),
        owner: "owner123".into(),
        token_uri: Some("uri".into()),
        extension: None,
    };
    let mint_res = execute(deps.as_mut(), env.clone(), info.clone(), mint_msg);
    assert!(mint_res.is_ok(), "Minting failed: {:?}", mint_res.err());

    let owner = get_owner_of_token(&deps.storage, "token123").expect("Failed to get owner of token");
    assert_eq!(owner, Some(Addr::unchecked("owner123").to_string()), "Owner mismatch");
}

#[test]
fn test_transfer_nft() {
    let mut deps = mock_dependencies();
    let env = mock_env();
    let [owner, recipient, _] = mock_addresses();
    let info = mock_info(owner.as_str(), &coins(0, "ust"));

    let init_res = initialize_owner(&mut deps.storage, &deps.api, Some(owner.as_str()));
    assert!(init_res.is_ok(), "Initialization failed: {:?}", init_res.err());

    let mint_msg = ExecuteMsg::Mint {
        token_id: "token123".into(),
        owner: owner.to_string(),
        token_uri: Some("uri".into()),
        extension: None,
    };
    let mint_res = execute(deps.as_mut(), env.clone(), info.clone(), mint_msg);
    assert!(mint_res.is_ok(), "Minting failed: {:?}", mint_res.err());

    let initial_owner = get_owner_of_token(&deps.storage, "token123").expect("Failed to get initial owner");
    assert_eq!(initial_owner, Some(owner.to_string()), "Initial owner mismatch");

    let transfer_msg = ExecuteMsg::TransferNft {
        recipient: recipient.to_string(),
        token_id: "token123".into(),
    };
    let transfer_res = execute(deps.as_mut(), env.clone(), info.clone(), transfer_msg);
    assert!(transfer_res.is_ok(), "Transfer failed: {:?}", transfer_res.err());

    let new_owner = get_owner_of_token(&deps.storage, "token123").expect("Failed to get new owner");
    assert_eq!(new_owner, Some(recipient.to_string()), "New owner mismatch");
}

#[test]
fn owner_record_takes_precedence_and_burn_drops_both() {
    let mut deps = mock_dependencies();
    let env = mock_env();
    let info = mock_info("creator", &coins(0, "ust"));
    initialize_owner(&mut deps.storage, &deps.api, Some("creator")).unwrap();
    let mint_msg = ExecuteMsg::Mint {
        token_id: "t".into(),
        owner: "creator".into(),
        token_uri: None,
        extension: None,
    };
    execute(deps.as_mut(), env, info, mint_msg).unwrap();
    let contract = MyCw721::default();
    assert_eq!(contract.tokens(&deps.storage, "creator".into(), None, None).unwrap(), vec!["t".to_string()]);
    contract.transfer_nft(&mut deps.storage, &"creator".to_string(), "bob".into(), "t".into(), 0, 0).unwrap_err();
    song_contract::save_token_owner(&mut deps.storage, "t", "carol").unwrap();
    assert_eq!(query_owner(&deps.storage, "t").unwrap(), Some("carol".to_string()));
    assert_eq!(contract.num_tokens(&deps.storage).unwrap(), 1);
    let owned = |deps: &cosmwasm_std::OwnedDeps<_, _, _>| -> Vec<String> {
        let msg = cw721_base::QueryMsg::<cosmwasm_std::Empty>::Tokens { owner: "creator".into(), start_after: None, limit: None };
        let bin = cw721_base::entry::query(deps.as_ref(), mock_env(), msg).unwrap();
        cosmwasm_std::from_binary::<cw721::TokensResponse>(&bin).unwrap().tokens
    };
    assert_eq!(owned(&deps), vec!["t".to_string()]);
    contract.burn(&mut deps.storage, &"carol".to_string(), "t".into()).unwrap();
    assert_eq!(query_owner(&deps.storage, "t").unwrap(), None);
    assert!(owned(&deps).is_empty());
}
