use song_contract::queries::{query_custom, CustomQueryAnswer};
use song_contract::MyCw721QueryMsg;
use cosmwasm_std::{Addr, MemoryStorage, Order, Storage};
use song_contract::codec::{json_string, wasm_json_string};
use song_contract::{
    get_all_approvals_for_token, get_all_tokens_by_owner, get_owner_of_token, instantiate,
    load_state, may_load, query_owner, query_state, read_token_info, remove_approval,
    save_all_approvals, save_approval, save_state, save_token_info, save_token_owner,
    set_owner_of_token, update_total_supply, Expiry, HumanAddrWrapper, InstantiateMsg,
    MyCustomMsg, MyCw721, MyCw721ContractState, MyStdError, SongMetadata, ApprovalInfo, TokenRecord,
};

fn dump(storage: &MemoryStorage) -> Vec<(Vec<u8>, Vec<u8>)> {
    storage.range(None, None, Order::Ascending).collect()
}

fn sample_init_msg() -> InstantiateMsg {
    InstantiateMsg {
        initial_owner: Some(HumanAddrWrapper::from("creator")),
        artist: "ArtistName".into(),
        album: "AlbumName".into(),
        artwork_url: "http://example.com/artwork.png".into(),
        year: 2021,
        track_name: "Track Name".into(),
        audio_track_url: "http://example.com/audio.mp3".into(),
        token_name: "TokenName".into(),
        token_symbol: "TKN".into(),
        platform_fee: Some(0),
    }
}

fn sample_song() -> SongMetadata {
    SongMetadata {
        artist: "ab".into(),
        album: "c".into(),
        artwork_url: "".into(),
        year: 258,
        track_name: "t".into(),
        audio_track_url: "u".into(),
    }
}

fn le(n: u64, width: usize) -> Vec<u8> {
    n.to_le_bytes()[..width].to_vec()
}

fn bin_str(s: &str) -> Vec<u8> {
    let mut out = le(s.len() as u64, 8);
    out.extend_from_slice(s.as_bytes());
    out
}

fn set_up() -> MemoryStorage {
    let mut storage = MemoryStorage::new();
    instantiate(&mut storage, &"creator".to_string(), sample_init_msg()).unwrap();
    storage
}

fn mint(storage: &mut MemoryStorage, token_id: &str) {
    let mut contract = MyCw721::default();
    let me = "contract".to_string();
    contract.mint_nft(storage, &me, &me, sample_song(), token_id.to_string()).unwrap();
}

#[test]
fn test_initialization() {
    let mut storage = MemoryStorage::new();
    let init_msg = sample_init_msg();
    println!("Debug Step 1 - init_msg: {:?}", init_msg);
    let instantiate_result = instantiate(&mut storage, &"creator".to_string(), init_msg.clone());
    println!("Debug Step 2 - instantiate_result: {:?}", instantiate_result);
    assert!(
        instantiate_result.is_ok(),
        "Failed to instantiate the contract: {:?}",
        instantiate_result.unwrap_err()
    );
    let config_result = load_state(&storage);
    println!("Debug Step 3 - config_result: {:?}", config_result);
    assert!(config_result.is_ok(), "Failed to load config: {:?}", config_result.unwrap_err());
    let real_config = config_result.unwrap();
    assert_eq!(real_config.artist, init_msg.artist);
    assert_eq!(real_config.album, init_msg.album);
    assert_eq!(real_config.artwork_url, init_msg.artwork_url);
    assert_eq!(real_config.year, init_msg.year as u32);
    assert_eq!(real_config.track_name, init_msg.track_name);
    assert_eq!(real_config.audio_track_url, init_msg.audio_track_url);
    assert_eq!(real_config.token_name, init_msg.token_name);
    assert_eq!(real_config.token_symbol, init_msg.token_symbol);
    assert_eq!(real_config.platform_fee, init_msg.platform_fee);
    let ownership_result = cw_ownable::get_ownership(&storage);
    println!("Debug Step 4 - ownership_result: {:?}", ownership_result);
    assert!(ownership_result.is_ok(), "Failed to get ownership: {:?}", ownership_result.unwrap_err());
    let ownership = ownership_result.unwrap();
    assert_eq!(ownership.owner.unwrap(), Addr::unchecked("creator"));
}

#[test]
fn test_initialize_ownership() {
    let mut storage = MemoryStorage::new();
    let init_msg = sample_init_msg();
    let instantiate_res = instantiate(&mut storage, &"creator".to_string(), init_msg);
    assert!(instantiate_res.is_ok());
    let ownership = cw_ownable::get_ownership(&storage).unwrap();
    assert_eq!(ownership.owner.unwrap(), Addr::unchecked("creator"));
}

#[test]
fn instantiate_stores_version_and_zero_supply() {
    let storage = set_up();
    let state = query_state(&storage).unwrap();
    assert_eq!(state.version, "1.0");
    assert_eq!(state.total_supply, 0);
}

#[test]
fn instantiate_with_a_refused_address_keeps_the_state() {
    let mut storage = MemoryStorage::new();
    let res = instantiate(&mut storage, &"ab".to_string(), sample_init_msg());
    assert_eq!(
        res.unwrap_err(),
        MyStdError::Other(
            "Generic error: Invalid input: human address too short for this mock implementation (must be >= 3)."
                .to_string()
        )
    );
    assert_eq!(load_state(&storage).unwrap().artist, "ArtistName");
    assert!(cw_ownable::get_ownership(&storage).is_err());
}

#[test]
fn state_is_stored_in_bincode_layout() {
    let mut storage = MemoryStorage::new();
    let state = MyCw721ContractState {
        version: "v".into(),
        total_supply: 258,
        artist: "a".into(),
        album: "".into(),
        artwork_url: "w".into(),
        year: 7,
        track_name: "t".into(),
        audio_track_url: "u".into(),
        token_name: "n".into(),
        token_symbol: "s".into(),
        platform_fee: Some(1),
    };
    save_state(&mut storage, &state).unwrap();
    let mut expected = bin_str("v");
    expected.extend(le(258, 8));
    expected.extend(bin_str("a"));
    expected.extend(bin_str(""));
    expected.extend(bin_str("w"));
    expected.extend(le(7, 4));
    expected.extend(bin_str("t"));
    expected.extend(bin_str("u"));
    expected.extend(bin_str("n"));
    expected.extend(bin_str("s"));
    expected.extend([1u8]);
    expected.extend(le(1, 8));
    assert_eq!(storage.get(b"config").unwrap(), expected);
    assert_eq!(load_state(&storage).unwrap(), state);
}

#[test]
fn load_state_errors() {
    let mut storage = MemoryStorage::new();
    assert_eq!(load_state(&storage).unwrap_err(), MyStdError::Other("Generic error: State not found".into()));
    storage.set(b"config", &[1, 2, 3]);
    match load_state(&storage).unwrap_err() {
        MyStdError::Other(text) => assert!(text.starts_with("Generic error: Failed to deserialize the state: ")),
        other => panic!("unexpected {:?}", other),
    }
}

#[test]
fn update_total_supply_sets_the_supply() {
    let mut storage = set_up();
    update_total_supply(&mut storage, 42).unwrap();
    let state = load_state(&storage).unwrap();
    assert_eq!(state.total_supply, 42);
    assert_eq!(state.artist, "ArtistName");
    let mut empty = MemoryStorage::new();
    assert!(update_total_supply(&mut empty, 1).is_err());
    assert!(dump(&empty).is_empty());
}

#[test]
fn may_load_reads_raw_bytes_and_refuses_bad_keys() {
    let mut storage = MemoryStorage::new();
    assert_eq!(may_load(&storage, b"k").unwrap(), None);
    storage.set(b"k", b"v");
    assert_eq!(may_load(&storage, b"k").unwrap(), Some(b"v".to_vec()));
    assert_eq!(
        may_load(&storage, &[0xff, 0xfe]).unwrap_err(),
        MyStdError::Other("Generic error: Invalid UTF-8 sequence".into())
    );
}

#[test]
fn owner_records_read_back() {
    let mut storage = MemoryStorage::new();
    assert_eq!(get_owner_of_token(&storage, "t1").unwrap(), None);
    save_token_owner(&mut storage, "t1", "alice").unwrap();
    assert_eq!(storage.get(b"owner_of_t1").unwrap(), b"\"alice\"".to_vec());
    assert_eq!(get_owner_of_token(&storage, "t1").unwrap(), Some("alice".to_string()));
    set_owner_of_token(&mut storage, &"t1".to_string(), &"bob".to_string()).unwrap();
    assert_eq!(query_owner(&storage, "t1").unwrap(), Some("bob".to_string()));
    storage.set(b"owner_of_t2", b"not json");
    assert_eq!(get_owner_of_token(&storage, "t2").unwrap(), None);
}

#[test]
fn mint_only_by_the_contract() {
    let mut storage = set_up();
    let before = dump(&storage);
    let mut contract = MyCw721::default();
    let res = contract.mint_nft(&mut storage, &"contract".to_string(), &"someone".to_string(), sample_song(), "t1".into());
    assert_eq!(res.unwrap_err(), MyStdError::PermissionDenied);
    assert_eq!(dump(&storage), before);
}

#[test]
fn mint_records_the_token_and_its_owner() {
    let mut storage = set_up();
    let mut contract = MyCw721::default();
    let me = "contract".to_string();
    let res = contract.mint_nft(&mut storage, &me, &me, sample_song(), "t1".into()).unwrap();
    let attrs: Vec<(String, String)> = res.attributes.iter().map(|a| (a.key.clone(), a.value.clone())).collect();
    assert_eq!(
        attrs,
        vec![
            ("action".to_string(), "mint".to_string()),
            ("minter".to_string(), "contract".to_string()),
            ("token_id".to_string(), "t1".to_string()),
        ]
    );
    assert_eq!(get_owner_of_token(&storage, "t1").unwrap(), Some("contract".to_string()));
    let mut expected = bin_str("contract");
    expected.extend(le(0, 8));
    expected.push(0);
    expected.extend(bin_str("ab"));
    expected.extend(bin_str("c"));
    expected.extend(bin_str(""));
    expected.extend(le(258, 4));
    expected.extend(bin_str("t"));
    expected.extend(bin_str("u"));
    assert_eq!(storage.get(b"token_info_t1"), Some(expected));
    let record = read_token_info(&storage, "t1").unwrap().unwrap();
    assert_eq!(record.owner, "contract");
    assert!(record.approvals.is_empty());
    assert_eq!(record.token_uri, None);
    assert_eq!(format!("{:?}", record.extension), format!("{:?}", sample_song()));
    assert_eq!(load_state(&storage).unwrap().total_supply, 1);
}

#[test]
fn mint_without_state_fails_after_writing_the_token() {
    let mut storage = MemoryStorage::new();
    let mut contract = MyCw721::default();
    let me = "contract".to_string();
    let res = contract.mint_nft(&mut storage, &me, &me, sample_song(), "t1".into());
    assert_eq!(res.unwrap_err(), MyStdError::Other("Generic error: State not found".into()));
    assert!(read_token_info(&storage, "t1").unwrap().is_some());
    assert_eq!(get_owner_of_token(&storage, "t1").unwrap(), None);
    assert_eq!(dump(&storage).len(), 1);
}

#[test]
fn transfer_rules() {
    let mut storage = set_up();
    let contract = MyCw721::default();
    let res = contract.transfer_nft(&mut storage, &"alice".to_string(), "bob".into(), "t1".into(), 0, 0);
    assert_eq!(res.unwrap_err(), MyStdError::NotFound);
    mint(&mut storage, "t1");
    mint(&mut storage, "t2");
    let res = contract.transfer_nft(&mut storage, &"alice".to_string(), "bob".into(), "t1".into(), 0, 0);
    assert_eq!(res.unwrap_err(), MyStdError::Unauthorized);
    let res = contract.transfer_nft(&mut storage, &"contract".to_string(), "bob".into(), "t1".into(), 0, 0).unwrap();
    assert!(res.attributes.is_empty());
    assert_eq!(get_owner_of_token(&storage, "t1").unwrap(), Some("bob".to_string()));
    assert_eq!(get_owner_of_token(&storage, "t2").unwrap(), Some("contract".to_string()));
}

#[test]
fn burn_rules() {
    let mut storage = set_up();
    let mut contract = MyCw721::default();
    let res = contract.burn_nft(&mut storage, &"contract".to_string(), "t1".into());
    assert_eq!(res.unwrap_err(), MyStdError::Other("Token does not exist".into()));
    mint(&mut storage, "t1");
    let res = contract.burn_nft(&mut storage, &"alice".to_string(), "t1".into());
    assert_eq!(res.unwrap_err(), MyStdError::PermissionDenied);
    assert!(contract.burn_nft(&mut storage, &"contract".to_string(), "t1".into()).is_ok());
    let res = contract.burn_nft(&mut storage, &"contract".to_string(), "t1".into());
    assert_eq!(res.unwrap_err(), MyStdError::Other("Token does not exist".into()));
}

#[test]
fn burn_without_state_still_drops_the_token() {
    let mut storage = MemoryStorage::new();
    save_token_owner(&mut storage, "t1", "alice").unwrap();
    save_approval(&mut storage, "t1", "bob", None).unwrap();
    let mut contract = MyCw721::default();
    let res = contract.burn_nft(&mut storage, &"alice".to_string(), "t1".into());
    assert_eq!(res.unwrap_err(), MyStdError::Other("Generic error: State not found".into()));
    assert!(dump(&storage).is_empty());
}

#[test]
fn burn_drops_the_token_and_lowers_the_supply() {
    let mut storage = set_up();
    update_total_supply(&mut storage, 5).unwrap();
    mint(&mut storage, "t1");
    save_approval(&mut storage, "t1", "bob", None).unwrap();
    save_approval(&mut storage, "t1", "carol", None).unwrap();
    save_approval(&mut storage, "t10", "dave", None).unwrap();
    let mut spenders = get_all_approvals_for_token(&storage, "t1").unwrap();
    spenders.sort();
    assert_eq!(spenders, vec!["bob".to_string(), "carol".to_string()]);
    let mut contract = MyCw721::default();
    let res = contract.burn_nft(&mut storage, &"contract".to_string(), "t1".into()).unwrap();
    let attrs: Vec<(String, String)> = res.attributes.iter().map(|a| (a.key.clone(), a.value.clone())).collect();
    assert_eq!(
        attrs,
        vec![
            ("action".to_string(), "burn".to_string()),
            ("burner".to_string(), "contract".to_string()),
            ("token_id".to_string(), "t1".to_string()),
        ]
    );
    assert_eq!(get_owner_of_token(&storage, "t1").unwrap(), None);
    assert!(read_token_info(&storage, "t1").unwrap().is_none());
    assert!(storage.get(b"approval_t1_bob").is_none());
    assert!(storage.get(b"approval_t1_carol").is_none());
    assert!(storage.get(b"approval_t10_dave").is_some());
    assert_eq!(load_state(&storage).unwrap().total_supply, 5);
}

#[test]
fn burn_supply_does_not_go_below_zero() {
    let mut storage = set_up();
    mint(&mut storage, "t1");
    assert_eq!(load_state(&storage).unwrap().total_supply, 1);
    update_total_supply(&mut storage, 0).unwrap();
    let mut contract = MyCw721::default();
    contract.burn_nft(&mut storage, &"contract".to_string(), "t1".into()).unwrap();
    assert_eq!(load_state(&storage).unwrap().total_supply, 0);
}

#[test]
fn send_rules() {
    let mut storage = set_up();
    mint(&mut storage, "t1");
    let contract = MyCw721::default();
    let res = contract.send_nft(&mut storage, &"alice".to_string(), "bob".into(), "t1".into(), Some(MyCustomMsg {}), 0, 0);
    assert_eq!(res.unwrap_err(), MyStdError::PermissionDenied);
    let res = contract.send_nft(&mut storage, &"contract".to_string(), "bob".into(), "t1".into(), None, 0, 0);
    assert_eq!(
        res.unwrap_err(),
        MyStdError::Other("Generic error: Failed to deserialize custom message".into())
    );
    let res = contract
        .send_nft(&mut storage, &"contract".to_string(), "bob".into(), "t1".into(), Some(MyCustomMsg {}), 0, 0)
        .unwrap();
    assert_eq!(res.attributes.len(), 4);
    assert_eq!(res.attributes[0].value, "send_nft");
    assert_eq!(get_owner_of_token(&storage, "t1").unwrap(), Some("bob".to_string()));
    contract.approve(&mut storage, &"bob".to_string(), "carol".into(), "t1".into(), None).unwrap();
    contract
        .send_nft(&mut storage, &"carol".to_string(), "dave".into(), "t1".into(), Some(MyCustomMsg {}), 0, 0)
        .unwrap();
    assert_eq!(get_owner_of_token(&storage, "t1").unwrap(), Some("dave".to_string()));
}

#[test]
fn approve_then_revoke_restores_storage() {
    let mut storage = set_up();
    mint(&mut storage, "t1");
    let before = dump(&storage);
    let contract = MyCw721::default();
    let res = contract.approve(&mut storage, &"alice".to_string(), "bob".into(), "t1".into(), None);
    assert_eq!(res.unwrap_err(), MyStdError::PermissionDenied);
    let res = contract
        .approve(&mut storage, &"contract".to_string(), "bob".into(), "t1".into(), Some(Expiry::AtHeight(9)))
        .unwrap();
    assert_eq!(res.attributes[0].value, "approve");
    let mut expected = bin_str("bob");
    expected.extend(le(0, 4));
    expected.extend(le(9, 8));
    assert_eq!(storage.get(b"approval_t1_bob").unwrap(), expected);
    assert_eq!(get_owner_of_token(&storage, "t1").unwrap(), Some("contract".to_string()));
    let res = contract.revoke(&mut storage, &"contract".to_string(), "bob".into(), "t1".into()).unwrap();
    assert_eq!(res.attributes[0].value, "revoke");
    assert_eq!(dump(&storage), before);
}

#[test]
fn approval_records_match_cw721_bincode() {
    let mut storage = MemoryStorage::new();
    save_approval(&mut storage, "t", "s", Some(Expiry::AtTime(1_500))).unwrap();
    let approval = cw721::Approval {
        spender: "s".into(),
        expires: cw721::Expiration::AtTime(cosmwasm_std::Timestamp::from_nanos(1_500)),
    };
    assert_eq!(storage.get(b"approval_t_s").unwrap(), bincode::serialize(&approval).unwrap());
    save_approval(&mut storage, "t", "s", None).unwrap();
    let mut expected = bin_str("s");
    expected.extend(le(2, 4));
    assert_eq!(storage.get(b"approval_t_s").unwrap(), expected);
    remove_approval(&mut storage, "t", "s").unwrap();
    assert!(dump(&storage).is_empty());
}

#[test]
fn approve_all_approves_each_token_of_the_sender() {
    let mut storage = set_up();
    mint(&mut storage, "t1");
    mint(&mut storage, "t2");
    mint(&mut storage, "t3");
    let contract = MyCw721::default();
    contract.transfer_nft(&mut storage, &"contract".to_string(), "bob".into(), "t3".into(), 0, 0).unwrap();
    let res = contract.approve_all(&mut storage, &"contract".to_string(), "op".into(), Some(Expiry::AtHeight(7))).unwrap();
    assert!(res.attributes.is_empty());
    let mut expected = bin_str("op");
    expected.extend(le(0, 4));
    expected.extend(le(7, 8));
    assert_eq!(storage.get(b"approval_t1_op"), Some(expected.clone()));
    assert_eq!(storage.get(b"approval_t2_op"), Some(expected));
    assert!(storage.get(b"approval_t3_op").is_none());
}

#[test]
fn revoke_all_withdraws_each_approval_of_the_operator() {
    let mut storage = set_up();
    mint(&mut storage, "t1");
    mint(&mut storage, "t2");
    let contract = MyCw721::default();
    let before = dump(&storage);
    save_all_approvals(&mut storage, "contract", "op", None).unwrap();
    save_approval(&mut storage, "t1", "other", None).unwrap();
    assert!(storage.get(b"approval_t2_op").is_some());
    contract.revoke_all(&mut storage, &"contract".to_string(), "op".into()).unwrap();
    remove_approval(&mut storage, "t1", "other").unwrap();
    assert_eq!(dump(&storage), before);
}

#[test]
fn approve_all_without_tokens_changes_nothing() {
    let mut storage = set_up();
    let before = dump(&storage);
    let contract = MyCw721::default();
    assert!(contract.approve_all(&mut storage, &"a".to_string(), "op".into(), None).is_ok());
    assert!(contract.revoke_all(&mut storage, &"a".to_string(), "op".into()).is_ok());
    assert_eq!(dump(&storage), before);
    assert!(get_all_tokens_by_owner(&storage, "a").unwrap().is_empty());
}

#[test]
fn standard_burn_deletes_the_senders_token() {
    let mut storage = set_up();
    mint(&mut storage, "t1");
    let contract = MyCw721::default();
    assert_eq!(
        contract.burn(&mut storage, &"bob".to_string(), "t1".into()).unwrap_err(),
        MyStdError::PermissionDenied
    );
    assert_eq!(
        contract.burn(&mut storage, &"a".to_string(), "nope".into()).unwrap_err(),
        MyStdError::Other("Token does not exist".into())
    );
    let res = contract.burn(&mut storage, &"contract".to_string(), "t1".into()).unwrap();
    assert!(res.attributes.is_empty());
    assert_eq!(query_owner(&storage, "t1").unwrap(), None);
    assert!(read_token_info(&storage, "t1").unwrap().is_none());
    assert_eq!(load_state(&storage).unwrap().total_supply, 0);
}

#[test]
fn standard_burn_without_state_still_succeeds() {
    let mut storage = MemoryStorage::new();
    save_token_owner(&mut storage, "t1", "alice").unwrap();
    save_approval(&mut storage, "t1", "bob", None).unwrap();
    let contract = MyCw721::default();
    assert!(contract.burn(&mut storage, &"alice".to_string(), "t1".into()).is_ok());
    assert!(dump(&storage).is_empty());
}

#[test]
fn approvals_of_a_token_whose_id_extends_another_are_kept_apart() {
    let mut storage = set_up();
    mint(&mut storage, "a");
    mint(&mut storage, "a_b");
    save_approval(&mut storage, "a_b", "x", None).unwrap();
    save_approval(&mut storage, "a", "y", None).unwrap();
    assert_eq!(get_all_approvals_for_token(&storage, "a").unwrap(), vec!["y".to_string()]);
    assert_eq!(get_all_approvals_for_token(&storage, "a_b").unwrap(), vec!["x".to_string()]);
    let mut contract = MyCw721::default();
    contract.burn_nft(&mut storage, &"contract".to_string(), "a".into()).unwrap();
    assert!(storage.get(b"approval_a_y").is_none());
    assert!(storage.get(b"approval_a_b_x").is_some());
}

#[test]
fn tokens_of_an_owner_are_listed_once_each() {
    let mut storage = set_up();
    mint(&mut storage, "t1");
    mint(&mut storage, "t2");
    mint(&mut storage, "t3");
    let contract = MyCw721::default();
    contract.transfer_nft(&mut storage, &"contract".to_string(), "bob".into(), "t2".into(), 0, 0).unwrap();
    let mut mine = get_all_tokens_by_owner(&storage, "contract").unwrap();
    mine.sort();
    assert_eq!(mine, vec!["t1".to_string(), "t3".to_string()]);
    assert_eq!(get_all_tokens_by_owner(&storage, "bob").unwrap(), vec!["t2".to_string()]);
    assert_eq!(contract.tokens(&storage, "bob".into(), None, None).unwrap(), vec!["t2".to_string()]);
    let mut all = contract.all_tokens(&storage, None, None).unwrap();
    all.sort();
    assert_eq!(all, vec!["t1".to_string(), "t2".to_string(), "t3".to_string()]);
    assert_eq!(contract.num_tokens(&storage).unwrap(), 3);
}

#[test]
fn token_info_is_stored_in_bincode2_layout() {
    let mut storage = MemoryStorage::new();
    let record = TokenRecord {
        owner: "o".into(),
        approvals: vec![ApprovalInfo { spender: "s".into(), expires: Expiry::Never }],
        token_uri: Some("u".into()),
        extension: sample_song(),
    };
    save_token_info(&mut storage, "t", &record).unwrap();
    let mut expected = bin_str("o");
    expected.extend(le(1, 8));
    expected.extend(bin_str("s"));
    expected.extend(le(2, 4));
    expected.push(1);
    expected.extend(bin_str("u"));
    expected.extend(bin_str("ab"));
    expected.extend(bin_str("c"));
    expected.extend(bin_str(""));
    expected.extend(le(258, 4));
    expected.extend(bin_str("t"));
    expected.extend(bin_str("u"));
    assert_eq!(storage.get(b"token_info_t").unwrap(), expected);
    let back = read_token_info(&storage, "t").unwrap().unwrap();
    assert_eq!(format!("{:?}", back), format!("{:?}", record));
    storage.set(b"token_info_u", b"{}");
    assert!(read_token_info(&storage, "u").unwrap().is_none());
    let timed = TokenRecord {
        owner: "o".into(),
        approvals: vec![ApprovalInfo { spender: "s".into(), expires: Expiry::AtTime(5) }],
        token_uri: None,
        extension: sample_song(),
    };
    save_token_info(&mut storage, "v", &timed).unwrap();
    assert_eq!(read_token_info(&storage, "v").unwrap().unwrap().approvals, timed.approvals);
}

#[test]
fn contract_object_defaults() {
    let inherent = format!("{:?}", MyCw721::default());
    assert!(inherent.contains("year: 1"));
    let trait_default = format!("{:?}", <MyCw721 as Default>::default());
    assert!(trait_default.contains("Unknown Artist"));
    assert!(trait_default.contains("year: 0"));
    let made = MyCw721::init("a".into(), "b".into(), "c".into(), 3, "d".into(), "e".into());
    assert!(format!("{:?}", made).contains("year: 3"));
}

#[test]
fn query_answers() {
    let mut storage = set_up();
    let c = MyCw721::default();
    let info = c.contract_info().unwrap();
    assert_eq!((info.name.as_str(), info.symbol.as_str()), ("MyToken", "MTK"));
    assert_eq!(c.num_tokens(&storage).unwrap(), 0);
    assert_eq!(c.nft_info(&storage, "t".into()).unwrap_err(), MyStdError::NotFound);
    assert_eq!(c.owner_of(&storage, "t".into(), false, 0, 0).unwrap_err(), MyStdError::NotFound);
    mint(&mut storage, "t");
    assert_eq!(c.num_tokens(&storage).unwrap(), 1);
    assert_eq!(c.nft_info(&storage, "t".into()).unwrap().extension, 0);
    assert_eq!(c.nft_info(&storage, "t".into()).unwrap().token_uri, None);
    let owner = c.owner_of(&storage, "t".into(), false, 0, 0).unwrap();
    assert_eq!(owner.owner, "contract");
    assert!(owner.approvals.is_empty());
    assert_eq!(
        c.approval("t".into(), "s".into(), false).unwrap_err(),
        MyStdError::Other("Generic error: Method not implemented".into())
    );
    assert!(c.approvals("t".into(), true).is_err());
    assert_eq!(c.operator("o".into(), "p".into(), false).unwrap().expires, Expiry::Never);
    assert_eq!(c.operators("o".into(), false, None, None).unwrap().len(), 1);
    assert!(c.tokens(&storage, "o".into(), None, None).unwrap().is_empty());
    assert_eq!(c.all_tokens(&storage, None, Some(3)).unwrap(), vec!["t".to_string()]);
    let all = c.all_nft_info(&storage, "t".into(), false, 0, 0).unwrap();
    assert_eq!(all.access.owner, "contract");
    assert_eq!(all.info.token_uri, None);
    let record = TokenRecord {
        owner: "contract".into(),
        approvals: vec![],
        token_uri: Some("ipfs://song".into()),
        extension: sample_song(),
    };
    save_token_info(&mut storage, "t", &record).unwrap();
    assert_eq!(c.nft_info(&storage, "t".into()).unwrap().token_uri, Some("ipfs://song".to_string()));
}

#[test]
fn error_messages() {
    assert_eq!(MyStdError::NotFound.message(), "Item not found");
    assert_eq!(MyStdError::PermissionDenied.message(), "Permission denied");
    assert_eq!(MyStdError::Other("x".into()).message(), "Other: x");
    assert_eq!(HumanAddrWrapper::from("addr").as_str(), "addr");
}

#[test]
fn json_string_escapes_in_both_flavours() {
    assert_eq!(json_string("a\"\\\u{1f}é"), "\"a\\\"\\\\\\u001fé\"");
    assert_eq!(wasm_json_string("a\"\\\u{1f}é"), "\"a\\\"\\\\\\u001Fé\"".as_bytes().to_vec());
}

#[test]
fn owner_records_survive_escapes() {
    let mut storage = MemoryStorage::new();
    save_token_owner(&mut storage, "t", "a\"\u{1}b\\é").unwrap();
    assert_eq!(storage.get(b"owner_of_t").unwrap(), "\"a\\\"\\u0001b\\\\é\"".as_bytes().to_vec());
    assert_eq!(get_owner_of_token(&storage, "t").unwrap(), Some("a\"\u{1}b\\é".to_string()));
}

#[test]
fn minting_one_token_keeps_the_others() {
    let mut storage = set_up();
    mint(&mut storage, "t1");
    let contract = MyCw721::default();
    contract.transfer_nft(&mut storage, &"contract".to_string(), "bob".into(), "t1".into(), 0, 0).unwrap();
    mint(&mut storage, "t2");
    assert_eq!(get_owner_of_token(&storage, "t1").unwrap(), Some("bob".to_string()));
    assert_eq!(get_owner_of_token(&storage, "t2").unwrap(), Some("contract".to_string()));
    assert_eq!(load_state(&storage).unwrap().version, "1.0");
}

#[test]
fn an_approved_spender_may_transfer_until_the_approval_runs_out() {
    let mut storage = set_up();
    mint(&mut storage, "t1");
    let contract = MyCw721::default();
    let owner = "contract".to_string();
    contract.approve(&mut storage, &owner, "bob".into(), "t1".into(), Some(Expiry::AtHeight(10))).unwrap();
    let res = contract.transfer_nft(&mut storage, &"bob".to_string(), "carol".into(), "t1".into(), 10, 0);
    assert_eq!(res.unwrap_err(), MyStdError::Unauthorized);
    contract.transfer_nft(&mut storage, &"bob".to_string(), "carol".into(), "t1".into(), 9, 0).unwrap();
    assert_eq!(get_owner_of_token(&storage, "t1").unwrap(), Some("carol".to_string()));

    mint(&mut storage, "t2");
    contract.approve(&mut storage, &owner, "dave".into(), "t2".into(), Some(Expiry::AtTime(500))).unwrap();
    let res = contract.transfer_nft(&mut storage, &"dave".to_string(), "erin".into(), "t2".into(), 0, 500);
    assert_eq!(res.unwrap_err(), MyStdError::Unauthorized);
    contract.revoke(&mut storage, &owner, "dave".into(), "t2".into()).unwrap();
    let res = contract.transfer_nft(&mut storage, &"dave".to_string(), "erin".into(), "t2".into(), 0, 1);
    assert_eq!(res.unwrap_err(), MyStdError::Unauthorized);
    contract.approve(&mut storage, &owner, "dave".into(), "t2".into(), None).unwrap();
    contract.transfer_nft(&mut storage, &"dave".to_string(), "erin".into(), "t2".into(), u64::MAX, u64::MAX).unwrap();
    assert_eq!(get_owner_of_token(&storage, "t2").unwrap(), Some("erin".to_string()));
}

#[test]
fn token_lists_come_in_ascending_pages() {
    let mut storage = set_up();
    for id in ["t3", "t1", "t10", "t2", "t5"] {
        mint(&mut storage, id);
    }
    let c = MyCw721::default();
    let page = |start: Option<&str>, limit: Option<u32>| c.all_tokens(&storage, start.map(String::from), limit).unwrap();
    assert_eq!(page(None, Some(2)), vec!["t1".to_string(), "t10".to_string()]);
    assert_eq!(page(Some("t10"), Some(2)), vec!["t2".to_string(), "t3".to_string()]);
    assert_eq!(page(Some("t3"), None), vec!["t5".to_string()]);
    assert_eq!(page(Some("t4"), None), vec!["t5".to_string()]);
    assert!(page(None, Some(0)).is_empty());
    assert_eq!(page(None, Some(1000)).len(), 5);
    assert_eq!(
        c.tokens(&storage, "contract".into(), Some("t2".into()), Some(1)).unwrap(),
        vec!["t3".to_string()]
    );
}

#[test]
fn at_most_one_hundred_tokens_per_page() {
    let mut storage = set_up();
    for i in 0..105 {
        mint(&mut storage, &format!("t{:03}", i));
    }
    let c = MyCw721::default();
    let all = c.all_tokens(&storage, None, Some(500)).unwrap();
    assert_eq!(all.len(), 100);
    assert_eq!(all[0], "t000");
    assert_eq!(all[99], "t099");
    assert_eq!(c.all_tokens(&storage, None, None).unwrap().len(), 10);
    assert_eq!(c.num_tokens(&storage).unwrap(), 105);
}

#[test]
fn counting_the_tokens_of_an_owner() {
    let mut storage = set_up();
    assert_eq!(song_contract::song::query_number_of_tokens_owned_by(&storage, "contract").unwrap(), 0);
    mint(&mut storage, "t1");
    mint(&mut storage, "t2");
    let contract = MyCw721::default();
    contract.transfer_nft(&mut storage, &"contract".to_string(), "bob".into(), "t2".into(), 0, 0).unwrap();
    assert_eq!(song_contract::song::query_number_of_tokens_owned_by(&storage, "contract").unwrap(), 1);
    assert_eq!(song_contract::song::query_number_of_tokens_owned_by(&storage, "bob").unwrap(), 1);
    let empty = MemoryStorage::new();
    assert_eq!(
        song_contract::song::query_number_of_tokens_owned_by(&empty, "bob").unwrap_err(),
        MyStdError::Other("Generic error: State not found".into())
    );
}

#[test]
fn custom_queries() {
    let mut storage = set_up();
    mint(&mut storage, "t1");
    match query_custom(&storage, MyCw721QueryMsg::DetailedNftInfo { token_id: "t1".into() }).unwrap() {
        CustomQueryAnswer::Detail(d) => {
            assert_eq!(d.global_artist, "ArtistName");
            assert_eq!(d.global_album, "AlbumName");
            assert_eq!(d.token_track_name, "t");
        }
        _ => panic!("expected details"),
    }
    assert_eq!(
        query_custom(&storage, MyCw721QueryMsg::DetailedNftInfo { token_id: "nope".into() }).err(),
        Some(MyStdError::NotFound)
    );
    match query_custom(&storage, MyCw721QueryMsg::NumberOfTokensOwnedBy { owner: "contract".into() }).unwrap() {
        CustomQueryAnswer::Count(n) => assert_eq!(n, 1),
        _ => panic!("expected a count"),
    }
    match query_custom(&storage, MyCw721QueryMsg::ContractState {}).unwrap() {
        CustomQueryAnswer::State(s) => assert_eq!(s.total_supply, 1),
        _ => panic!("expected the state"),
    }
    let empty = MemoryStorage::new();
    assert!(query_custom(&empty, MyCw721QueryMsg::ContractState {}).is_err());
}

#[test]
fn owner_query_lists_running_approvals() {
    let mut storage = set_up();
    mint(&mut storage, "t1");
    let c = MyCw721::default();
    let owner = "contract".to_string();
    c.approve(&mut storage, &owner, "bob".into(), "t1".into(), Some(Expiry::AtHeight(5))).unwrap();
    c.approve(&mut storage, &owner, "carol".into(), "t1".into(), None).unwrap();
    save_approval(&mut storage, "t2", "dave", None).unwrap();
    let info = c.owner_of(&storage, "t1".into(), false, 3, 0).unwrap();
    assert_eq!(info.owner, "contract");
    assert_eq!(
        info.approvals,
        vec![
            ApprovalInfo { spender: "bob".into(), expires: Expiry::AtHeight(5) },
            ApprovalInfo { spender: "carol".into(), expires: Expiry::Never },
        ]
    );
    let later = c.owner_of(&storage, "t1".into(), false, 5, 0).unwrap();
    assert_eq!(later.approvals, vec![ApprovalInfo { spender: "carol".into(), expires: Expiry::Never }]);
    let all = c.owner_of(&storage, "t1".into(), true, 5, 0).unwrap();
    assert_eq!(all.approvals.len(), 2);
    let both = c.all_nft_info(&storage, "t1".into(), false, 5, 0).unwrap();
    assert_eq!(both.access.approvals.len(), 1);
}
