use cosmwasm_std::{MemoryStorage, Storage};
use song_contract::nft::read_nft;
use song_contract::{handle, init, query, HandleMsg, InitMsg, Metadata, NFT};

fn stored(storage: &MemoryStorage) -> Option<NFT> {
    storage.get(b"nft").and_then(|bytes| read_nft(&bytes))
}

fn sample_metadata() -> Metadata {
    Metadata {
        artist_name: "Artist".into(),
        album_name: "Album".into(),
        album_artwork: "https://example.com/artwork".into(),
        album_year: 2023,
        track_name: "Track".into(),
        external_track_link: "https://example.com/track".into(),
    }
}

#[test]
fn proper_initialization() {
    let mut storage = MemoryStorage::new();
    let init_msg = InitMsg {};
    let res = init(&mut storage, &"creator".to_string(), init_msg);
    assert_eq!(0, res.messages.len());
}

#[test]
fn mint_nft() {
    let mut storage = MemoryStorage::new();
    let metadata = sample_metadata();
    let mint_msg = HandleMsg::Mint { metadata };
    let res = handle(&mut storage, &"creator".to_string(), mint_msg, None);
    assert_eq!(0, res.messages.len());
}

#[test]
fn transfer_nft() {
    let mut storage = MemoryStorage::new();
    let metadata = Metadata {
        artist_name: "Artist".to_string(),
        album_name: "Album".to_string(),
        album_artwork: "https://example.com/artwork".to_string(),
        album_year: 2023,
        track_name: "Track".to_string(),
        external_track_link: "https://example.com/track".to_string(),
    };
    let mint_msg = HandleMsg::Mint { metadata };
    let _ = handle(&mut storage, &"creator".to_string(), mint_msg, None);
    let transfer_msg = HandleMsg::Transfer { recipient: "new_owner".into() };
    let current = stored(&storage);
    let res = handle(&mut storage, &"creator".to_string(), transfer_msg, current);
    assert_eq!(0, res.messages.len());
}

#[test]
fn mint_stores_the_token_as_serde_json_writes_it() {
    let mut storage = MemoryStorage::new();
    let _ = handle(&mut storage, &"creator".to_string(), HandleMsg::Mint { metadata: sample_metadata() }, None);
    let stored = storage.get(b"nft").unwrap();
    let expected = [
        r#"{"owner":"creator","metadata":"{\"artist_name\":\"Artist\",\"album_name\":\"Album\","#,
        r#"\"album_artwork\":\"https://example.com/artwork\",\"album_year\":2023,"#,
        r#"\"track_name\":\"Track\",\"external_track_link\":\"https://example.com/track\"}"}"#,
    ]
    .join("");
    assert_eq!(String::from_utf8(stored).unwrap(), expected);
}

#[test]
fn query_answers_the_minter_then_the_recipient() {
    let mut storage = MemoryStorage::new();
    let _ = handle(&mut storage, &"creator".to_string(), HandleMsg::Mint { metadata: sample_metadata() }, None);
    assert_eq!(query(&storage, song_contract::QueryMsg::OwnerOf {}, None), b"\"creator\"".to_vec());
    let _ = handle(&mut storage, &"creator".to_string(), HandleMsg::Transfer { recipient: "new_owner".into() }, None);
    assert_eq!(query(&storage, song_contract::QueryMsg::OwnerOf {}, None), b"\"new_owner\"".to_vec());
    let _ = handle(&mut storage, &"x".to_string(), HandleMsg::Transfer { recipient: "third".into() }, None);
    assert_eq!(query(&storage, song_contract::QueryMsg::OwnerOf {}, None), b"\"third\"".to_vec());
}

#[test]
fn transfer_keeps_the_metadata() {
    let mut storage = MemoryStorage::new();
    let _ = handle(&mut storage, &"creator".to_string(), HandleMsg::Mint { metadata: sample_metadata() }, None);
    let before = String::from_utf8(storage.get(b"nft").unwrap()).unwrap();
    let current = stored(&storage);
    let _ = handle(&mut storage, &"someone".to_string(), HandleMsg::Transfer { recipient: "x\"y".into() }, current);
    let after = String::from_utf8(storage.get(b"nft").unwrap()).unwrap();
    assert_eq!(after, before.replacen(r#"{"owner":"creator""#, r#"{"owner":"x\"y""#, 1));
    assert_eq!(query(&storage, song_contract::QueryMsg::OwnerOf {}, None), br#""x\"y""#.to_vec());
}

#[test]
fn negative_year_and_escapes_in_metadata() {
    let mut storage = MemoryStorage::new();
    let mut metadata = sample_metadata();
    metadata.album_year = -5;
    metadata.track_name = "a\nb".into();
    let _ = handle(&mut storage, &"creator".to_string(), HandleMsg::Mint { metadata }, None);
    let stored = String::from_utf8(storage.get(b"nft").unwrap()).unwrap();
    assert!(stored.contains(r#"\"album_year\":-5,"#));
    assert!(stored.contains(r#"\"track_name\":\"a\\nb\""#));
}

#[test]
fn read_nft_reads_the_compact_layout_only() {
    let token = read_nft(br#"{"owner":"a","metadata":"{}"}"#).unwrap();
    assert_eq!((token.owner.as_str(), token.metadata.as_str()), ("a", "{}"));
    assert!(read_nft(br#"{"owner":"a","metadata":"{}"} "#).is_none());
    assert!(read_nft(b"garbage").is_none());
}

#[test]
fn transfer_and_query_take_a_token_in_another_layout_as_parsed() {
    let mut storage = MemoryStorage::new();
    storage.set(b"nft", br#"{ "metadata": "m", "owner": "a" }"#);
    assert!(stored(&storage).is_none());
    let parsed = NFT { owner: "a".into(), metadata: "m".into() };
    assert_eq!(query(&storage, song_contract::QueryMsg::OwnerOf {}, Some(parsed.clone())), b"\"a\"".to_vec());
    let _ = handle(&mut storage, &"a".to_string(), HandleMsg::Transfer { recipient: "b".into() }, Some(parsed));
    assert_eq!(storage.get(b"nft").unwrap(), br#"{"owner":"b","metadata":"m"}"#.to_vec());
    assert_eq!(query(&storage, song_contract::QueryMsg::OwnerOf {}, None), b"\"b\"".to_vec());
}
