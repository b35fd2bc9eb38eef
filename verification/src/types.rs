//! The contract's data: token metadata, contract state, messages and errors.

use vstd::prelude::*;

verus! {

/// Contract configuration as supplied at setup.
#[derive(Debug, PartialEq, Clone)]
pub struct Config {
    pub version: String,
    pub artist: String,
    pub album: String,
    pub artwork_url: String,
    pub year: u32,
    pub track_name: String,
    pub audio_track_url: String,
    pub token_name: String,
    pub token_symbol: String,
    pub platform_fee: Option<u64>,
}

/// Answer to a detailed query: the album-wide artist and album and one token's track.
#[derive(Clone, Debug, PartialEq)]
pub struct DetailedNftInfoResponse {
    pub global_artist: String,
    pub global_album: String,
    pub token_track_name: String,
}

/// The contract's own queries.
#[derive(Clone, Debug, PartialEq)]
pub enum MyCw721QueryMsg {
    ContractState {},
    NumberOfTokensOwnedBy { owner: String },
    DetailedNftInfo { token_id: String },
}

/// The metadata of one song token.
#[derive(Debug, Clone)]
pub struct SongMetadata {
    pub artist: String,
    pub album: String,
    pub artwork_url: String,
    pub year: u32,
    pub track_name: String,
    pub audio_track_url: String,
}

/// The mathematical value of a `SongMetadata`.
pub struct SongModel {
    pub artist: Seq<char>,
    pub album: Seq<char>,
    pub artwork_url: Seq<char>,
    pub year: u32,
    pub track_name: Seq<char>,
    pub audio_track_url: Seq<char>,
}

impl View for SongMetadata {
    type V = SongModel;

    open spec fn view(&self) -> SongModel {
        SongModel {
            artist: self.artist@,
            album: self.album@,
            artwork_url: self.artwork_url@,
            year: self.year,
            track_name: self.track_name@,
            audio_track_url: self.audio_track_url@,
        }
    }
}

/// The contract object: the album-wide song details.
#[derive(Debug, Clone)]
pub struct MyCw721 {
    artist: String,
    album: String,
    artwork_url: String,
    year: u32,
    track_name: String,
    audio_track_url: String,
}

/// The mathematical value of a `MyCw721`.
pub struct ContractModel {
    pub artist: Seq<char>,
    pub album: Seq<char>,
    pub artwork_url: Seq<char>,
    pub year: u32,
    pub track_name: Seq<char>,
    pub audio_track_url: Seq<char>,
}

impl View for MyCw721 {
    type V = ContractModel;

    closed spec fn view(&self) -> ContractModel {
        ContractModel {
            artist: self.artist@,
            album: self.album@,
            artwork_url: self.artwork_url@,
            year: self.year,
            track_name: self.track_name@,
            audio_track_url: self.audio_track_url@,
        }
    }
}

impl MyCw721 {
    /// A contract object with empty texts and year 1.
    pub fn default() -> (res: Self)
        ensures
            res@.artist == Seq::<char>::empty(),
            res@.album == Seq::<char>::empty(),
            res@.artwork_url == Seq::<char>::empty(),
            res@.year == 1,
            res@.track_name == Seq::<char>::empty(),
            res@.audio_track_url == Seq::<char>::empty(),
    {
        let artist = String::new();
        let album = String::new();
        let artwork_url = String::new();
        let year: u32 = 1;
        let track_name = String::new();
        let audio_track_url = String::new();

        Self { artist, album, artwork_url, year, track_name, audio_track_url }
    }

    /// A contract object holding the given song details.
    pub fn init(
        artist: String,
        album: String,
        artwork_url: String,
        year: u32,
        track_name: String,
        audio_track_url: String,
    ) -> (res: Self)
        ensures
            res@ == (ContractModel {
                artist: artist@,
                album: album@,
                artwork_url: artwork_url@,
                year,
                track_name: track_name@,
                audio_track_url: audio_track_url@,
            }),
    {
        Self { artist, album, artwork_url, year, track_name, audio_track_url }
    }
}

/// The contract-wide state kept in storage.
#[derive(Clone, Debug, PartialEq)]
pub struct MyCw721ContractState {
    pub version: String,
    pub total_supply: u64,
    pub artist: String,
    pub album: String,
    pub artwork_url: String,
    pub year: u32,
    pub track_name: String,
    pub audio_track_url: String,
    pub token_name: String,
    pub token_symbol: String,
    pub platform_fee: Option<u64>,
}

/// The mathematical value of a `MyCw721ContractState`.
pub struct StateModel {
    pub version: Seq<char>,
    pub total_supply: u64,
    pub artist: Seq<char>,
    pub album: Seq<char>,
    pub artwork_url: Seq<char>,
    pub year: u32,
    pub track_name: Seq<char>,
    pub audio_track_url: Seq<char>,
    pub token_name: Seq<char>,
    pub token_symbol: Seq<char>,
    pub platform_fee: Option<u64>,
}

impl View for MyCw721ContractState {
    type V = StateModel;

    open spec fn view(&self) -> StateModel {
        StateModel {
            version: self.version@,
            total_supply: self.total_supply,
            artist: self.artist@,
            album: self.album@,
            artwork_url: self.artwork_url@,
            year: self.year,
            track_name: self.track_name@,
            audio_track_url: self.audio_track_url@,
            token_name: self.token_name@,
            token_symbol: self.token_symbol@,
            platform_fee: self.platform_fee,
        }
    }
}

/// An address given at setup, in human-readable form.
#[derive(Clone, Debug, PartialEq)]
pub struct HumanAddrWrapper(pub String);

impl HumanAddrWrapper {
    /// The address text.
    pub fn as_str(&self) -> (res: &str)
        ensures
            res@ == self.0@,
    {
        self.0.as_str()
    }

    /// The human-readable form of an address.
    pub fn from(addr: &str) -> (res: Self)
        ensures
            res.0@ == addr@,
    {
        HumanAddrWrapper(addr.to_string())
    }
}

/// The setup message.
#[derive(Clone, Debug, PartialEq)]
pub struct InstantiateMsg {
    pub initial_owner: Option<HumanAddrWrapper>,
    pub artist: String,
    pub album: String,
    pub artwork_url: String,
    pub year: u32,
    pub track_name: String,
    pub audio_track_url: String,
    pub token_name: String,
    pub token_symbol: String,
    pub platform_fee: Option<u64>,
}

/// A custom message type with no content.
#[derive(Clone, Debug, PartialEq)]
pub struct CustomMsgType {}

/// The contract's custom message: it carries nothing.
#[derive(Clone, Debug, PartialEq)]
pub struct MyCustomMsg {}

/// Failures of state handling.
#[derive(Debug)]
pub enum ContractError {
    FailedToSaveState,
    FailedToLoadState,
}

/// The contract's errors.
#[derive(Debug, PartialEq)]
pub enum MyStdError {
    NotFound,
    PermissionDenied,
    Other(String),
    Unauthorized,
}

/// The mathematical value of a `MyStdError`.
pub enum ErrorModel {
    NotFound,
    PermissionDenied,
    Other(Seq<char>),
    Unauthorized,
}

impl View for MyStdError {
    type V = ErrorModel;

    open spec fn view(&self) -> ErrorModel {
        match self {
            MyStdError::NotFound => ErrorModel::NotFound,
            MyStdError::PermissionDenied => ErrorModel::PermissionDenied,
            MyStdError::Other(s) => ErrorModel::Other(s@),
            MyStdError::Unauthorized => ErrorModel::Unauthorized,
        }
    }
}

/// The text of a generic CosmWasm error with message `msg`, as it reads
/// once turned into a string.
pub open spec fn generic_error_text(msg: Seq<char>) -> Seq<char> {
    "Generic error: "@ + msg
}

/// A generic CosmWasm error with message `msg`, carried as the contract's error.
pub open spec fn generic_error(msg: Seq<char>) -> ErrorModel {
    ErrorModel::Other(generic_error_text(msg))
}

impl MyStdError {
    /// The contract error that a generic CosmWasm error with message `msg`
    /// becomes.
    pub fn generic(msg: &str) -> (res: MyStdError)
        ensures
            res@ == generic_error(msg@),
    {
        let mut text = "Generic error: ".to_string();
        text.append(msg);
        MyStdError::Other(text)
    }

    /// The error as displayed to users. The `Unauthorized` variant has no
    /// display text and is left out.
    pub fn message(&self) -> (res: String)
        requires
            !(self is Unauthorized),
        ensures
            res@ == match self@ {
                ErrorModel::NotFound => "Item not found"@,
                ErrorModel::PermissionDenied => "Permission denied"@,
                ErrorModel::Other(s) => "Other: "@ + s,
                ErrorModel::Unauthorized => Seq::<char>::empty(),
            },
    {
        match self {
            MyStdError::NotFound => "Item not found".to_string(),
            MyStdError::PermissionDenied => "Permission denied".to_string(),
            MyStdError::Other(s) => {
                let mut text = "Other: ".to_string();
                text.append(s.as_str());
                text
            },
            MyStdError::Unauthorized => String::new(),
        }
    }
}

/// When an approval ends, as the library carries it: at a block height, at
/// a time in nanoseconds, or never.
#[derive(Clone, Copy, Debug, PartialEq, Eq)]
pub enum Expiry {
    AtHeight(u64),
    AtTime(u64),
    Never,
}

/// The contract's name and symbol, as answered to queries.
#[derive(Clone, Debug, PartialEq)]
pub struct ContractInfo {
    pub name: String,
    pub symbol: String,
}

/// A token's URI and extension, as answered to queries.
#[derive(Clone, Debug, PartialEq)]
pub struct NftInfo {
    pub token_uri: Option<String>,
    pub extension: u64,
}

/// An approval as answered to queries: who may spend, and until when.
#[derive(Clone, Debug, PartialEq)]
pub struct ApprovalInfo {
    pub spender: String,
    pub expires: Expiry,
}

/// A token's owner and approvals, as answered to queries.
#[derive(Clone, Debug, PartialEq)]
pub struct OwnerInfo {
    pub owner: String,
    pub approvals: Vec<ApprovalInfo>,
}

/// Everything about a token, as answered to queries.
#[derive(Clone, Debug, PartialEq)]
pub struct AllNftInfo {
    pub access: OwnerInfo,
    pub info: NftInfo,
}

impl Default for MyCw721 {
    /// A contract object with placeholder song details and year 0.
    fn default() -> (res: Self)
        ensures
            res@.artist == "Unknown Artist"@,
            res@.album == "Unknown Album"@,
            res@.artwork_url == "https://example.com/default_artwork"@,
            res@.year == 0,
            res@.track_name == "Unknown Track"@,
            res@.audio_track_url == "https://example.com/default_audio"@,
    {
        MyCw721 {
            artist: "Unknown Artist".to_string(),
            album: "Unknown Album".to_string(),
            artwork_url: "https://example.com/default_artwork".to_string(),
            year: 0,
            track_name: "Unknown Track".to_string(),
            audio_track_url: "https://example.com/default_audio".to_string(),
        }
    }
}

/// A token's metadata record: owner, approvals, token URI and song metadata.
#[derive(Clone, Debug)]
pub struct TokenRecord {
    pub owner: String,
    pub approvals: Vec<ApprovalInfo>,
    pub token_uri: Option<String>,
    pub extension: SongMetadata,
}

} // verus!
