//! The byte formats the contract stores and answers with, and the calls into
//! the serialisation crates that produce and read them.
//!
//! Binary records use bincode's default layout: integers little-endian at
//! their full width, a string as its UTF-8 length in eight bytes followed by
//! its UTF-8 bytes, an absent option as the byte 0 and a present one as the
//! byte 1 followed by the value, an enum variant as its index in four bytes
//! followed by its fields, and a struct (or a tuple) as its fields in order.
//! Text records are JSON.

use crate::types::{
    ApprovalInfo, Expiry, MyCw721ContractState, SongMetadata, SongModel, StateModel, TokenRecord,
};
use cosmwasm_std::Addr;
use cw721::Expiration;
use cw721_base::state::TokenInfo;
use vstd::prelude::*;
use vstd::utf8::*;

verus! {

/// The `width` least significant bytes of `n`, least significant first.
pub open spec fn le_bytes(n: nat, width: nat) -> Seq<u8>
    decreases width,
{
    if width == 0 {
        Seq::<u8>::empty()
    } else {
        seq![(n % 256) as u8] + le_bytes(n / 256, (width - 1) as nat)
    }
}

/// The UTF-8 bytes of two texts one after the other are the bytes of each.
pub proof fn lemma_encode_utf8_concat(a: Seq<char>, b: Seq<char>)
    ensures
        encode_utf8(a + b) == encode_utf8(a) + encode_utf8(b),
    decreases a.len(),
{
    if a.len() > 0 {
        assert((a + b).drop_first() =~= a.drop_first() + b);
        assert((a + b)[0] == a[0]);
        lemma_encode_utf8_concat(a.drop_first(), b);
        assert(encode_utf8(a + b) =~= encode_utf8(a) + encode_utf8(b));
    } else {
        assert(a + b =~= b);
        assert(encode_utf8(a) =~= Seq::<u8>::empty());
        assert(encode_utf8(a) + encode_utf8(b) =~= encode_utf8(b));
    }
}

/// `le_bytes` gives exactly `width` bytes.
pub proof fn lemma_le_bytes_len(n: nat, width: nat)
    ensures
        le_bytes(n, width).len() == width,
    decreases width,
{
    if width > 0 {
        lemma_le_bytes_len(n / 256, (width - 1) as nat);
    }
}

/// The bincode layout of a `u64`.
pub open spec fn bin_u64(n: u64) -> Seq<u8> {
    le_bytes(n as nat, 8)
}

/// The bincode layout of a `u32`.
pub open spec fn bin_u32(n: u32) -> Seq<u8> {
    le_bytes(n as nat, 4)
}

/// The bincode layout of a string.
pub open spec fn bin_str(s: Seq<char>) -> Seq<u8> {
    le_bytes(encode_utf8(s).len(), 8) + encode_utf8(s)
}

/// The bincode layout of an `Option<u64>`.
pub open spec fn bin_opt_u64(o: Option<u64>) -> Seq<u8> {
    match o {
        None => seq![0u8],
        Some(n) => seq![1u8] + bin_u64(n),
    }
}

/// The decimal digit for `d`.
pub open spec fn digit_char(d: nat) -> char {
    ((d % 10) + 48) as char
}

/// The decimal text of a natural number, without leading zeros.
pub open spec fn nat_decimal(n: nat) -> Seq<char>
    decreases n,
{
    if n < 10 {
        seq![digit_char(n)]
    } else {
        nat_decimal(n / 10) + seq![digit_char(n % 10)]
    }
}

/// The decimal text of an integer, with a leading minus when negative.
pub open spec fn int_decimal(i: int) -> Seq<char> {
    if i < 0 {
        seq!['-'] + nat_decimal((-i) as nat)
    } else {
        nat_decimal(i as nat)
    }
}

/// The bincode layout of the state record, field by field.
pub open spec fn bin_state(m: StateModel) -> Seq<u8> {
    bin_str(m.version) + bin_u64(m.total_supply) + bin_str(m.artist) + bin_str(m.album)
        + bin_str(m.artwork_url) + bin_u32(m.year) + bin_str(m.track_name) + bin_str(
        m.audio_track_url,
    ) + bin_str(m.token_name) + bin_str(m.token_symbol) + bin_opt_u64(m.platform_fee)
}

/// The bincode layout of song metadata, field by field.
pub open spec fn bin_song(m: SongModel) -> Seq<u8> {
    bin_str(m.artist) + bin_str(m.album) + bin_str(m.artwork_url) + bin_u32(m.year) + bin_str(
        m.track_name,
    ) + bin_str(m.audio_track_url)
}

/// The bincode layout of an expiration: its variant index, then its field;
/// a time is carried as the decimal text of its nanoseconds.
pub open spec fn bin_expiry(e: Expiry) -> Seq<u8> {
    match e {
        Expiry::AtHeight(h) => bin_u32(0) + bin_u64(h),
        Expiry::AtTime(t) => bin_u32(1) + bin_str(nat_decimal(t as nat)),
        Expiry::Never => bin_u32(2),
    }
}

/// The bincode layout of an approval record.
pub open spec fn bin_approval(spender: Seq<char>, expires: Expiry) -> Seq<u8> {
    bin_str(spender) + bin_expiry(expires)
}

/// The hexadecimal digit for `d` (below 16), in upper or lower case.
pub open spec fn hex_char(d: nat, upper: bool) -> char {
    if d < 10 {
        (d + 48) as char
    } else if upper {
        (d - 10 + 65) as char
    } else {
        (d - 10 + 97) as char
    }
}

/// How one character stands inside a JSON string: quote, backslash and the
/// control characters are escaped, everything else stands as it is.
pub open spec fn json_escape(c: char, upper: bool) -> Seq<char> {
    if c == '"' {
        seq!['\\', '"']
    } else if c == '\\' {
        seq!['\\', '\\']
    } else if c == '\u{8}' {
        seq!['\\', 'b']
    } else if c == '\t' {
        seq!['\\', 't']
    } else if c == '\n' {
        seq!['\\', 'n']
    } else if c == '\u{c}' {
        seq!['\\', 'f']
    } else if c == '\r' {
        seq!['\\', 'r']
    } else if (c as u32) < 32 {
        seq![
            '\\',
            'u',
            '0',
            '0',
            hex_char((c as u32 / 16) as nat, upper),
            hex_char((c as u32 % 16) as nat, upper),
        ]
    } else {
        seq![c]
    }
}

/// The escaped characters of a JSON string's body.
pub open spec fn json_escaped(s: Seq<char>, upper: bool) -> Seq<char>
    decreases s.len(),
{
    if s.len() == 0 {
        Seq::<char>::empty()
    } else {
        json_escaped(s.drop_last(), upper) + json_escape(s.last(), upper)
    }
}

/// A JSON string literal for `s`; `upper` chooses the case of the
/// hexadecimal digits in `\u` escapes.
pub open spec fn json_quote(s: Seq<char>, upper: bool) -> Seq<char> {
    seq!['"'] + json_escaped(s, upper) + seq!['"']
}

/// The bytes of the JSON string literal for `s` as CosmWasm writes it.
pub open spec fn wasm_json_str_bytes(s: Seq<char>) -> Seq<u8> {
    encode_utf8(json_quote(s, true))
}

/// Whether `bytes` begins with `prefix`.
pub open spec fn starts_with(bytes: Seq<u8>, prefix: Seq<u8>) -> bool {
    prefix.len() <= bytes.len() && bytes.subrange(0, prefix.len() as int) == prefix
}

/// A successful read of the state record.
pub open spec fn state_decoded(m: StateModel) -> Result<StateModel, Seq<char>> {
    Ok(m)
}

/// A failed read of the state record, with the error's text.
pub open spec fn state_rejected(text: Seq<char>) -> Result<StateModel, Seq<char>> {
    Err(text)
}

/// What `bincode::deserialize` makes of bytes read as the state record: its
/// fields, or the text of the error.
pub uninterp spec fn bincode_state_decode(bytes: Seq<u8>) -> Result<StateModel, Seq<char>>;

/// What CosmWasm's `from_slice` makes of bytes read as an address: its
/// text, or nothing when they are not a JSON string.
pub uninterp spec fn wasm_json_addr(bytes: Seq<u8>) -> Option<Seq<char>>;

/// What `serde_json`'s stream reader makes of the first value in the bytes
/// read as a string: the string and the offset just past it.
pub uninterp spec fn json_leading_string(bytes: Seq<u8>) -> Option<(Seq<char>, nat)>;

/// The state record's fields in order, as handed to bincode.
pub type StateFields = (
    String,
    u64,
    String,
    String,
    String,
    u32,
    String,
    String,
    String,
    String,
    Option<u64>,
);

/// The state that a tuple of fields stands for.
pub open spec fn state_fields_model(f: StateFields) -> StateModel {
    StateModel {
        version: f.0@,
        total_supply: f.1,
        artist: f.2@,
        album: f.3@,
        artwork_url: f.4@,
        year: f.5,
        track_name: f.6@,
        audio_track_url: f.7@,
        token_name: f.8@,
        token_symbol: f.9@,
        platform_fee: f.10,
    }
}

/// `bincode::serialize` of the state record's fields, as a tuple: bincode
/// lays a tuple out exactly as the struct, its fields in order. Serialising
/// strings, integers and an option into a vector cannot fail (no size limit
/// is set), so the error arm is never taken. Reading the bytes back with
/// `bincode::deserialize` gives the same fields.
#[verifier::external_body]
pub fn encode_state_fields(fields: &StateFields) -> (res: Vec<u8>)
    ensures
        res@ == bin_state(state_fields_model(*fields)),
        bincode_state_decode(res@) == state_decoded(state_fields_model(*fields)),
{
    match bincode::serialize(fields) {
        Ok(bytes) => bytes,
        Err(_) => Vec::new(),
    }
}

/// `bincode::deserialize` of the state record's fields, as a tuple (the
/// same layout as the struct); the error is given as its text.
#[verifier::external_body]
pub fn decode_state_fields(bytes: &[u8]) -> (res: Result<StateFields, String>)
    ensures
        res matches Ok(f) ==> bincode_state_decode(bytes@) == state_decoded(state_fields_model(f)),
        res matches Err(e) ==> bincode_state_decode(bytes@) == state_rejected(e@),
{
    match bincode::deserialize::<StateFields>(bytes) {
        Ok(fields) => Ok(fields),
        Err(e) => Err(e.to_string()),
    }
}

/// The bincode layout of the state record.
pub fn encode_state(state: &MyCw721ContractState) -> (res: Vec<u8>)
    ensures
        res@ == bin_state(state@),
        bincode_state_decode(res@) == state_decoded(state@),
{
    let fields = (
        state.version.clone(),
        state.total_supply,
        state.artist.clone(),
        state.album.clone(),
        state.artwork_url.clone(),
        state.year,
        state.track_name.clone(),
        state.audio_track_url.clone(),
        state.token_name.clone(),
        state.token_symbol.clone(),
        state.platform_fee,
    );
    encode_state_fields(&fields)
}

/// Reads the state record from its bincode layout.
pub fn decode_state(bytes: &[u8]) -> (res: Result<MyCw721ContractState, String>)
    ensures
        res matches Ok(s) ==> bincode_state_decode(bytes@) == state_decoded(s@),
        res matches Err(e) ==> bincode_state_decode(bytes@) == state_rejected(e@),
{
    match decode_state_fields(bytes) {
        Ok(f) => Ok(
            MyCw721ContractState {
                version: f.0,
                total_supply: f.1,
                artist: f.2,
                album: f.3,
                artwork_url: f.4,
                year: f.5,
                track_name: f.6,
                audio_track_url: f.7,
                token_name: f.8,
                token_symbol: f.9,
                platform_fee: f.10,
            },
        ),
        Err(text) => Err(text),
    }
}

/// Song metadata's fields in order, as handed to bincode2.
pub type SongFields = (String, String, String, u32, String, String);

/// The song metadata that a tuple of fields stands for.
pub open spec fn song_fields_model(f: SongFields) -> SongModel {
    SongModel {
        artist: f.0@,
        album: f.1@,
        artwork_url: f.2@,
        year: f.3,
        track_name: f.4@,
        audio_track_url: f.5@,
    }
}

/// The bincode layout of an optional string.
pub open spec fn bin_opt_str(o: Option<Seq<char>>) -> Seq<u8> {
    match o {
        None => seq![0u8],
        Some(s) => seq![1u8] + bin_str(s),
    }
}

/// The bincode layout of the approvals of a token record, one after the
/// other, each as its spender and its expiration.
pub open spec fn bin_approval_list(approvals: Seq<(Seq<char>, Expiry)>) -> Seq<u8>
    decreases approvals.len(),
{
    if approvals.len() == 0 {
        Seq::<u8>::empty()
    } else {
        bin_approval_list(approvals.drop_last()) + bin_approval(
            approvals.last().0,
            approvals.last().1,
        )
    }
}

/// The bincode layout of a `cw721_base` token record: owner, the number of
/// approvals and the approvals, the optional token URI, and the song
/// metadata.
pub open spec fn bin_token(
    owner: Seq<char>,
    approvals: Seq<(Seq<char>, Expiry)>,
    token_uri: Option<Seq<char>>,
    song: SongModel,
) -> Seq<u8> {
    bin_str(owner) + le_bytes(approvals.len(), 8) + bin_approval_list(approvals) + bin_opt_str(
        token_uri,
    ) + bin_song(song)
}

/// The approvals of a list, each as its spender and its expiration.
pub open spec fn approval_list_view(approvals: Seq<ApprovalInfo>) -> Seq<(Seq<char>, Expiry)> {
    approvals.map_values(|a: ApprovalInfo| (a.spender@, a.expires))
}

/// The text an optional string slice holds.
pub open spec fn opt_str_view(o: Option<&str>) -> Option<Seq<char>> {
    match o {
        Some(s) => Some(s@),
        None => None,
    }
}

/// A token record as plain values: owner, approvals (each its spender and
/// its expiration), token URI and song metadata.
pub type TokenView = (Seq<char>, Seq<(Seq<char>, Expiry)>, Option<Seq<char>>, SongModel);

/// What `bincode2::deserialize` reads from bytes as a `cw721_base` token
/// record (`TokenInfo`) whose extension is the song metadata's fields;
/// nothing when the bytes do not read.
pub uninterp spec fn bincode2_token_decode(bytes: Seq<u8>) -> Option<TokenView>;

/// A token record as plain values.
pub open spec fn token_record_view(r: TokenRecord) -> TokenView {
    (
        r.owner@,
        approval_list_view(r.approvals@),
        match r.token_uri {
            Some(u) => Some(u@),
            None => None,
        },
        r.extension@,
    )
}

/// An optional token record as plain values.
pub open spec fn opt_record_view(o: Option<TokenRecord>) -> Option<TokenView> {
    match o {
        Some(r) => Some(token_record_view(r)),
        None => None,
    }
}

/// `bincode2::deserialize` of a `cw721_base` token record (`TokenInfo`)
/// whose extension is the song metadata's fields, taken apart into the
/// library's record.
#[verifier::external_body]
pub fn decode_token_record(bytes: &[u8]) -> (res: Option<TokenRecord>)
    ensures
        opt_record_view(res) == bincode2_token_decode(bytes@),
{
    let info: TokenInfo<SongFields> = match bincode2::deserialize(bytes) { Ok(i) => i, Err(_) => return None };
    let mut approvals = Vec::new();
    for a in info.approvals {
        let expires = match a.expires {
            Expiration::AtHeight(h) => Expiry::AtHeight(h),
            Expiration::AtTime(t) => Expiry::AtTime(t.nanos()),
            Expiration::Never {} => Expiry::Never,
        };
        approvals.push(ApprovalInfo { spender: a.spender.into_string(), expires });
    }
    let (artist, album, artwork_url, year, track_name, audio_track_url) = info.extension;
    let extension = SongMetadata { artist, album, artwork_url, year, track_name, audio_track_url };
    Some(TokenRecord { owner: info.owner.into_string(), approvals, token_uri: info.token_uri, extension })
}

/// `bincode2::serialize` of a `cw721_base` token record (`TokenInfo`) with
/// the given owner, approvals, token URI and song metadata. The metadata's
/// fields are handed over as a tuple, which bincode2 lays out as the struct.
/// Serialising into a vector cannot fail, so the error arm is never taken.
/// Reading the bytes back with `bincode2::deserialize` gives the same
/// owner, approvals, URI and metadata.
#[verifier::external_body]
pub fn encode_token_fields(
    owner: &str,
    approvals: &[ApprovalInfo],
    token_uri: Option<&str>,
    song: &SongFields,
) -> (res: Vec<u8>)
    ensures
        res@ == bin_token(owner@, approval_list_view(approvals@), opt_str_view(token_uri), song_fields_model(*song)),
        bincode2_token_decode(res@) == Some(
            (owner@, approval_list_view(approvals@), opt_str_view(token_uri), song_fields_model(*song)),
        ),
{
    let mut list = Vec::new();
    for a in approvals {
        let expires = match a.expires {
            Expiry::AtHeight(h) => cw721::Expiration::AtHeight(h),
            Expiry::AtTime(t) => cw721::Expiration::AtTime(cosmwasm_std::Timestamp::from_nanos(t)),
            Expiry::Never => cw721::Expiration::Never {},
        };
        list.push(cw721_base::state::Approval { spender: Addr::unchecked(&a.spender), expires });
    }
    let uri = token_uri.map(String::from);
    let info = cw721_base::state::TokenInfo { owner: Addr::unchecked(owner), approvals: list, token_uri: uri, extension: song };
    bincode2::serialize(&info).unwrap_or_default()
}

/// What `bincode::deserialize` reads from bytes as a `cw721::Approval`: its
/// spender and its expiration; nothing when the bytes do not read.
pub uninterp spec fn bincode_approval_decode(bytes: Seq<u8>) -> Option<(Seq<char>, Expiry)>;

/// The text and expiration of an optional approval.
pub open spec fn opt_approval_view(o: Option<(String, Expiry)>) -> Option<(Seq<char>, Expiry)> {
    match o {
        Some(a) => Some((a.0@, a.1)),
        None => None,
    }
}

/// `bincode::deserialize` of a `cw721::Approval`, taken apart into its
/// spender and its expiration.
#[verifier::external_body]
pub fn decode_approval(bytes: &[u8]) -> (res: Option<(String, Expiry)>)
    ensures
        opt_approval_view(res) == bincode_approval_decode(bytes@),
{
    let approval: cw721::Approval = match bincode::deserialize(bytes) { Ok(a) => a, Err(_) => return None };
    let expires = match approval.expires {
        Expiration::AtHeight(h) => Expiry::AtHeight(h),
        Expiration::AtTime(t) => Expiry::AtTime(t.nanos()),
        Expiration::Never {} => Expiry::Never,
    };
    Some((approval.spender, expires))
}

/// `bincode::serialize` of a `cw721::Approval` for `spender` that ends as
/// `expires` says. Serialising into a vector cannot fail, so the error arm
/// is never taken. Reading the bytes back with `bincode::deserialize` gives
/// the same spender and expiration.
#[verifier::external_body]
pub fn encode_approval(spender: &str, expires: Expiry) -> (res: Vec<u8>)
    ensures
        res@ == bin_approval(spender@, expires),
        bincode_approval_decode(res@) == Some((spender@, expires)),
{
    let expires = match expires {
        Expiry::AtHeight(h) => cw721::Expiration::AtHeight(h),
        Expiry::AtTime(t) => cw721::Expiration::AtTime(cosmwasm_std::Timestamp::from_nanos(t)),
        Expiry::Never => cw721::Expiration::Never {},
    };
    let approval = cw721::Approval { spender: spender.to_string(), expires };
    match bincode::serialize(&approval) {
        Ok(bytes) => bytes,
        Err(_) => Vec::new(),
    }
}

/// `serde_json::to_string` of a string: the JSON string literal, with
/// lower-case hexadecimal digits in `\u` escapes. Writing a string into a
/// vector cannot fail, so the error arm is never taken. A string literal
/// ends at its closing quote, so `serde_json`'s stream reader, given the
/// literal's bytes followed by anything, reads back `s` and stops just past
/// the literal.
#[verifier::external_body]
pub fn json_string(s: &str) -> (res: String)
    ensures
        res@ == json_quote(s@, false),
        forall|rest: Seq<u8>|
            #[trigger] json_leading_string(encode_utf8(res@) + rest) == Some(
                (s@, encode_utf8(res@).len()),
            ),
{
    match serde_json::to_string(s) {
        Ok(text) => text,
        Err(_) => String::new(),
    }
}

/// `serde_json::to_string` of an `i32`: its decimal text. Writing a number
/// cannot fail, so the error arm is never taken.
#[verifier::external_body]
pub fn json_i32(n: i32) -> (res: String)
    ensures
        res@ == int_decimal(n as int),
{
    match serde_json::to_string(&n) {
        Ok(text) => text,
        Err(_) => String::new(),
    }
}

/// The first value of `bytes` read as a string by `serde_json`'s stream
/// reader, with the byte offset just past it.
#[verifier::external_body]
pub fn json_string_prefix(bytes: &[u8]) -> (res: Option<(String, usize)>)
    ensures
        res matches Some(p) ==> json_leading_string(bytes@) == Some((p.0@, p.1 as nat)),
        res is None ==> json_leading_string(bytes@) is None,
        res matches Some(p) ==> p.1 <= bytes@.len(),
{
    let mut stream = serde_json::Deserializer::from_slice(bytes).into_iter::<String>();
    match stream.next() {
        Some(Ok(s)) => Some((s, stream.byte_offset())),
        _ => None,
    }
}

/// CosmWasm's `to_binary` of a string: its JSON literal, with upper-case
/// hexadecimal digits in `\u` escapes. Writing a string cannot fail, so the
/// error arm is never taken.
#[verifier::external_body]
pub fn wasm_json_string(s: &str) -> (res: Vec<u8>)
    ensures
        res@ == wasm_json_str_bytes(s@),
{
    match cosmwasm_std::to_binary(s) {
        Ok(binary) => binary.0,
        Err(_) => Vec::new(),
    }
}

/// CosmWasm's `from_slice` of an address (`Addr`), given as its text.
#[verifier::external_body]
pub fn parse_wasm_json_addr(bytes: &[u8]) -> (res: Option<String>)
    ensures
        res matches Some(s) ==> wasm_json_addr(bytes@) == Some(s@),
        res is None ==> wasm_json_addr(bytes@) is None,
{
    match cosmwasm_std::from_slice::<Addr>(bytes) {
        Ok(addr) => Some(addr.into_string()),
        Err(_) => None,
    }
}

/// What cw721-base's record of a token (`TokenInfo` with its default
/// extension) names as owner, read with CosmWasm's `from_slice`; nothing when
/// the bytes do not read as such a record.
pub uninterp spec fn cw721_token_owner(bytes: Seq<u8>) -> Option<Seq<char>>;

/// CosmWasm's `from_slice` of cw721-base's record of a token, giving the
/// owner it names.
#[verifier::external_body]
pub fn parse_cw721_token_owner(bytes: &[u8]) -> (res: Option<String>)
    ensures
        res matches Some(s) ==> cw721_token_owner(bytes@) == Some(s@),
        res is None ==> cw721_token_owner(bytes@) is None,
{
    match cosmwasm_std::from_slice::<cw721_base::state::TokenInfo<cw721_base::Extension>>(bytes) {
        Ok(info) => Some(info.owner.into_string()),
        Err(_) => None,
    }
}

/// `std::str::from_utf8`: the text the bytes encode, when they are valid
/// UTF-8.
#[verifier::external_body]
pub fn utf8_text(bytes: &[u8]) -> (res: Option<String>)
    ensures
        res is Some <==> valid_utf8(bytes@),
        res matches Some(s) ==> s@ == decode_utf8(bytes@),
{
    match std::str::from_utf8(bytes) {
        Ok(text) => Some(text.to_string()),
        Err(_) => None,
    }
}

} // verus!
