//! A single-token contract: one NFT, kept as JSON under the key `nft`,
//! minted to the caller and transferable to anyone.

use crate::codec::{
    digit_char, nat_decimal, int_decimal, json_i32, json_leading_string, json_quote, json_string, json_string_prefix,
    lemma_encode_utf8_concat, starts_with, wasm_json_str_bytes, wasm_json_string,
};
use crate::response::{plain_response, response_new, response_view};
use crate::storage::{contents, storage_get, storage_set};
use cosmwasm_std::{MemoryStorage, Response};
use vstd::prelude::*;
use vstd::utf8::encode_utf8;

verus! {

/// A song's metadata.
#[derive(Clone, Debug, PartialEq)]
pub struct Metadata {
    pub artist_name: String,
    pub album_name: String,
    pub album_artwork: String,
    pub album_year: i32,
    pub track_name: String,
    pub external_track_link: String,
}

/// The mathematical value of a `Metadata`.
pub struct MetadataModel {
    pub artist_name: Seq<char>,
    pub album_name: Seq<char>,
    pub album_artwork: Seq<char>,
    pub album_year: i32,
    pub track_name: Seq<char>,
    pub external_track_link: Seq<char>,
}

impl View for Metadata {
    type V = MetadataModel;

    open spec fn view(&self) -> MetadataModel {
        MetadataModel {
            artist_name: self.artist_name@,
            album_name: self.album_name@,
            album_artwork: self.album_artwork@,
            album_year: self.album_year,
            track_name: self.track_name@,
            external_track_link: self.external_track_link@,
        }
    }
}

/// The token: its owner and its metadata as JSON text.
#[derive(Clone, Debug, PartialEq)]
pub struct NFT {
    pub owner: String,
    pub metadata: String,
}

/// The contract's operations.
#[derive(Clone, Debug, PartialEq)]
pub enum HandleMsg {
    Mint { metadata: Metadata },
    Transfer { recipient: String },
}

/// The contract's queries.
#[derive(Clone, Debug, PartialEq)]
pub enum QueryMsg {
    OwnerOf {},
}

/// The setup message: it carries nothing.
#[derive(Clone, Debug, PartialEq)]
pub struct InitMsg {}

/// The storage key of the token.
pub open spec fn nft_key() -> Seq<u8> {
    encode_utf8("nft"@)
}

/// The JSON text of song metadata, fields in declaration order.
pub open spec fn metadata_json(m: MetadataModel) -> Seq<char> {
    "{\"artist_name\":"@ + json_quote(m.artist_name, false) + ",\"album_name\":"@ + json_quote(
        m.album_name,
        false,
    ) + ",\"album_artwork\":"@ + json_quote(m.album_artwork, false) + ",\"album_year\":"@
        + int_decimal(m.album_year as int) + ",\"track_name\":"@ + json_quote(m.track_name, false)
        + ",\"external_track_link\":"@ + json_quote(m.external_track_link, false) + "}"@
}

/// The JSON text of the token, fields in declaration order.
pub open spec fn nft_json(owner: Seq<char>, metadata: Seq<char>) -> Seq<char> {
    "{\"owner\":"@ + json_quote(owner, false) + ",\"metadata\":"@ + json_quote(metadata, false) + "}"@
}

/// The owner and metadata text that stored token bytes read as: the
/// object's opening and owner key, the owner's string, the metadata key,
/// the metadata's string and the closing brace, with nothing around them.
pub open spec fn nft_fields(bytes: Seq<u8>) -> Option<(Seq<char>, Seq<char>)> {
    let p1 = encode_utf8("{\"owner\":"@);
    if !starts_with(bytes, p1) {
        None
    } else {
        let r1 = bytes.subrange(p1.len() as int, bytes.len() as int);
        match json_leading_string(r1) {
            None => None,
            Some((owner, n1)) => {
                let p2 = encode_utf8(",\"metadata\":"@);
                if n1 > r1.len() || !starts_with(r1.subrange(n1 as int, r1.len() as int), p2) {
                    None
                } else {
                    let r3 = r1.subrange((n1 + p2.len()) as int, r1.len() as int);
                    match json_leading_string(r3) {
                        None => None,
                        Some((metadata, n2)) => {
                            if n2 <= r3.len() && r3.subrange(n2 as int, r3.len() as int) == encode_utf8(
                                "}"@,
                            ) {
                                Some((owner, metadata))
                            } else {
                                None
                            }
                        },
                    }
                }
            },
        }
    }
}

/// Whether `bytes` holds `prefix` from `start` on.
fn has_at(bytes: &[u8], start: usize, prefix: &[u8]) -> (res: bool)
    requires
        start <= bytes@.len(),
    ensures
        res == starts_with(bytes@.subrange(start as int, bytes@.len() as int), prefix@),
{
    if prefix.len() > bytes.len() - start {
        return false;
    }
    let n: usize = bytes.len();
    let mut i: usize = 0;
    while i < prefix.len()
        invariant
            n == bytes@.len(),
            start + prefix@.len() <= bytes@.len(),
            i <= prefix@.len(),
            forall|j: int| 0 <= j < i ==> bytes@[start + j] == prefix@[j],
        decreases prefix@.len() - i,
    {
        assert(start + i < bytes@.len());
        if bytes[start + i] != prefix[i] {
            assert(bytes@.subrange(start as int, bytes@.len() as int).subrange(0, prefix@.len() as int)[i as int]
                != prefix@[i as int]);
            return false;
        }
        i = i + 1;
    }
    assert(bytes@.subrange(start as int, bytes@.len() as int).subrange(0, prefix@.len() as int) =~= prefix@);
    true
}

/// Reads stored token bytes as owner and metadata text.
pub fn read_nft(bytes: &[u8]) -> (res: Option<NFT>)
    ensures
        res matches Some(n) ==> nft_fields(bytes@) == Some((n.owner@, n.metadata@)),
        res is None ==> nft_fields(bytes@) is None,
{
    let p1 = "{\"owner\":".as_bytes();
    if !has_at(bytes, 0, p1) {
        assert(bytes@.subrange(0, bytes@.len() as int) =~= bytes@);
        return None;
    }
    assert(bytes@.subrange(0, bytes@.len() as int) =~= bytes@);
    let r1 = &bytes[p1.len()..bytes.len()];
    let (owner, n1) = match json_string_prefix(r1) {
        None => {
            return None;
        },
        Some(p) => p,
    };
    let p2 = ",\"metadata\":".as_bytes();
    if !has_at(r1, n1, p2) {
        return None;
    }
    let start3 = n1 + p2.len();
    let r3 = &r1[start3..r1.len()];
    assert(r3@ == r1@.subrange(n1 + p2@.len(), r1@.len() as int));
    let (metadata, n2) = match json_string_prefix(r3) {
        None => {
            return None;
        },
        Some(p) => p,
    };
    let close = "}".as_bytes();
    if r3.len() - n2 != close.len() || !has_at(r3, n2, close) {
        let ghost tail = r3@.subrange(n2 as int, r3@.len() as int);
        assert(tail.len() == close@.len() ==> tail.subrange(0, close@.len() as int) =~= tail);
        assert(tail != close@);
        return None;
    }
    assert(r3@.subrange(n2 as int, r3@.len() as int) =~= close@);
    Some(NFT { owner, metadata })
}

/// The JSON text of song metadata, as `serde_json` writes it.
pub fn metadata_to_json(metadata: &Metadata) -> (res: String)
    ensures
        res@ == metadata_json(metadata@),
{
    let mut text = "{\"artist_name\":".to_string();
    text.append(json_string(metadata.artist_name.as_str()).as_str());
    text.append(",\"album_name\":");
    text.append(json_string(metadata.album_name.as_str()).as_str());
    text.append(",\"album_artwork\":");
    text.append(json_string(metadata.album_artwork.as_str()).as_str());
    text.append(",\"album_year\":");
    text.append(json_i32(metadata.album_year).as_str());
    text.append(",\"track_name\":");
    text.append(json_string(metadata.track_name.as_str()).as_str());
    text.append(",\"external_track_link\":");
    text.append(json_string(metadata.external_track_link.as_str()).as_str());
    text.append("}");
    text
}

/// The token's bytes as `serde_json` writes it; they read back as the
/// owner and metadata given.
pub fn write_nft(nft: &NFT) -> (res: Vec<u8>)
    ensures
        res@ == encode_utf8(nft_json(nft.owner@, nft.metadata@)),
        nft_fields(res@) == Some((nft.owner@, nft.metadata@)),
        res@.len() > 0,
{
    let owner_literal = json_string(nft.owner.as_str());
    let metadata_literal = json_string(nft.metadata.as_str());
    let mut text = "{\"owner\":".to_string();
    text.append(owner_literal.as_str());
    text.append(",\"metadata\":");
    text.append(metadata_literal.as_str());
    text.append("}");
    let bytes = slice_to_bytes(text.as_str().as_bytes());
    proof {
        let a = "{\"owner\":"@;
        let o = owner_literal@;
        let b = ",\"metadata\":"@;
        let m = metadata_literal@;
        let z = "}"@;
        assert(text@ =~= a + (o + (b + (m + z))));
        lemma_encode_utf8_concat(a, o + (b + (m + z)));
        lemma_encode_utf8_concat(o, b + (m + z));
        lemma_encode_utf8_concat(b, m + z);
        lemma_encode_utf8_concat(m, z);
        let bs = bytes@;
        let r1 = bs.subrange(encode_utf8(a).len() as int, bs.len() as int);
        assert(bs.subrange(0, encode_utf8(a).len() as int) =~= encode_utf8(a));
        let rest1 = encode_utf8(b + (m + z));
        assert(r1 =~= encode_utf8(o) + rest1);
        assert(json_leading_string(encode_utf8(o) + rest1) == Some((nft.owner@, encode_utf8(o).len())));
        let n1 = encode_utf8(o).len();
        assert(r1.subrange(n1 as int, r1.len() as int) =~= rest1);
        assert(rest1 =~= encode_utf8(b) + encode_utf8(m + z));
        assert(rest1.subrange(0, encode_utf8(b).len() as int) =~= encode_utf8(b));
        let r3 = r1.subrange((n1 + encode_utf8(b).len()) as int, r1.len() as int);
        assert(r3 =~= encode_utf8(m) + encode_utf8(z));
        assert(json_leading_string(encode_utf8(m) + encode_utf8(z)) == Some((nft.metadata@, encode_utf8(m).len())));
        assert(r3.subrange(encode_utf8(m).len() as int, r3.len() as int) =~= encode_utf8(z));
        reveal_strlit("{\"owner\":");
        assert(a.len() > 0);
        assert(encode_utf8(a).len() > 0);
    }
    bytes
}

/// A copy of some bytes.
fn slice_to_bytes(bytes: &[u8]) -> (res: Vec<u8>)
    ensures
        res@ == bytes@,
{
    let mut out: Vec<u8> = Vec::new();
    crate::storage::push_bytes(&mut out, bytes);
    assert(out@ =~= bytes@);
    out
}

/// Sets the contract up: nothing is stored.
pub fn init(storage: &mut MemoryStorage, sender: &String, msg: InitMsg) -> (res: Response)
    ensures
        response_view(res) == plain_response(Seq::empty()),
        contents(*final(storage)) == contents(*old(storage)),
{
    response_new()
}

/// The storage once the token is stored with `owner` as owner and
/// `metadata` as its metadata text.
pub open spec fn with_nft(c: Map<Seq<u8>, Seq<u8>>, owner: Seq<char>, metadata: Seq<char>) -> Map<Seq<u8>, Seq<u8>> {
    c.insert(nft_key(), encode_utf8(nft_json(owner, metadata)))
}

/// The token stored in `c`, as the library's reader reads it: owner and
/// metadata text.
pub open spec fn stored_nft(c: Map<Seq<u8>, Seq<u8>>) -> Option<(Seq<char>, Seq<char>)> {
    if c.dom().contains(nft_key()) {
        nft_fields(c[nft_key()])
    } else {
        None
    }
}

/// The token as the contract takes it: the stored token when the library's
/// reader reads it, else the one `parsed` holds (the stored bytes as
/// `serde_json` reads them, for other layouts).
pub open spec fn current_nft(c: Map<Seq<u8>, Seq<u8>>, parsed: Option<NFT>) -> (Seq<char>, Seq<char>) {
    match stored_nft(c) {
        Some(t) => t,
        None => (parsed->Some_0.owner@, parsed->Some_0.metadata@),
    }
}

/// The stored token, as the library's reader reads it, or else as `parsed`
/// holds it.
fn load_nft(storage: &MemoryStorage, parsed: Option<NFT>) -> (res: NFT)
    requires
        stored_nft(contents(*storage)) is Some || parsed is Some,
    ensures
        (res.owner@, res.metadata@) == current_nft(contents(*storage), parsed),
{
    let from_storage = match storage_get(storage, "nft".as_bytes()) {
        Some(bytes) => read_nft(bytes.as_slice()),
        None => None,
    };
    match from_storage {
        Some(nft) => nft,
        None => parsed.unwrap(),
    }
}

/// Handles an operation. A mint stores the token with the caller as owner
/// and the metadata as JSON text. A transfer gives the stored token to
/// `recipient`, keeping its metadata. The stored token is read with the
/// library's reader; `parsed` is the stored token as `serde_json` reads it
/// (`None` when there is none or it does not read), for layouts the
/// library's reader does not take. A transfer needs one of the two.
pub fn handle(storage: &mut MemoryStorage, sender: &String, msg: HandleMsg, parsed: Option<NFT>) -> (res: Response)
    requires
        msg is Transfer ==> (stored_nft(contents(*old(storage))) is Some || parsed is Some),
    ensures
        response_view(res) == plain_response(Seq::empty()),
        match msg {
            HandleMsg::Mint { metadata } => contents(*final(storage)) == with_nft(
                contents(*old(storage)),
                sender@,
                metadata_json(metadata@),
            ) && stored_nft(contents(*final(storage))) == Some((sender@, metadata_json(metadata@))),
            HandleMsg::Transfer { recipient } => {
                let metadata = current_nft(contents(*old(storage)), parsed).1;
                contents(*final(storage)) == with_nft(contents(*old(storage)), recipient@, metadata)
                    && stored_nft(contents(*final(storage))) == Some((recipient@, metadata))
            },
        },
{
    match msg {
        HandleMsg::Mint { metadata } => {
            let metadata_str = metadata_to_json(&metadata);
            let nft = NFT { owner: sender.clone(), metadata: metadata_str };
            let data = write_nft(&nft);
            storage_set(storage, "nft".as_bytes(), data.as_slice());
            response_new()
        },
        HandleMsg::Transfer { recipient } => {
            let mut nft = load_nft(storage, parsed);
            nft.owner = recipient;
            let data = write_nft(&nft);
            storage_set(storage, "nft".as_bytes(), data.as_slice());
            response_new()
        },
    }
}

/// Answers a query: the JSON of the stored token's owner, as CosmWasm
/// writes it. The stored token is read with the library's reader, or else
/// taken from `parsed` (as in `handle`); one of the two is needed.
pub fn query(storage: &MemoryStorage, msg: QueryMsg, parsed: Option<NFT>) -> (res: Vec<u8>)
    requires
        stored_nft(contents(*storage)) is Some || parsed is Some,
    ensures
        res@ == wasm_json_str_bytes(current_nft(contents(*storage), parsed).0),
{
    match msg {
        QueryMsg::OwnerOf {} => {
            let nft = load_nft(storage, parsed);
            wasm_json_string(nft.owner.as_str())
        },
    }
}

/// The owner after a mint by `minter` and transfers to `recipients`, in
/// order: the last recipient, or the minter when there was no transfer.
pub open spec fn last_owner(minter: Seq<char>, recipients: Seq<Seq<char>>) -> Seq<char> {
    if recipients.len() == 0 {
        minter
    } else {
        recipients.last()
    }
}

/// Whatever transfers follow a mint, the stored token has the last
/// recipient (the minter when there was none) as owner and the minted
/// metadata, so the owner query answers that owner. `states` are the
/// storages after the mint and after each transfer; each transfer stores,
/// as `handle` does, the next recipient with the metadata it read.
pub proof fn law_owner_after_transfers(
    states: Seq<Map<Seq<u8>, Seq<u8>>>,
    minter: Seq<char>,
    metadata: Seq<char>,
    recipients: Seq<Seq<char>>,
)
    requires
        states.len() == recipients.len() + 1,
        stored_nft(states[0]) == Some((minter, metadata)),
        forall|i: int|
            1 <= i < states.len() ==> stored_nft(#[trigger] states[i]) == Some(
                (recipients[i - 1], stored_nft(states[i - 1])->Some_0.1),
            ),
    ensures
        stored_nft(states.last()) == Some((last_owner(minter, recipients), metadata)),
        forall|parsed: Option<NFT>|
            #[trigger] current_nft(states.last(), parsed) == (last_owner(minter, recipients), metadata),
    decreases recipients.len(),
{
    if recipients.len() > 0 {
        let fewer = states.drop_last();
        assert forall|i: int| 1 <= i < fewer.len() implies stored_nft(#[trigger] fewer[i]) == Some(
            (recipients.drop_last()[i - 1], stored_nft(fewer[i - 1])->Some_0.1),
        ) by {
            assert(fewer[i] == states[i]);
            assert(fewer[i - 1] == states[i - 1]);
        }
        law_owner_after_transfers(fewer, minter, metadata, recipients.drop_last());
        assert(fewer.last() == states[states.len() - 2]);
        assert(states[states.len() - 1] == states.last());
    }
}

/// The integer a string of decimal digits stands for.
pub open spec fn digits_value(s: Seq<char>) -> int
    decreases s.len(),
{
    if s.len() == 0 {
        0
    } else {
        digits_value(s.drop_last()) * 10 + (s.last() as int - 48)
    }
}

/// The integer a JSON number without fraction or exponent stands for: a
/// leading minus, then decimal digits.
pub open spec fn decimal_value(s: Seq<char>) -> int {
    if s.len() > 0 && s[0] == '-' {
        -digits_value(s.drop_first())
    } else {
        digits_value(s)
    }
}

/// A decimal digit character stands for its digit.
proof fn lemma_digit_char_value(d: nat)
    ensures
        digit_char(d) as int == (d % 10) + 48,
{
    let x: int = ((d % 10) + 48) as int;
    assert(48 <= x < 58);
    assert((x as char) as int == x);
}

/// The decimal text of a natural number reads back as that number, and
/// begins with a digit.
proof fn lemma_nat_decimal_reads_back(n: nat)
    ensures
        nat_decimal(n).len() > 0,
        digits_value(nat_decimal(n)) == n,
        nat_decimal(n)[0] != '-',
    decreases n,
{
    lemma_digit_char_value(n);
    lemma_digit_char_value(n % 10);
    if n < 10 {
        assert(nat_decimal(n).drop_last() =~= Seq::<char>::empty());
        assert(digits_value(Seq::<char>::empty()) == 0);
        assert(n % 10 == n);
        assert(nat_decimal(n).last() == digit_char(n));
        assert(digits_value(nat_decimal(n)) == digits_value(nat_decimal(n).drop_last()) * 10 + (nat_decimal(n).last() as int - 48));
    } else {
        lemma_nat_decimal_reads_back(n / 10);
        let t = nat_decimal(n);
        assert(t.drop_last() =~= nat_decimal(n / 10));
        assert(t.last() == digit_char(n % 10));
        assert(n == (n / 10) * 10 + n % 10);
        assert(digits_value(t) == digits_value(t.drop_last()) * 10 + (t.last() as int - 48));
        assert(t[0] == nat_decimal(n / 10)[0]);
    }
}

/// An integer's decimal text, as the minted metadata holds the year, reads
/// back as that integer.
pub proof fn law_decimal_reads_back(i: int)
    ensures
        decimal_value(int_decimal(i)) == i,
{
    if i < 0 {
        lemma_nat_decimal_reads_back((-i) as nat);
        assert((seq!['-'] + nat_decimal((-i) as nat)).drop_first() =~= nat_decimal((-i) as nat));
    } else {
        lemma_nat_decimal_reads_back(i as nat);
    }
}

/// In the minted metadata text the year is a stretch of its own: two
/// metadata that differ at most in their year give texts that agree around
/// one stretch, which holds each year's decimal text. With
/// `law_decimal_reads_back`, that stretch reads back as the given year.
pub proof fn law_year_is_written_as_given(m1: MetadataModel, m2: MetadataModel)
    requires
        m1.artist_name == m2.artist_name,
        m1.album_name == m2.album_name,
        m1.album_artwork == m2.album_artwork,
        m1.track_name == m2.track_name,
        m1.external_track_link == m2.external_track_link,
    ensures
        exists|before: Seq<char>, after: Seq<char>|
            metadata_json(m1) == before + int_decimal(m1.album_year as int) + after && metadata_json(m2) == before
                + int_decimal(m2.album_year as int) + after,
{
    let before = "{\"artist_name\":"@ + json_quote(m1.artist_name, false) + ",\"album_name\":"@ + json_quote(
        m1.album_name,
        false,
    ) + ",\"album_artwork\":"@ + json_quote(m1.album_artwork, false) + ",\"album_year\":"@;
    let after = ",\"track_name\":"@ + json_quote(m1.track_name, false) + ",\"external_track_link\":"@ + json_quote(
        m1.external_track_link,
        false,
    ) + "}"@;
    assert(metadata_json(m1) =~= before + int_decimal(m1.album_year as int) + after);
    assert(metadata_json(m2) =~= before + int_decimal(m2.album_year as int) + after);
}

} // verus!
