//! Finding the tokens that storage holds records of, by walking its keys.

use crate::codec::utf8_text;
use crate::records::{cw721_token_key, cw721_token_key_text, owner_key, owner_key_text, owner_of};
use crate::storage::{contents, cw721_token_key_bytes, storage_keys};
use cosmwasm_std::MemoryStorage;
use vstd::prelude::*;
use vstd::utf8::{decode_utf8_encode_utf8, encode_utf8, encode_utf8_decode_utf8, encode_utf8_valid_utf8};

verus! {

broadcast use encode_utf8_valid_utf8, encode_utf8_decode_utf8, decode_utf8_encode_utf8;

/// The texts of a list of strings.
pub open spec fn texts(v: Seq<String>) -> Seq<Seq<char>> {
    v.map_values(|s: String| s@)
}

/// Whether storage holds a record of the token: an owner record, or a record
/// in cw721-base's `tokens` map.
pub open spec fn has_token_record(c: Map<Seq<u8>, Seq<u8>>, id: Seq<char>) -> bool {
    c.dom().contains(owner_key(id)) || c.dom().contains(cw721_token_key(id))
}

/// Whether a token counts for a listing: it has an owner, and that owner is
/// `owner` when one is given.
pub open spec fn listed_for(c: Map<Seq<u8>, Seq<u8>>, id: Seq<char>, owner: Option<Seq<char>>) -> bool {
    match owner {
        Some(o) => owner_of(c, id) == Some(o),
        None => owner_of(c, id) is Some,
    }
}

/// `ids` names each token that counts for the listing once, and nothing else.
pub open spec fn lists_tokens(ids: Seq<Seq<char>>, c: Map<Seq<u8>, Seq<u8>>, owner: Option<Seq<char>>) -> bool {
    &&& ids.no_duplicates()
    &&& forall|id: Seq<char>| #[trigger] ids.contains(id) <==> listed_for(c, id, owner)
}

/// The tokens that count for a listing.
pub open spec fn tokens_listed(c: Map<Seq<u8>, Seq<u8>>, owner: Option<Seq<char>>) -> Set<Seq<char>> {
    Set::new(|id: Seq<char>| listed_for(c, id, owner))
}

/// A token with an owner has a record of it in storage.
pub proof fn lemma_owner_has_record(c: Map<Seq<u8>, Seq<u8>>, id: Seq<char>)
    ensures
        owner_of(c, id) is Some ==> has_token_record(c, id),
{
}

/// The UTF-8 bytes of a prefix text and a token id are the prefix's bytes
/// followed by the id's.
proof fn lemma_prefixed_bytes(prefix: Seq<char>, id: Seq<char>)
    ensures
        encode_utf8(prefix + id) == encode_utf8(prefix) + encode_utf8(id),
{
    crate::codec::lemma_encode_utf8_concat(prefix, id);
}

/// Whether `bytes` begins with `prefix`.
fn has_prefix(bytes: &[u8], prefix: &[u8]) -> (res: bool)
    ensures
        res == (prefix@.len() <= bytes@.len() && bytes@.subrange(0, prefix@.len() as int) == prefix@),
{
    if prefix.len() > bytes.len() {
        return false;
    }
    let mut i: usize = 0;
    while i < prefix.len()
        invariant
            prefix@.len() <= bytes@.len(),
            i <= prefix@.len(),
            bytes@.subrange(0, i as int) == prefix@.subrange(0, i as int),
        decreases prefix@.len() - i,
    {
        if bytes[i] != prefix[i] {
            assert(bytes@.subrange(0, prefix@.len() as int)[i as int] != prefix@[i as int]);
            return false;
        }
        i = i + 1;
        assert(bytes@.subrange(0, i as int) =~= prefix@.subrange(0, i as int));
    }
    assert(prefix@.subrange(0, prefix@.len() as int) =~= prefix@);
    true
}

/// The bytes of `bytes` from `start` on.
fn bytes_from(bytes: &[u8], start: usize) -> (res: Vec<u8>)
    requires
        start <= bytes@.len(),
    ensures
        res@ == bytes@.subrange(start as int, bytes@.len() as int),
{
    let mut out: Vec<u8> = Vec::new();
    let mut i: usize = start;
    while i < bytes.len()
        invariant
            start <= i <= bytes@.len(),
            out@ == bytes@.subrange(start as int, i as int),
        decreases bytes@.len() - i,
    {
        out.push(bytes[i]);
        i = i + 1;
        assert(out@ =~= bytes@.subrange(start as int, i as int));
    }
    out
}

/// The token id a key names after `prefix`: the text of the rest of the key,
/// when the key begins with `prefix` and the rest is UTF-8.
fn id_after(key: &[u8], prefix: &[u8]) -> (res: Option<String>)
    ensures
        res matches Some(s) ==> key@ == prefix@ + encode_utf8(s@),
        forall|id: Seq<char>| key@ == prefix@ + encode_utf8(id) ==> (res matches Some(s) && s@ == id),
{
    if !has_prefix(key, prefix) {
        proof {
            assert forall|id: Seq<char>| key@ != prefix@ + encode_utf8(id) by {
                if key@ == prefix@ + encode_utf8(id) {
                    assert(key@.subrange(0, prefix@.len() as int) =~= prefix@);
                }
            }
        }
        return None;
    }
    let rest = bytes_from(key, prefix.len());
    assert(key@ =~= prefix@ + rest@);
    let res = utf8_text(rest.as_slice());
    proof {
        assert forall|id: Seq<char>| key@ == prefix@ + encode_utf8(id) implies (res matches Some(s) && s@ == id) by {
            assert(rest@ =~= encode_utf8(id));
        }
    }
    res
}

/// Whether `ids` holds the text `s`.
fn contains_text(ids: &Vec<String>, s: &String) -> (res: bool)
    ensures
        res == texts(ids@).contains(s@),
{
    let mut i: usize = 0;
    while i < ids.len()
        invariant
            i <= ids@.len(),
            forall|j: int| 0 <= j < i ==> ids@[j]@ != s@,
        decreases ids@.len() - i,
    {
        if ids[i].eq(s) {
            assert(texts(ids@)[i as int] == s@);
            return true;
        }
        i = i + 1;
    }
    proof {
        if texts(ids@).contains(s@) {
            let j = choose|j: int| 0 <= j < texts(ids@).len() && texts(ids@)[j] == s@;
            assert(ids@[j]@ == s@);
        }
    }
    false
}

/// Adds `id` to `ids` unless it is there already.
fn push_new(ids: &mut Vec<String>, id: String)
    requires
        texts(old(ids)@).no_duplicates(),
    ensures
        texts(final(ids)@).no_duplicates(),
        forall|x: Seq<char>| #[trigger] texts(final(ids)@).contains(x) <==> (texts(old(ids)@).contains(x) || x == id@),
{
    if !contains_text(ids, &id) {
        let ghost before = texts(ids@);
        ids.push(id);
        proof {
            assert(texts(ids@) =~= before.push(id@));
            assert forall|x: Seq<char>| #[trigger] texts(ids@).contains(x) <==> (before.contains(x) || x == id@) by {
                if texts(ids@).contains(x) {
                    let j = choose|j: int| 0 <= j < texts(ids@).len() && texts(ids@)[j] == x;
                    if j < before.len() {
                        assert(before[j] == x);
                    }
                }
                if before.contains(x) {
                    let j = choose|j: int| 0 <= j < before.len() && before[j] == x;
                    assert(texts(ids@)[j] == x);
                }
                if x == id@ {
                    assert(texts(ids@)[before.len() as int] == x);
                }
            }
        }
    }
}

/// The ids of the tokens that storage holds a record of, each once.
pub fn recorded_token_ids(storage: &MemoryStorage) -> (res: Vec<String>)
    ensures
        texts(res@).no_duplicates(),
        forall|id: Seq<char>| #[trigger] texts(res@).contains(id) <==> has_token_record(contents(*storage), id),
{
    let ghost c = contents(*storage);
    let keys = storage_keys(storage);
    let owner_prefix = "owner_of_".as_bytes();
    let base_prefix = cw721_token_key_bytes("");
    proof {
        reveal_strlit("");
        assert(cw721_token_key_text(""@) =~= seq!['\0', '\u{6}'] + "tokens"@);
    }
    let mut ids: Vec<String> = Vec::new();
    let mut i: usize = 0;
    while i < keys.len()
        invariant
            i <= keys@.len(),
            c == contents(*storage),
            owner_prefix@ == encode_utf8("owner_of_"@),
            base_prefix@ == encode_utf8(seq!['\0', '\u{6}'] + "tokens"@),
            forall|j: int| 0 <= j < keys@.len() ==> c.dom().contains(#[trigger] keys@[j]@),
            texts(ids@).no_duplicates(),
            forall|id: Seq<char>| #[trigger] texts(ids@).contains(id) ==> has_token_record(c, id),
            forall|id: Seq<char>, j: int|
                #![trigger keys@[j], owner_key(id)]
                0 <= j < i && keys@[j]@ == owner_key(id) ==> texts(ids@).contains(id),
            forall|id: Seq<char>, j: int|
                #![trigger keys@[j], cw721_token_key(id)]
                0 <= j < i && keys@[j]@ == cw721_token_key(id) ==> texts(ids@).contains(id),
        decreases keys@.len() - i,
    {
        let key = keys[i].as_slice();
        let ghost k = keys@[i as int]@;
        proof {
            assert forall|id: Seq<char>| k == owner_key(id) <==> k == owner_prefix@ + encode_utf8(id) by {
                lemma_prefixed_bytes("owner_of_"@, id);
            }
            assert forall|id: Seq<char>| k == cw721_token_key(id) <==> k == base_prefix@ + encode_utf8(id) by {
                lemma_prefixed_bytes(seq!['\0', '\u{6}'] + "tokens"@, id);
                assert(cw721_token_key_text(id) =~= (seq!['\0', '\u{6}'] + "tokens"@) + id);
            }
        }
        match id_after(key, owner_prefix) {
            Some(id) => {
                proof {
                    assert(k == owner_key(id@));
                    assert forall|x: Seq<char>| k != cw721_token_key(x) by {
                        crate::records::lemma_cw721_key_apart(x, id@, Seq::empty());
                    }
                }
                push_new(&mut ids, id);
            },
            None => match id_after(key, base_prefix.as_slice()) {
                Some(id) => {
                    push_new(&mut ids, id);
                },
                None => {},
            },
        }
        i = i + 1;
    }
    proof {
        assert forall|id: Seq<char>| has_token_record(c, id) implies #[trigger] texts(ids@).contains(id) by {
            if c.dom().contains(owner_key(id)) {
                let j = choose|j: int| 0 <= j < keys@.len() && keys@[j]@ == owner_key(id);
                assert(keys@[j]@ == owner_key(id));
            } else {
                let j = choose|j: int| 0 <= j < keys@.len() && keys@[j]@ == cw721_token_key(id);
                assert(keys@[j]@ == cw721_token_key(id));
            }
        }
    }
    ids
}

/// The texts that follow `prefix` in stored keys, each once: `t` is listed
/// exactly when storage holds the key `prefix` followed by the UTF-8 bytes
/// of `t`.
pub fn stored_suffixes(storage: &MemoryStorage, prefix: &[u8]) -> (res: Vec<String>)
    ensures
        texts(res@).no_duplicates(),
        forall|t: Seq<char>| #[trigger] texts(res@).contains(t) <==> contents(*storage).dom().contains(
            prefix@ + encode_utf8(t),
        ),
{
    let ghost c = contents(*storage);
    let keys = storage_keys(storage);
    let mut found: Vec<String> = Vec::new();
    let mut i: usize = 0;
    while i < keys.len()
        invariant
            i <= keys@.len(),
            c == contents(*storage),
            forall|j: int| 0 <= j < keys@.len() ==> c.dom().contains(#[trigger] keys@[j]@),
            texts(found@).no_duplicates(),
            forall|t: Seq<char>| #[trigger] texts(found@).contains(t) ==> c.dom().contains(prefix@ + encode_utf8(t)),
            forall|t: Seq<char>, j: int|
                #![trigger keys@[j], encode_utf8(t)]
                0 <= j < i && keys@[j]@ == prefix@ + encode_utf8(t) ==> texts(found@).contains(t),
        decreases keys@.len() - i,
    {
        match id_after(keys[i].as_slice(), prefix) {
            Some(t) => {
                push_new(&mut found, t);
            },
            None => {},
        }
        i = i + 1;
    }
    proof {
        assert forall|t: Seq<char>| c.dom().contains(prefix@ + encode_utf8(t)) implies #[trigger] texts(found@).contains(t) by {
            let j = choose|j: int| 0 <= j < keys@.len() && keys@[j]@ == prefix@ + encode_utf8(t);
            assert(keys@[j]@ == prefix@ + encode_utf8(t));
        }
    }
    found
}

/// The view of an optional owner.
pub open spec fn owner_view(owner: Option<&str>) -> Option<Seq<char>> {
    match owner {
        Some(o) => Some(o@),
        None => None,
    }
}

/// The tokens that have an owner, each once; only those of `owner` when it
/// is given.
pub fn list_tokens(storage: &MemoryStorage, owner: Option<&str>) -> (res: Vec<String>)
    ensures
        lists_tokens(texts(res@), contents(*storage), owner_view(owner)),
{
    let ghost c = contents(*storage);
    let ghost o = owner_view(owner);
    let ids = recorded_token_ids(storage);
    let wanted_owner: Option<String> = match owner {
        Some(w) => Some(w.to_string()),
        None => None,
    };
    let mut out: Vec<String> = Vec::new();
    let mut i: usize = 0;
    while i < ids.len()
        invariant
            i <= ids@.len(),
            c == contents(*storage),
            o == owner_view(owner),
            wanted_owner matches Some(w) ==> o == Some(w@),
            wanted_owner is None ==> o is None,
            texts(ids@).no_duplicates(),
            forall|id: Seq<char>| #[trigger] texts(ids@).contains(id) <==> has_token_record(c, id),
            texts(out@).no_duplicates(),
            forall|id: Seq<char>| #[trigger] texts(out@).contains(id) ==> listed_for(c, id, o),
            forall|id: Seq<char>| #[trigger] texts(out@).contains(id) ==> exists|j: int| 0 <= j < i && ids@[j]@ == id,
            forall|j: int| 0 <= j < i && listed_for(c, #[trigger] ids@[j]@, o) ==> texts(out@).contains(ids@[j]@),
        decreases ids@.len() - i,
    {
        let found = crate::song::get_owner_of_token(storage, ids[i].as_str());
        let keep = match found {
            Ok(Some(a)) => match &wanted_owner {
                Some(wanted) => a.eq(wanted),
                None => true,
            },
            _ => false,
        };
        let ghost before = texts(out@);
        let ghost cur = ids@[i as int]@;
        proof {
            assert(texts(ids@)[i as int] == cur);
        }
        if keep {
            proof {
                if before.contains(cur) {
                    let j = choose|j: int| 0 <= j < i && ids@[j]@ == cur;
                    assert(texts(ids@)[j] == texts(ids@)[i as int]);
                }
            }
            out.push(ids[i].clone());
            proof {
                assert(texts(out@) =~= before.push(cur));
                assert forall|id: Seq<char>| #[trigger] texts(out@).contains(id) implies (before.contains(id) || id == cur) by {
                    let j = choose|j: int| 0 <= j < texts(out@).len() && texts(out@)[j] == id;
                    if j < before.len() {
                        assert(before[j] == id);
                    }
                }
                assert forall|id: Seq<char>| before.contains(id) implies #[trigger] texts(out@).contains(id) by {
                    let j = choose|j: int| 0 <= j < before.len() && before[j] == id;
                    assert(texts(out@)[j] == id);
                }
                assert(texts(out@)[before.len() as int] == cur);
            }
        }
        i = i + 1;
    }
    proof {
        assert forall|id: Seq<char>| listed_for(c, id, o) implies #[trigger] texts(out@).contains(id) by {
            lemma_owner_has_record(c, id);
            assert(texts(ids@).contains(id));
            let j = choose|j: int| 0 <= j < texts(ids@).len() && texts(ids@)[j] == id;
            assert(ids@[j]@ == id);
        }
    }
    out
}

/// A list that names each token of a listing once has as many entries as
/// the listing has tokens.
pub proof fn lemma_listing_len(ids: Seq<Seq<char>>, c: Map<Seq<u8>, Seq<u8>>, owner: Option<Seq<char>>)
    requires
        lists_tokens(ids, c, owner),
    ensures
        ids.len() == tokens_listed(c, owner).len(),
{
    ids.unique_seq_to_set();
    assert(ids.to_set() =~= tokens_listed(c, owner));
}

} // verus!
