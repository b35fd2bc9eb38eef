//! Pages of token lists: the tokens after a given one, in ascending order
//! of their UTF-8 bytes, up to a limit.

use crate::listing::texts;
use vstd::prelude::*;
use vstd::utf8::encode_utf8;

verus! {

/// Whether the bytes `a` come before the bytes `b` in lexicographic order.
pub open spec fn bytes_before(a: Seq<u8>, b: Seq<u8>) -> bool
    decreases a.len(),
{
    if a.len() == 0 {
        b.len() > 0
    } else if b.len() == 0 {
        false
    } else if a[0] != b[0] {
        a[0] < b[0]
    } else {
        bytes_before(a.drop_first(), b.drop_first())
    }
}

/// Whether the text `a` comes before the text `b`: by their UTF-8 bytes.
pub open spec fn text_before(a: Seq<char>, b: Seq<char>) -> bool {
    bytes_before(encode_utf8(a), encode_utf8(b))
}

/// The text an optional string holds.
pub open spec fn opt_text(o: Option<String>) -> Option<Seq<char>> {
    match o {
        Some(s) => Some(s@),
        None => None,
    }
}

/// Whether `x` comes after the bound: every text does when there is none.
pub open spec fn after_bound(bound: Option<Seq<char>>, x: Seq<char>) -> bool {
    match bound {
        Some(b) => text_before(b, x),
        None => true,
    }
}

/// `page` holds, in ascending order, the first `limit` texts of `pool`
/// that come after `start_after` (all of them, when there are fewer).
pub open spec fn is_page(page: Seq<Seq<char>>, pool: Set<Seq<char>>, start_after: Option<Seq<char>>, limit: nat) -> bool {
    &&& forall|i: int, j: int| 0 <= i < j < page.len() ==> text_before(#[trigger] page[i], #[trigger] page[j])
    &&& forall|i: int| 0 <= i < page.len() ==> pool.contains(#[trigger] page[i]) && after_bound(start_after, page[i])
    &&& page.len() <= limit
    &&& forall|x: Seq<char>|
        pool.contains(x) && after_bound(start_after, x) && !(#[trigger] page.contains(x)) ==> page.len() == limit
            && (page.len() > 0 ==> text_before(page.last(), x))
}

/// The order on bytes is irreflexive.
pub proof fn lemma_bytes_before_irreflexive(a: Seq<u8>)
    ensures
        !bytes_before(a, a),
    decreases a.len(),
{
    if a.len() > 0 {
        lemma_bytes_before_irreflexive(a.drop_first());
    }
}

/// The order on bytes is transitive.
pub proof fn lemma_bytes_before_transitive(a: Seq<u8>, b: Seq<u8>, c: Seq<u8>)
    requires
        bytes_before(a, b),
        bytes_before(b, c),
    ensures
        bytes_before(a, c),
    decreases a.len(),
{
    if a.len() > 0 && b.len() > 0 && c.len() > 0 && a[0] == b[0] && b[0] == c[0] {
        lemma_bytes_before_transitive(a.drop_first(), b.drop_first(), c.drop_first());
    }
}

/// Two different byte sequences are ordered one way or the other.
pub proof fn lemma_bytes_before_total(a: Seq<u8>, b: Seq<u8>)
    requires
        a != b,
    ensures
        bytes_before(a, b) || bytes_before(b, a),
    decreases a.len(),
{
    if a.len() > 0 && b.len() > 0 && a[0] == b[0] {
        if a.drop_first() == b.drop_first() {
            assert(a =~= seq![a[0]] + a.drop_first());
            assert(b =~= seq![b[0]] + b.drop_first());
        }
        lemma_bytes_before_total(a.drop_first(), b.drop_first());
    } else if a.len() == 0 && b.len() == 0 {
        assert(a =~= b);
    }
}

/// The order on texts is a strict total order.
pub proof fn lemma_text_order(a: Seq<char>, b: Seq<char>, c: Seq<char>)
    ensures
        !text_before(a, a),
        text_before(a, b) && text_before(b, c) ==> text_before(a, c),
        a != b ==> text_before(a, b) || text_before(b, a),
{
    lemma_bytes_before_irreflexive(encode_utf8(a));
    if text_before(a, b) && text_before(b, c) {
        lemma_bytes_before_transitive(encode_utf8(a), encode_utf8(b), encode_utf8(c));
    }
    if a != b {
        crate::records::lemma_key_injective(a, b);
        lemma_bytes_before_total(encode_utf8(a), encode_utf8(b));
    }
}

/// Comparing the tails of two byte sequences past a common prefix orders
/// them as the whole sequences are ordered.
proof fn lemma_before_past_prefix(a: Seq<u8>, b: Seq<u8>, i: int)
    requires
        0 <= i <= a.len(),
        i <= b.len(),
        a.take(i) == b.take(i),
    ensures
        bytes_before(a, b) == bytes_before(a.skip(i), b.skip(i)),
    decreases i,
{
    if i > 0 {
        assert(a[0] == a.take(i)[0]);
        assert(b[0] == b.take(i)[0]);
        assert(a.drop_first().take(i - 1) =~= a.take(i).drop_first());
        assert(b.drop_first().take(i - 1) =~= b.take(i).drop_first());
        lemma_before_past_prefix(a.drop_first(), b.drop_first(), i - 1);
        assert(a.drop_first().skip(i - 1) =~= a.skip(i));
        assert(b.drop_first().skip(i - 1) =~= b.skip(i));
    } else {
        assert(a.skip(0) =~= a);
        assert(b.skip(0) =~= b);
    }
}

/// Whether the text `a` comes before the text `b`.
pub fn text_less(a: &String, b: &String) -> (res: bool)
    ensures
        res == text_before(a@, b@),
{
    let x = a.as_str().as_bytes();
    let y = b.as_str().as_bytes();
    let mut i: usize = 0;
    while i < x.len() && i < y.len()
        invariant
            x@ == encode_utf8(a@),
            y@ == encode_utf8(b@),
            i <= x@.len(),
            i <= y@.len(),
            x@.take(i as int) == y@.take(i as int),
        decreases x@.len() - i,
    {
        if x[i] != y[i] {
            proof {
                lemma_before_past_prefix(x@, y@, i as int);
                let xs = x@.skip(i as int);
                let ys = y@.skip(i as int);
                assert(xs.len() > 0 && ys.len() > 0);
                assert(xs[0] == x@[i as int]);
                assert(ys[0] == y@[i as int]);
                assert(bytes_before(xs, ys) == (xs[0] < ys[0]));
            }
            return x[i] < y[i];
        }
        assert(x@.take(i + 1) =~= x@.take(i as int).push(x@[i as int]));
        assert(y@.take(i + 1) =~= y@.take(i as int).push(y@[i as int]));
        i = i + 1;
    }
    proof {
        lemma_before_past_prefix(x@, y@, i as int);
    }
    i == x.len() && i < y.len()
}

/// The texts of `ids` that come after `start_after` (all, when it is not
/// given), in ascending order, at most `limit` of them.
pub fn page(ids: &Vec<String>, start_after: &Option<String>, limit: usize) -> (res: Vec<String>)
    ensures
        is_page(texts(res@), texts(ids@).to_set(), opt_text(*start_after), limit as nat),
{
    let ghost pool = texts(ids@).to_set();
    let ghost start = opt_text(*start_after);
    let mut out: Vec<String> = Vec::new();
    let mut bound: Option<String> = match start_after {
        Some(s) => Some(s.clone()),
        None => None,
    };
    let mut done = false;
    while !done && out.len() < limit
        invariant
            pool == texts(ids@).to_set(),
            out@.len() <= limit,
            forall|i: int, j: int| 0 <= i < j < out@.len() ==> text_before(#[trigger] out@[i]@, #[trigger] out@[j]@),
            forall|i: int| 0 <= i < out@.len() ==> pool.contains(#[trigger] out@[i]@) && after_bound(start, out@[i]@),
            out@.len() == 0 ==> (bound matches Some(b) ==> start == Some(b@)) && (bound is None ==> start is None),
            out@.len() > 0 ==> (bound matches Some(b) && b@ == out@.last()@),
            forall|x: Seq<char>|
                pool.contains(x) && after_bound(start, x) && !(#[trigger] texts(out@).contains(x)) ==> after_bound(
                    opt_text(bound),
                    x,
                ),
            done ==> forall|x: Seq<char>|
                pool.contains(x) && after_bound(start, x) ==> #[trigger] texts(out@).contains(x),
        decreases limit - out@.len() + if done { 0int } else { 1int },
    {
        let ghost bv = opt_text(bound);
        let mut best: Option<usize> = None;
        let mut j: usize = 0;
        while j < ids.len()
            invariant
                j <= ids@.len(),
                bv == opt_text(bound),
                best matches Some(k) ==> k < j && after_bound(bv, ids@[k as int]@) && forall|m: int|
                    0 <= m < j && after_bound(bv, #[trigger] ids@[m]@) ==> ids@[m]@ == ids@[k as int]@
                        || text_before(ids@[k as int]@, ids@[m]@),
                best is None ==> forall|m: int| 0 <= m < j ==> !after_bound(bv, #[trigger] ids@[m]@),
            decreases ids@.len() - j,
        {
            let beyond = match &bound {
                Some(b) => text_less(b, &ids[j]),
                None => true,
            };
            if beyond {
                match best {
                    None => {
                        best = Some(j);
                    },
                    Some(k) => {
                        if text_less(&ids[j], &ids[k]) {
                            proof {
                                assert forall|m: int| 0 <= m < j + 1 && after_bound(bv, #[trigger] ids@[m]@) implies ids@[m]@
                                    == ids@[j as int]@ || text_before(ids@[j as int]@, ids@[m]@) by {
                                    lemma_text_order(ids@[j as int]@, ids@[k as int]@, ids@[m]@);
                                }
                            }
                            best = Some(j);
                        } else {
                            proof {
                                lemma_text_order(ids@[k as int]@, ids@[j as int]@, ids@[j as int]@);
                            }
                        }
                    },
                }
            }
            j = j + 1;
        }
        match best {
            None => {
                proof {
                    assert forall|x: Seq<char>| pool.contains(x) && after_bound(start, x) implies #[trigger] texts(out@).contains(x) by {
                        if !texts(out@).contains(x) {
                            let m = choose|m: int| 0 <= m < texts(ids@).len() && texts(ids@)[m] == x;
                            assert(ids@[m]@ == x);
                        }
                    }
                }
                done = true;
            },
            Some(k) => {
                let next = ids[k].clone();
                let ghost before = texts(out@);
                proof {
                    assert(texts(ids@)[k as int] == next@);
                    assert(texts(ids@).contains(next@));
                    assert(pool.contains(next@));
                    if out@.len() > 0 {
                        if let Some(s0) = start {
                            lemma_text_order(s0, out@.last()@, next@);
                        }
                        assert forall|i: int| 0 <= i < out@.len() implies text_before(#[trigger] out@[i]@, next@) by {
                            if i < out@.len() - 1 {
                                lemma_text_order(out@[i]@, out@.last()@, next@);
                            }
                        }
                    }
                    assert(!before.contains(next@)) by {
                        if before.contains(next@) {
                            let i = choose|i: int| 0 <= i < before.len() && before[i] == next@;
                            assert(out@[i]@ == next@);
                            if out@.len() > 0 {
                                lemma_text_order(next@, next@, next@);
                                if i < out@.len() - 1 {
                                    lemma_text_order(out@[i]@, out@.last()@, next@);
                                }
                            }
                        }
                    }
                }
                out.push(next.clone());
                bound = Some(next);
                proof {
                    assert(texts(out@) =~= before.push(out@.last()@));
                    assert forall|x: Seq<char>|
                        pool.contains(x) && after_bound(start, x) && !(#[trigger] texts(out@).contains(x)) implies after_bound(
                        Some(out@.last()@),
                        x,
                    ) by {
                        assert(!before.contains(x)) by {
                            if before.contains(x) {
                                let i = choose|i: int| 0 <= i < before.len() && before[i] == x;
                                assert(texts(out@)[i] == x);
                            }
                        }
                        assert(x != out@.last()@) by {
                            if x == out@.last()@ {
                                assert(texts(out@)[before.len() as int] == x);
                            }
                        }
                        let m = choose|m: int| 0 <= m < texts(ids@).len() && texts(ids@)[m] == x;
                        assert(ids@[m]@ == x);
                    }
                }
            },
        }
    }
    proof {
        let pg = texts(out@);
        assert forall|i: int, j: int| 0 <= i < j < pg.len() implies text_before(#[trigger] pg[i], #[trigger] pg[j]) by {
            assert(pg[i] == out@[i]@ && pg[j] == out@[j]@);
        }
        assert forall|i: int| 0 <= i < pg.len() implies pool.contains(#[trigger] pg[i]) && after_bound(start, pg[i]) by {
            assert(pg[i] == out@[i]@);
        }
        assert forall|x: Seq<char>| pool.contains(x) && after_bound(start, x) && !(#[trigger] pg.contains(x)) implies pg.len()
            == limit && (pg.len() > 0 ==> text_before(pg.last(), x)) by {
            assert(!done);
            if pg.len() > 0 {
                assert(pg.last() == out@.last()@);
            }
        }
    }
    out
}

} // verus!
