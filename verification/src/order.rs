//! The order of a directory listing and the sort that establishes it.

use vstd::prelude::*;
use vstd::relations::{sorted_by, total_ordering};
use vstd::seq_lib::lemma_sorted_unique;
use vstd::utf8::{decode_utf8, encode_utf8, encode_utf8_decode_utf8};
use crate::filemanager::{unmarked, views, Entry, EntryType, EntryView, PathKind};

verus! {

/// What a listing orders an entry by: its type and its name.
pub type Item = (EntryType, Seq<char>);

/// Lexicographic order on byte strings: the first differing byte decides,
/// and a proper prefix comes first.
pub open spec fn bytes_le(a: Seq<u8>, b: Seq<u8>) -> bool
    decreases a.len(),
{
    if a.len() == 0 {
        true
    } else if b.len() == 0 {
        false
    } else if a[0] != b[0] {
        a[0] < b[0]
    } else {
        bytes_le(a.drop_first(), b.drop_first())
    }
}

/// Every byte string is at or below itself.
pub proof fn lemma_bytes_le_reflexive(a: Seq<u8>)
    ensures
        bytes_le(a, a),
    decreases a.len(),
{
    if a.len() > 0 {
        lemma_bytes_le_reflexive(a.drop_first());
    }
}

/// Of two byte strings one is at or below the other.
pub proof fn lemma_bytes_le_total(a: Seq<u8>, b: Seq<u8>)
    ensures
        bytes_le(a, b) || bytes_le(b, a),
    decreases a.len(),
{
    if a.len() > 0 && b.len() > 0 && a[0] == b[0] {
        lemma_bytes_le_total(a.drop_first(), b.drop_first());
    }
}

/// The order on byte strings is transitive.
pub proof fn lemma_bytes_le_transitive(a: Seq<u8>, b: Seq<u8>, c: Seq<u8>)
    requires
        bytes_le(a, b),
        bytes_le(b, c),
    ensures
        bytes_le(a, c),
    decreases a.len(),
{
    if a.len() > 0 && b.len() > 0 && c.len() > 0 && a[0] == b[0] && b[0] == c[0] {
        lemma_bytes_le_transitive(a.drop_first(), b.drop_first(), c.drop_first());
    }
}

/// Two byte strings that are each at or below the other are the same.
pub proof fn lemma_bytes_le_antisymmetric(a: Seq<u8>, b: Seq<u8>)
    requires
        bytes_le(a, b),
        bytes_le(b, a),
    ensures
        a == b,
    decreases a.len(),
{
    if a.len() > 0 && b.len() > 0 {
        lemma_bytes_le_antisymmetric(a.drop_first(), b.drop_first());
        assert(a =~= seq![a[0]] + a.drop_first());
        assert(b =~= seq![b[0]] + b.drop_first());
    }
}

/// Decides `bytes_le` on two byte slices.
pub fn bytes_at_most(a: &[u8], b: &[u8]) -> (r: bool)
    ensures
        r == bytes_le(a@, b@),
{
    let mut i: usize = 0;
    assert(a@.skip(0) =~= a@ && b@.skip(0) =~= b@);
    loop
        invariant
            i <= a.len(),
            i <= b.len(),
            bytes_le(a@, b@) == bytes_le(a@.skip(i as int), b@.skip(i as int)),
        decreases a.len() - i,
    {
        if i == a.len() {
            return true;
        }
        if i == b.len() {
            return false;
        }
        if a[i] != b[i] {
            return a[i] < b[i];
        }
        assert(a@.skip(i as int).drop_first() =~= a@.skip(i as int + 1));
        assert(b@.skip(i as int).drop_first() =~= b@.skip(i as int + 1));
        i = i + 1;
    }
}

/// The order of a listing: by type, directories first, then by the bytes of
/// the name's UTF-8 encoding.
pub open spec fn item_le(a: Item, b: Item) -> bool {
    a.0.rank() < b.0.rank() || (a.0 == b.0 && bytes_le(encode_utf8(a.1), encode_utf8(b.1)))
}

/// `item_le` as a relation that can be handed to the sequence library.
pub open spec fn item_order() -> spec_fn(Item, Item) -> bool {
    |a: Item, b: Item| item_le(a, b)
}

/// The order of a listing is a total order: no two different items tie.
pub proof fn lemma_item_order_total()
    ensures
        total_ordering(item_order()),
{
    let r = item_order();
    assert forall|x: Item| #[trigger] r(x, x) by {
        lemma_bytes_le_reflexive(encode_utf8(x.1));
    }
    assert forall|x: Item, y: Item| #[trigger] r(x, y) && #[trigger] r(y, x) implies x == y by {
        lemma_bytes_le_antisymmetric(encode_utf8(x.1), encode_utf8(y.1));
        encode_utf8_decode_utf8(x.1);
        encode_utf8_decode_utf8(y.1);
    }
    assert forall|x: Item, y: Item, z: Item| #[trigger] r(x, y) && #[trigger] r(y, z) implies r(
        x,
        z,
    ) by {
        if x.0 == y.0 && y.0 == z.0 {
            lemma_bytes_le_transitive(encode_utf8(x.1), encode_utf8(y.1), encode_utf8(z.1));
        }
    }
    assert forall|x: Item, y: Item| #[trigger] r(x, y) || #[trigger] r(y, x) by {
        lemma_bytes_le_total(encode_utf8(x.1), encode_utf8(y.1));
    }
}

/// What a listing orders `e` by.
pub open spec fn item_of(e: Entry) -> Item {
    (e.kind, e.name@)
}

/// The items of a sequence of entries, in the same order.
pub open spec fn items_of(s: Seq<Entry>) -> Seq<Item> {
    s.map_values(|e: Entry| item_of(e))
}

/// Decides `item_le` on two entries; the marks play no part.
pub fn entry_at_most(a: &Entry, b: &Entry) -> (r: bool)
    ensures
        r == item_le(item_of(*a), item_of(*b)),
{
    match (a.kind, b.kind) {
        (EntryType::Directory, EntryType::File) => true,
        (EntryType::File, EntryType::Directory) => false,
        _ => bytes_at_most(a.name.as_str().as_bytes(), b.name.as_str().as_bytes()),
    }
}

/// Inserting into a sequence adds one occurrence of the new value and takes
/// nothing away.
pub proof fn lemma_insert_to_multiset<A>(s: Seq<A>, p: int, x: A)
    requires
        0 <= p <= s.len(),
    ensures
        s.insert(p, x).to_multiset() == s.to_multiset().insert(x),
{
    broadcast use vstd::seq_lib::group_to_multiset_ensures;

    let t = s.insert(p, x);
    assert(t[p] == x);
}

/// Puts `x` into the sorted listing `v` at its place.
pub fn insert_sorted(v: &mut Vec<Entry>, x: Entry)
    requires
        sorted_by(items_of(old(v)@), item_order()),
    ensures
        sorted_by(items_of(final(v)@), item_order()),
        items_of(final(v)@).to_multiset() == items_of(old(v)@).to_multiset().insert(item_of(x)),
        exists|p: int| 0 <= p <= old(v)@.len() && final(v)@ == old(v)@.insert(p, x),
{
    let n: usize = v.len();
    let mut p: usize = 0;
    while p < n && entry_at_most(&v[p], &x)
        invariant
            p <= n,
            n == v.len(),
            v@ == old(v)@,
            forall|k: int| 0 <= k < p ==> item_le(#[trigger] items_of(v@)[k], item_of(x)),
        decreases n - p,
    {
        p = p + 1;
    }
    proof {
        let s = items_of(old(v)@);
        let y = item_of(x);
        let t = s.insert(p as int, y);
        assert(items_of(old(v)@.insert(p as int, x)) =~= t);
        lemma_item_order_total();
        assert forall|i: int, j: int| 0 <= i < j < t.len() implies #[trigger] item_order()(
            t[i],
            t[j],
        ) by {
            if i == p {
                // `x` stands before what follows it: the scan stopped at an
                // item above `x`, and the rest lies at or above that item
                assert(item_order()(s[p as int], y) || item_order()(y, s[p as int]));
                if j - 1 > p {
                    assert(item_order()(s[p as int], s[j - 1]));
                }
            }
        }
        lemma_insert_to_multiset(s, p as int, y);
    }
    v.insert(p, x);
}

/// The items of the directories and files among `raw`, in the order in which
/// `raw` holds them. What is neither a directory nor a file is left out.
pub open spec fn classify(raw: Seq<(PathKind, String)>) -> Seq<Item>
    decreases raw.len(),
{
    if raw.len() == 0 {
        Seq::empty()
    } else {
        let rest = classify(raw.drop_last());
        match raw.last().0 {
            PathKind::Directory => rest.push((EntryType::Directory, raw.last().1@)),
            PathKind::File => rest.push((EntryType::File, raw.last().1@)),
            _ => rest,
        }
    }
}

/// The listing of a directory whose children are `raw`: its directories and
/// files, sorted by type and then by name.
pub open spec fn listing_of(raw: Seq<(PathKind, String)>) -> Seq<Item> {
    classify(raw).sort_by(item_order())
}

/// Every directory of `s` stands before every file, and within each type
/// the names ascend by their bytes.
pub open spec fn in_listing_order(s: Seq<EntryView>) -> bool {
    &&& forall|i: int, j: int|
        0 <= i < j < s.len() ==> (#[trigger] s[i]).kind.rank() <= (#[trigger] s[j]).kind.rank()
    &&& forall|i: int, j: int|
        0 <= i < j < s.len() && (#[trigger] s[i]).kind == (#[trigger] s[j]).kind ==> bytes_le(
            encode_utf8(s[i].name),
            encode_utf8(s[j].name),
        )
}

/// The listing of a directory is in listing order, and it holds the
/// directories and files among the children, each as often as they do, and
/// nothing else.
pub proof fn lemma_listing_of(raw: Seq<(PathKind, String)>)
    ensures
        in_listing_order(unmarked(listing_of(raw))),
        listing_of(raw).to_multiset() == classify(raw).to_multiset(),
        listing_of(raw).len() == classify(raw).len(),
{
    lemma_item_order_total();
    classify(raw).lemma_sort_by_ensures(item_order());
    let l = listing_of(raw);
    let s = unmarked(l);
    classify(raw).to_multiset_ensures();
    l.to_multiset_ensures();
    assert forall|i: int, j: int| 0 <= i < j < s.len() implies (#[trigger] s[i]).kind.rank() <= (
    #[trigger] s[j]).kind.rank() by {
        assert(item_order()(l[i], l[j]));
    }
    assert forall|i: int, j: int|
        0 <= i < j < s.len() && (#[trigger] s[i]).kind == (#[trigger] s[j]).kind implies bytes_le(
        encode_utf8(s[i].name),
        encode_utf8(s[j].name),
    ) by {
        assert(item_order()(l[i], l[j]));
    }
}

/// No entry of `s` is marked.
spec fn none_marked(s: Seq<Entry>) -> bool {
    forall|i: int| 0 <= i < s.len() ==> !(#[trigger] s[i]).highlighted
}

/// Sorts the children of a directory into its listing: entries that are
/// neither directory nor file are dropped, and no entry is marked.
pub fn sort_listing(raw: Vec<(PathKind, String)>) -> (r: Vec<Entry>)
    ensures
        views(r@) == unmarked(listing_of(raw@)),
{
    let mut out: Vec<Entry> = Vec::new();
    let ghost all = raw@;
    assert(items_of(out@) =~= Seq::empty());
    for child in it: raw
        invariant
            it.seq() == all,
            sorted_by(items_of(out@), item_order()),
            items_of(out@).to_multiset() == classify(all.take(it.index() as int)).to_multiset(),
            none_marked(out@),
    {
        proof {
            let k = it.index() as int;
            assert(all.take(k + 1).drop_last() =~= all.take(k));
        }
        let kind = match child.0 {
            PathKind::Directory => Some(EntryType::Directory),
            PathKind::File => Some(EntryType::File),
            _ => None,
        };
        if let Some(kind) = kind {
            let entry = Entry { kind, name: child.1, highlighted: false };
            let ghost added = entry;
            insert_sorted(&mut out, entry);
            proof {
                let k = it.index() as int;
                vstd::seq_lib::to_multiset_build(classify(all.take(k)), item_of(added));
                assert(none_marked(out@));
            }
        }
    }
    proof {
        assert(all.take(all.len() as int) =~= all);
        lemma_item_order_total();
        classify(all).lemma_sort_by_ensures(item_order());
        lemma_sorted_unique(items_of(out@), listing_of(all), item_order());
    }
    out
}

} // verus!
