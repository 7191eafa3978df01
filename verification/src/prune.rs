//! Which installed releases are listed, and which a retention policy removes: the release
//! folders are walked in a fixed order, and the active release is never removed.
use vstd::prelude::*;
use crate::text::chars_of;
use crate::versions::{
    codes, compare_text, lemma_codes_injective, lemma_lex_order_basics, lemma_lex_order_transitive,
    lex_order,
};

verus! {

/// One folder under `releases`: the tag it holds and when it was last modified
/// (nanoseconds since the Unix epoch).
pub struct ReleaseFolder {
    pub tag: String,
    pub modified_ns: u64,
}

/// The orders in which release folders are walked.
#[derive(Clone, Copy)]
pub enum Walk {
    /// Newest first; equal times by tag, greatest first, then in listing order.
    NewestByTag,
    /// Newest first; equal times in listing order.
    Newest,
    /// Oldest first; equal times in listing order.
    Oldest,
}

/// Folder `i` of the listing `fs` comes before folder `j` in the walk.
pub open spec fn precedes(fs: Seq<ReleaseFolder>, walk: Walk, i: int, j: int) -> bool {
    let a = fs[i];
    let b = fs[j];
    match walk {
        Walk::NewestByTag => a.modified_ns > b.modified_ns || (a.modified_ns == b.modified_ns && (
        lex_order(codes(a.tag@), codes(b.tag@)) > 0 || (a.tag@ == b.tag@ && i < j))),
        Walk::Newest => a.modified_ns > b.modified_ns || (a.modified_ns == b.modified_ns && i < j),
        Walk::Oldest => a.modified_ns < b.modified_ns || (a.modified_ns == b.modified_ns && i < j),
    }
}

/// `items` are distinct positions of the listing `fs`.
pub open spec fn valid_items(fs: Seq<ReleaseFolder>, items: Seq<usize>) -> bool {
    &&& forall|k: int| 0 <= k < items.len() ==> #[trigger] items[k] < fs.len()
    &&& forall|k: int, l: int| 0 <= k < l < items.len() ==> #[trigger] items[k] != #[trigger] items[l]
}

/// Every position of the listing `fs`, in listing order.
pub open spec fn all_items(fs: Seq<ReleaseFolder>) -> Seq<usize> {
    Seq::new(fs.len(), |i: int| i as usize)
}

/// `order` walks exactly the folders `items` of `fs`, each once, in the order `walk`.
pub open spec fn is_walk(fs: Seq<ReleaseFolder>, walk: Walk, items: Seq<usize>, order: Seq<usize>) -> bool {
    &&& order.len() == items.len()
    &&& forall|k: int| 0 <= k < order.len() ==> items.contains(#[trigger] order[k])
    &&& forall|k: int, l: int|
        0 <= k < l < order.len() ==> precedes(fs, walk, #[trigger] order[k] as int, #[trigger] order[l] as int)
}

/// The walk of the folders `items` of `fs` in the order `walk` (there is exactly one: see
/// [`lemma_walk_unique`]).
pub open spec fn walked(fs: Seq<ReleaseFolder>, walk: Walk, items: Seq<usize>) -> Seq<usize> {
    choose|o: Seq<usize>| is_walk(fs, walk, items, o)
}

/// Walk orders are strict total orders on the folders of a listing.
pub proof fn lemma_precedes_order(fs: Seq<ReleaseFolder>, walk: Walk, i: int, j: int, k: int)
    requires
        0 <= i < fs.len(),
        0 <= j < fs.len(),
        0 <= k < fs.len(),
    ensures
        !precedes(fs, walk, i, i),
        precedes(fs, walk, i, j) ==> !precedes(fs, walk, j, i),
        i != j ==> precedes(fs, walk, i, j) || precedes(fs, walk, j, i),
        precedes(fs, walk, i, j) && precedes(fs, walk, j, k) ==> precedes(fs, walk, i, k),
{
    let (a, b, c) = (codes(fs[i].tag@), codes(fs[j].tag@), codes(fs[k].tag@));
    lemma_lex_order_basics(a, b);
    lemma_lex_order_basics(b, c);
    lemma_lex_order_basics(a, c);
    lemma_lex_order_basics(a, a);
    if lex_order(a, b) == 0 {
        lemma_codes_injective(fs[i].tag@, fs[j].tag@);
    }
    if lex_order(b, c) == 0 {
        lemma_codes_injective(fs[j].tag@, fs[k].tag@);
    }
    if lex_order(a, c) == 0 {
        lemma_codes_injective(fs[i].tag@, fs[k].tag@);
    }
    if lex_order(b, a) < 0 && lex_order(c, b) < 0 {
        lemma_lex_order_transitive(c, b, a);
    }
}

/// A walk puts the folders in one order only: two walks of the same folders are equal.
pub proof fn lemma_walk_unique(
    fs: Seq<ReleaseFolder>,
    walk: Walk,
    items: Seq<usize>,
    o1: Seq<usize>,
    o2: Seq<usize>,
)
    requires
        valid_items(fs, items),
        is_walk(fs, walk, items, o1),
        is_walk(fs, walk, items, o2),
    ensures
        o1 == o2,
    decreases items.len(),
{
    if items.len() > 0 {
        // Both walks start with the folder that precedes every other one.
        let m1 = o1[0];
        let m2 = o2[0];
        lemma_walk_covers(fs, walk, items, o1);
        lemma_walk_covers(fs, walk, items, o2);
        if m1 != m2 {
            let p1 = choose|k: int| 0 <= k < o1.len() && o1[k] == m2;
            let p2 = choose|k: int| 0 <= k < o2.len() && o2[k] == m1;
            assert(precedes(fs, walk, m1 as int, m2 as int)) by {
                assert(p1 != 0);
                assert(precedes(fs, walk, o1[0] as int, o1[p1] as int));
            }
            assert(precedes(fs, walk, m2 as int, m1 as int)) by {
                assert(p2 != 0);
                assert(precedes(fs, walk, o2[0] as int, o2[p2] as int));
            }
            lemma_precedes_order(fs, walk, m1 as int, m2 as int, m2 as int);
        }
        let rest = items.remove(items.index_of(m1));
        lemma_remove_valid(fs, items, m1);
        assert(is_walk(fs, walk, rest, o1.drop_first())) by {
            lemma_tail_walk(fs, walk, items, o1);
        }
        assert(is_walk(fs, walk, rest, o2.drop_first())) by {
            lemma_tail_walk(fs, walk, items, o2);
        }
        lemma_walk_unique(fs, walk, rest, o1.drop_first(), o2.drop_first());
        assert(o1 == seq![m1] + o1.drop_first());
        assert(o2 == seq![m2] + o2.drop_first());
    }
}

/// A walk holds no folder twice, and so holds every one of its folders.
proof fn lemma_walk_covers(fs: Seq<ReleaseFolder>, walk: Walk, items: Seq<usize>, o: Seq<usize>)
    requires
        valid_items(fs, items),
        is_walk(fs, walk, items, o),
    ensures
        forall|x: usize| items.contains(x) ==> o.contains(x),
{
    assert forall|k: int, l: int| 0 <= k < l < o.len() implies o[k] != o[l] by {
        assert(precedes(fs, walk, o[k] as int, o[l] as int));
        assert(items.contains(o[k]));
        let p = choose|p: int| 0 <= p < items.len() && items[p] == o[k];
        assert(items[p] < fs.len());
        lemma_precedes_order(fs, walk, o[k] as int, o[k] as int, o[k] as int);
    }
    lemma_distinct_subset_covers(items, o);
}

/// A duplicate-free sequence as long as a duplicate-free one it is drawn from holds all of it.
proof fn lemma_distinct_subset_covers(items: Seq<usize>, o: Seq<usize>)
    requires
        o.len() == items.len(),
        forall|k: int| 0 <= k < o.len() ==> items.contains(#[trigger] o[k]),
        forall|k: int, l: int| 0 <= k < l < o.len() ==> #[trigger] o[k] != #[trigger] o[l],
        forall|k: int, l: int| 0 <= k < l < items.len() ==> #[trigger] items[k] != #[trigger] items[l],
    ensures
        forall|x: usize| items.contains(x) ==> o.contains(x),
{
    assert(o.no_duplicates());
    assert(items.no_duplicates());
    assert(o.to_set().subset_of(items.to_set()));
    o.unique_seq_to_set();
    items.unique_seq_to_set();
    assert(o.to_set().len() == items.to_set().len());
    vstd::seq_lib::seq_to_set_is_finite(o);
    vstd::seq_lib::seq_to_set_is_finite(items);
    vstd::set_lib::lemma_subset_equality(o.to_set(), items.to_set());
    assert forall|x: usize| items.contains(x) implies o.contains(x) by {
        assert(items.to_set().contains(x));
        assert(o.to_set().contains(x));
    }
}

proof fn lemma_remove_valid(fs: Seq<ReleaseFolder>, items: Seq<usize>, m: usize)
    requires
        valid_items(fs, items),
        items.contains(m),
    ensures
        valid_items(fs, items.remove(items.index_of(m))),
        forall|x: usize| #[trigger] items.remove(items.index_of(m)).contains(x) <==> (items.contains(x) && x != m),
        items.remove(items.index_of(m)).len() == items.len() - 1,
{
    let p = items.index_of(m);
    let rest = items.remove(p);
    assert forall|x: usize| #[trigger] rest.contains(x) <==> (items.contains(x) && x != m) by {
        if rest.contains(x) {
            let k = choose|k: int| 0 <= k < rest.len() && rest[k] == x;
            if k < p {
                assert(items[k] == x);
                assert(items[k] != items[p]);
            } else {
                assert(items[k + 1] == x);
                assert(items[p] != items[k + 1]);
            }
        }
        if items.contains(x) && x != m {
            let k = choose|k: int| 0 <= k < items.len() && items[k] == x;
            if k < p {
                assert(rest[k] == x);
            } else {
                assert(k != p);
                assert(rest[k - 1] == x);
            }
        }
    }
    assert forall|k: int, l: int| 0 <= k < l < rest.len() implies #[trigger] rest[k] != #[trigger] rest[l] by {
        let kk = if k < p { k } else { k + 1 };
        let ll = if l < p { l } else { l + 1 };
        assert(rest[k] == items[kk]);
        assert(rest[l] == items[ll]);
    }
    assert forall|k: int| 0 <= k < rest.len() implies #[trigger] rest[k] < fs.len() by {
        let kk = if k < p { k } else { k + 1 };
        assert(rest[k] == items[kk]);
    }
}

proof fn lemma_tail_walk(fs: Seq<ReleaseFolder>, walk: Walk, items: Seq<usize>, o: Seq<usize>)
    requires
        valid_items(fs, items),
        is_walk(fs, walk, items, o),
        items.len() > 0,
    ensures
        is_walk(fs, walk, items.remove(items.index_of(o[0])), o.drop_first()),
{
    let m = o[0];
    assert(items.contains(m));
    lemma_remove_valid(fs, items, m);
    let rest = items.remove(items.index_of(m));
    let t = o.drop_first();
    assert forall|k: int| 0 <= k < t.len() implies rest.contains(#[trigger] t[k]) by {
        assert(t[k] == o[k + 1]);
        assert(items.contains(o[k + 1]));
        assert(precedes(fs, walk, o[0] as int, o[k + 1] as int));
        let p = choose|p: int| 0 <= p < items.len() && items[p] == o[0];
        assert(items[p] < fs.len());
        lemma_precedes_order(fs, walk, o[0] as int, o[0] as int, o[0] as int);
    }
    assert forall|k: int, l: int| 0 <= k < l < t.len() implies precedes(
        fs,
        walk,
        #[trigger] t[k] as int,
        #[trigger] t[l] as int,
    ) by {
        assert(t[k] == o[k + 1]);
        assert(t[l] == o[l + 1]);
    }
}

/// Whether folder `i` comes before folder `j` in the walk.
fn before(fs: &[ReleaseFolder], walk: Walk, i: usize, j: usize) -> (r: bool)
    requires
        i < fs@.len(),
        j < fs@.len(),
    ensures
        r == precedes(fs@, walk, i as int, j as int),
{
    let (a, b) = (&fs[i], &fs[j]);
    match walk {
        Walk::NewestByTag => {
            if a.modified_ns != b.modified_ns {
                a.modified_ns > b.modified_ns
            } else {
                let ta = chars_of(a.tag.as_str());
                let tb = chars_of(b.tag.as_str());
                let c = compare_text(ta.as_slice(), tb.as_slice());
                proof {
                    lemma_lex_order_basics(codes(a.tag@), codes(b.tag@));
                    if c == 0 {
                        lemma_codes_injective(a.tag@, b.tag@);
                    }
                }
                c > 0 || (c == 0 && i < j)
            }
        },
        Walk::Newest => a.modified_ns > b.modified_ns || (a.modified_ns == b.modified_ns && i < j),
        Walk::Oldest => a.modified_ns < b.modified_ns || (a.modified_ns == b.modified_ns && i < j),
    }
}

/// Puts the folders `items` of the listing in the order `walk` (an insertion sort).
pub fn walk_order(fs: &[ReleaseFolder], walk: Walk, items: &[usize]) -> (order: Vec<usize>)
    requires
        valid_items(fs@, items@),
    ensures
        is_walk(fs@, walk, items@, order@),
        order@ == walked(fs@, walk, items@),
{
    let mut order: Vec<usize> = Vec::new();
    let mut i: usize = 0;
    while i < items.len()
        invariant
            i <= items@.len(),
            valid_items(fs@, items@),
            order@.len() == i,
            forall|k: int| 0 <= k < order@.len() ==> items@.take(i as int).contains(#[trigger] order@[k]),
            forall|k: int, l: int|
                0 <= k < l < order@.len() ==> precedes(fs@, walk, #[trigger] order@[k] as int, #[trigger] order@[l] as int),
        decreases items@.len() - i,
    {
        let x = items[i];
        assert(x < fs@.len());
        let mut p: usize = 0;
        while p < order.len() && before(fs, walk, order[p], x)
            invariant
                p <= order@.len(),
                x < fs@.len(),
                forall|k: int| 0 <= k < order@.len() ==> #[trigger] order@[k] < fs@.len(),
                forall|k: int| 0 <= k < p ==> precedes(fs@, walk, #[trigger] order@[k] as int, x as int),
            decreases order@.len() - p,
        {
            p = p + 1;
        }
        proof {
            assert forall|k: int| 0 <= k < order@.len() implies #[trigger] order@[k] != x by {
                let q = choose|q: int| 0 <= q < i && items@.take(i as int)[q] == order@[k];
                assert(items@[q] == order@[k]);
                assert(items@[q] != items@[i as int]);
            }
            if p < order@.len() {
                lemma_precedes_order(fs@, walk, x as int, order@[p as int] as int, x as int);
            }
        }
        let ghost old_order = order@;
        order.insert(p, x);
        proof {
            lemma_insert_keeps_walk(fs@, walk, old_order, p as int, x);
            assert forall|k: int| 0 <= k < order@.len() implies items@.take(i + 1).contains(#[trigger] order@[k]) by {
                if k == p {
                    assert(items@.take(i + 1)[i as int] == x);
                } else {
                    let kk = if k < p { k } else { k - 1 };
                    assert(order@[k] == old_order[kk]);
                    let q = choose|q: int| 0 <= q < i && items@.take(i as int)[q] == old_order[kk];
                    assert(items@.take(i + 1)[q] == old_order[kk]);
                }
            }
        }
        i = i + 1;
    }
    assert(items@.take(items@.len() as int) == items@);
    proof {
        lemma_walk_unique(fs@, walk, items@, order@, walked(fs@, walk, items@));
    }
    order
}

proof fn lemma_insert_keeps_walk(fs: Seq<ReleaseFolder>, walk: Walk, o: Seq<usize>, p: int, x: usize)
    requires
        0 <= p <= o.len(),
        x < fs.len(),
        forall|k: int| 0 <= k < o.len() ==> #[trigger] o[k] < fs.len(),
        forall|k: int| 0 <= k < o.len() ==> #[trigger] o[k] != x,
        forall|k: int, l: int| 0 <= k < l < o.len() ==> precedes(fs, walk, #[trigger] o[k] as int, #[trigger] o[l] as int),
        forall|k: int| 0 <= k < p ==> precedes(fs, walk, #[trigger] o[k] as int, x as int),
        p < o.len() ==> precedes(fs, walk, x as int, o[p] as int),
    ensures
        forall|k: int, l: int|
            0 <= k < l < o.insert(p, x).len() ==> precedes(fs, walk, #[trigger] o.insert(p, x)[k] as int, #[trigger] o.insert(p, x)[l] as int),
{
    let n = o.insert(p, x);
    assert forall|k: int, l: int| 0 <= k < l < n.len() implies precedes(fs, walk, #[trigger] n[k] as int, #[trigger] n[l] as int) by {
        if k < p && l < p {
            assert(n[k] == o[k] && n[l] == o[l]);
        } else if k < p && l == p {
            assert(n[k] == o[k] && n[l] == x);
        } else if k < p {
            assert(n[k] == o[k] && n[l] == o[l - 1]);
        } else if k == p {
            assert(n[l] == o[l - 1]);
            if l - 1 > p {
                assert(precedes(fs, walk, o[p] as int, o[l - 1] as int));
                lemma_precedes_order(fs, walk, x as int, o[p] as int, o[l - 1] as int);
            }
        } else {
            assert(n[k] == o[k - 1] && n[l] == o[l - 1]);
        }
    }
}

fn all_indices(n: usize) -> (r: Vec<usize>)
    ensures
        r@ == Seq::new(n as nat, |i: int| i as usize),
{
    let mut r: Vec<usize> = Vec::new();
    let mut i: usize = 0;
    while i < n
        invariant
            i <= n,
            r@ == Seq::new(i as nat, |k: int| k as usize),
        decreases n - i,
    {
        r.push(i);
        i = i + 1;
    }
    r
}

proof fn lemma_all_items_valid(fs: Seq<ReleaseFolder>)
    requires
        fs.len() <= usize::MAX,
    ensures
        valid_items(fs, all_items(fs)),
{
    let a = all_items(fs);
    assert forall|k: int| 0 <= k < a.len() implies #[trigger] a[k] < fs.len() by {
        assert(a[k] == k as usize);
    }
    assert forall|k: int, l: int| 0 <= k < l < a.len() implies #[trigger] a[k] != #[trigger] a[l] by {
        assert(a[k] == k as usize && a[l] == l as usize);
    }
}

/// The tags of the folders `order` of `fs`.
pub open spec fn tags_of(fs: Seq<ReleaseFolder>, order: Seq<usize>) -> Seq<Seq<char>> {
    order.map_values(|i: usize| fs[i as int].tag@)
}

/// The installed releases, newest first (equal times: greatest tag first).
pub fn release_list(fs: &[ReleaseFolder]) -> (r: Vec<String>)
    ensures
        r@.map_values(|t: String| t@) == tags_of(fs@, walked(fs@, Walk::NewestByTag, all_items(fs@))),
{
    let items = all_indices(fs.len());
    proof {
        lemma_all_items_valid(fs@);
        assert(items@ == all_items(fs@));
    }
    let order = walk_order(fs, Walk::NewestByTag, items.as_slice());
    let mut r: Vec<String> = Vec::new();
    let mut k: usize = 0;
    while k < order.len()
        invariant
            k <= order@.len(),
            is_walk(fs@, Walk::NewestByTag, all_items(fs@), order@),
            r@.map_values(|t: String| t@) == tags_of(fs@, order@.take(k as int)),
        decreases order@.len() - k,
    {
        let i = order[k];
        assert(all_items(fs@).contains(i));
        let ghost before_push = r@;
        r.push(fs[i].tag.clone());
        proof {
            assert(order@.take(k + 1) == order@.take(k as int).push(i));
            assert(r@.map_values(|t: String| t@) =~= before_push.map_values(|t: String| t@).push(fs@[i as int].tag@));
            assert(tags_of(fs@, order@.take(k + 1)) =~= tags_of(fs@, order@.take(k as int)).push(fs@[i as int].tag@));
        }
        k = k + 1;
    }
    assert(order@.take(order@.len() as int) == order@);
    r
}

/// The folders that count retention removes from a walk `order`: all but the first `retain`,
/// except those holding the active tag `current`; in walk order.
pub open spec fn count_removal(fs: Seq<ReleaseFolder>, order: Seq<usize>, retain: nat, current: Seq<char>) -> Seq<usize>
    decreases order.len(),
{
    if order.len() <= retain {
        seq![]
    } else {
        let rest = count_removal(fs, order.drop_last(), retain, current);
        if fs[order.last() as int].tag@ == current {
            rest
        } else {
            rest.push(order.last())
        }
    }
}

/// The release folders that keeping the `retain` newest removes: every other one, walked
/// newest first (equal times: greatest tag first), except the active release `current`.
pub fn count_pruned(fs: &[ReleaseFolder], current: &str, retain: usize) -> (r: Vec<usize>)
    ensures
        r@ == count_removal(fs@, walked(fs@, Walk::NewestByTag, all_items(fs@)), retain as nat, current@),
{
    let items = all_indices(fs.len());
    proof {
        lemma_all_items_valid(fs@);
        assert(items@ == all_items(fs@));
    }
    let order = walk_order(fs, Walk::NewestByTag, items.as_slice());
    let mut r: Vec<usize> = Vec::new();
    let mut k: usize = 0;
    while k < order.len()
        invariant
            k <= order@.len(),
            is_walk(fs@, Walk::NewestByTag, all_items(fs@), order@),
            r@ == count_removal(fs@, order@.take(k as int), retain as nat, current@),
        decreases order@.len() - k,
    {
        let i = order[k];
        assert(all_items(fs@).contains(i));
        proof {
            assert(order@.take(k + 1).drop_last() == order@.take(k as int));
            assert(order@.take(k + 1).last() == i);
        }
        if k >= retain && !crate::text::same_text(fs[i].tag.as_str(), current) {
            r.push(i);
        }
        k = k + 1;
    }
    assert(order@.take(order@.len() as int) == order@);
    r
}

/// Count retention never removes the active release nor one of the `retain` newest folders,
/// and removes every other folder.
pub proof fn lemma_count_retention(
    fs: Seq<ReleaseFolder>,
    order: Seq<usize>,
    retain: nat,
    current: Seq<char>,
)
    requires
        fs.len() <= usize::MAX,
        is_walk(fs, Walk::NewestByTag, all_items(fs), order),
    ensures
        forall|x: usize| #[trigger] count_removal(fs, order, retain, current).contains(x) ==> fs[x as int].tag@ != current,
        forall|k: int| 0 <= k < retain && k < order.len() ==> !count_removal(fs, order, retain, current).contains(#[trigger] order[k]),
        forall|k: int| retain <= k < order.len() && fs[order[k] as int].tag@ != current ==> count_removal(fs, order, retain, current).contains(#[trigger] order[k]),
{
    lemma_all_items_valid(fs);
    lemma_walk_distinct(fs, Walk::NewestByTag, all_items(fs), order);
    lemma_count_removal(fs, order, retain, current);
}

proof fn lemma_count_removal(fs: Seq<ReleaseFolder>, order: Seq<usize>, retain: nat, current: Seq<char>)
    requires
        forall|k: int, l: int| 0 <= k < l < order.len() ==> #[trigger] order[k] != #[trigger] order[l],
    ensures
        forall|x: usize| #[trigger] count_removal(fs, order, retain, current).contains(x) ==> fs[x as int].tag@ != current,
        forall|k: int| 0 <= k < retain && k < order.len() ==> !count_removal(fs, order, retain, current).contains(#[trigger] order[k]),
        forall|k: int| retain <= k < order.len() && fs[order[k] as int].tag@ != current ==> count_removal(fs, order, retain, current).contains(#[trigger] order[k]),
    decreases order.len(),
{
    if order.len() > retain {
        let prefix = order.drop_last();
        assert forall|k: int, l: int| 0 <= k < l < prefix.len() implies #[trigger] prefix[k] != #[trigger] prefix[l] by {
            assert(prefix[k] == order[k] && prefix[l] == order[l]);
        }
        lemma_count_removal(fs, prefix, retain, current);
        let rest = count_removal(fs, prefix, retain, current);
        let all = count_removal(fs, order, retain, current);
        assert forall|x: usize| #[trigger] all.contains(x) implies fs[x as int].tag@ != current by {
            if !rest.contains(x) {
                let j = choose|j: int| 0 <= j < all.len() && all[j] == x;
                assert(j == all.len() - 1);
            }
        }
        assert forall|k: int| 0 <= k < retain && k < order.len() implies !all.contains(#[trigger] order[k]) by {
            assert(prefix[k] == order[k]);
            assert(!rest.contains(prefix[k]));
            if all.contains(order[k]) {
                let j = choose|j: int| 0 <= j < all.len() && all[j] == order[k];
                if j < rest.len() {
                    assert(rest[j] == order[k]);
                } else {
                    assert(order[k] == order.last());
                    assert(order[k] == order[order.len() - 1]);
                }
            }
        }
        assert forall|k: int| retain <= k < order.len() && fs[order[k] as int].tag@ != current implies all.contains(#[trigger] order[k]) by {
            if k == order.len() - 1 {
                assert(all.last() == order[k]);
            } else {
                assert(prefix[k] == order[k]);
                assert(rest.contains(prefix[k]));
                let j = choose|j: int| 0 <= j < rest.len() && rest[j] == prefix[k];
                assert(all[j] == rest[j]);
            }
        }
    }
}

/// Nanoseconds in a day.
pub const NS_PER_DAY: u64 = 86_400_000_000_000;

/// Whole days from `modified_ns` to `now_ns` (none when it lies ahead).
pub open spec fn age_days(now_ns: u64, modified_ns: u64) -> nat {
    (if now_ns > modified_ns {
        (now_ns - modified_ns) as nat
    } else {
        0nat
    }) / (NS_PER_DAY as nat)
}

/// Whether the retention policy removes the folder at position `k` of the walk `order`: it
/// is not the active release `current`, and it is older than `days` days (when `days` is set)
/// or lies beyond the `retain` newest (when `retain` is set).
pub open spec fn policy_removes(
    fs: Seq<ReleaseFolder>,
    order: Seq<usize>,
    k: int,
    current: Seq<char>,
    retain: nat,
    days: nat,
    now_ns: u64,
) -> bool {
    let f = fs[order[k] as int];
    f.tag@ != current && ((days > 0 && age_days(now_ns, f.modified_ns) > days) || (retain > 0
        && k >= retain))
}

/// The folders among the first `n` of the walk `order` that the policy removes, in walk order.
pub open spec fn policy_removal(
    fs: Seq<ReleaseFolder>,
    order: Seq<usize>,
    n: nat,
    current: Seq<char>,
    retain: nat,
    days: nat,
    now_ns: u64,
) -> Seq<usize>
    decreases n,
{
    if n == 0 {
        seq![]
    } else {
        let rest = policy_removal(fs, order, (n - 1) as nat, current, retain, days, now_ns);
        if policy_removes(fs, order, n - 1, current, retain, days, now_ns) {
            rest.push(order[n - 1])
        } else {
            rest
        }
    }
}

/// The folders among the first `n` of the walk `order` that the policy keeps, in walk order.
pub open spec fn policy_kept(
    fs: Seq<ReleaseFolder>,
    order: Seq<usize>,
    n: nat,
    current: Seq<char>,
    retain: nat,
    days: nat,
    now_ns: u64,
) -> Seq<usize>
    decreases n,
{
    if n == 0 {
        seq![]
    } else {
        let rest = policy_kept(fs, order, (n - 1) as nat, current, retain, days, now_ns);
        if policy_removes(fs, order, n - 1, current, retain, days, now_ns) {
            rest
        } else {
            rest.push(order[n - 1])
        }
    }
}

/// What the retention policy does to the installed releases: the folders to remove now
/// (newest first), and the ones it keeps, oldest first, for the disk limit to walk.
pub struct PolicyPlan {
    pub remove: Vec<usize>,
    pub keep: Vec<usize>,
}

/// Applies the retention policy to the release folders `fs` at time `now_ns`: walking them
/// newest first (equal times in listing order), a folder other than the active `current` one
/// goes when it is older than `retention_days` days or beyond the `retain` newest (each rule
/// only when set); the others are kept, listed oldest first.
pub fn policy_plan(
    fs: &[ReleaseFolder],
    current: &str,
    retain: usize,
    retention_days: u64,
    now_ns: u64,
) -> (p: PolicyPlan)
    ensures
        p.remove@ == policy_removal(
            fs@,
            walked(fs@, Walk::Newest, all_items(fs@)),
            fs@.len(),
            current@,
            retain as nat,
            retention_days as nat,
            now_ns,
        ),
        p.keep@ == walked(
            fs@,
            Walk::Oldest,
            policy_kept(
                fs@,
                walked(fs@, Walk::Newest, all_items(fs@)),
                fs@.len(),
                current@,
                retain as nat,
                retention_days as nat,
                now_ns,
            ),
        ),
{
    let items = all_indices(fs.len());
    proof {
        lemma_all_items_valid(fs@);
        assert(items@ == all_items(fs@));
    }
    let order = walk_order(fs, Walk::Newest, items.as_slice());
    let ghost w = order@;
    proof {
        lemma_walk_covers(fs@, Walk::Newest, all_items(fs@), w);
    }
    let mut remove: Vec<usize> = Vec::new();
    let mut keep: Vec<usize> = Vec::new();
    let mut k: usize = 0;
    while k < order.len()
        invariant
            k <= w.len(),
            order@ == w,
            w.len() == fs@.len(),
            is_walk(fs@, Walk::Newest, all_items(fs@), w),
            remove@ == policy_removal(fs@, w, k as nat, current@, retain as nat, retention_days as nat, now_ns),
            keep@ == policy_kept(fs@, w, k as nat, current@, retain as nat, retention_days as nat, now_ns),
            forall|j: int| 0 <= j < keep@.len() ==> exists|q: int| 0 <= q < k && #[trigger] keep@[j] == w[q],
            valid_items(fs@, keep@),
        decreases w.len() - k,
    {
        let i = order[k];
        assert(all_items(fs@).contains(i));
        let f = &fs[i];
        let age = if now_ns > f.modified_ns {
            (now_ns - f.modified_ns) / NS_PER_DAY
        } else {
            0
        };
        let too_old = retention_days > 0 && age > retention_days;
        let over_count = retain > 0 && k >= retain;
        let removes = !crate::text::same_text(f.tag.as_str(), current) && (too_old || over_count);
        assert(removes == policy_removes(fs@, w, k as int, current@, retain as nat, retention_days as nat, now_ns));
        if removes {
            remove.push(i);
        } else {
            let ghost before_push = keep@;
            proof {
                lemma_walk_distinct(fs@, Walk::Newest, all_items(fs@), w);
                assert forall|j: int| 0 <= j < before_push.len() implies #[trigger] before_push[j] != i by {
                    let q = choose|q: int| 0 <= q < k && before_push[j] == w[q];
                    assert(w[q] != w[k as int]);
                }
            }
            keep.push(i);
            proof {
                assert forall|j: int| 0 <= j < keep@.len() implies exists|q: int| 0 <= q < k + 1 && #[trigger] keep@[j] == w[q] by {
                    if j < before_push.len() {
                        assert(keep@[j] == before_push[j]);
                        let q = choose|q: int| 0 <= q < k && before_push[j] == w[q];
                        assert(keep@[j] == w[q]);
                    } else {
                        assert(keep@[j] == w[k as int]);
                    }
                }
                assert forall|a: int, b: int| 0 <= a < b < keep@.len() implies #[trigger] keep@[a] != #[trigger] keep@[b] by {
                    if b == keep@.len() - 1 {
                        assert(keep@[a] == before_push[a]);
                    } else {
                        assert(keep@[a] == before_push[a] && keep@[b] == before_push[b]);
                    }
                }
            }
        }
        k = k + 1;
    }
    let oldest = walk_order(fs, Walk::Oldest, keep.as_slice());
    PolicyPlan { remove, keep: oldest }
}

/// The folders of a walk are distinct.
proof fn lemma_walk_distinct(fs: Seq<ReleaseFolder>, walk: Walk, items: Seq<usize>, o: Seq<usize>)
    requires
        valid_items(fs, items),
        is_walk(fs, walk, items, o),
    ensures
        forall|k: int, l: int| 0 <= k < l < o.len() ==> #[trigger] o[k] != #[trigger] o[l],
{
    assert forall|k: int, l: int| 0 <= k < l < o.len() implies #[trigger] o[k] != #[trigger] o[l] by {
        assert(precedes(fs, walk, o[k] as int, o[l] as int));
        assert(items.contains(o[k]));
        let p = choose|p: int| 0 <= p < items.len() && items[p] == o[k];
        assert(items[p] < fs.len());
        lemma_precedes_order(fs, walk, o[k] as int, o[k] as int, o[k] as int);
    }
}

/// The retention policy never removes the active release.
pub proof fn lemma_policy_keeps_current(
    fs: Seq<ReleaseFolder>,
    order: Seq<usize>,
    n: nat,
    current: Seq<char>,
    retain: nat,
    days: nat,
    now_ns: u64,
)
    ensures
        forall|x: usize| #[trigger] policy_removal(fs, order, n, current, retain, days, now_ns).contains(x) ==> fs[x as int].tag@ != current,
    decreases n,
{
    if n > 0 {
        lemma_policy_keeps_current(fs, order, (n - 1) as nat, current, retain, days, now_ns);
        let rest = policy_removal(fs, order, (n - 1) as nat, current, retain, days, now_ns);
        let all = policy_removal(fs, order, n, current, retain, days, now_ns);
        assert forall|x: usize| #[trigger] all.contains(x) implies fs[x as int].tag@ != current by {
            if !rest.contains(x) {
                let j = choose|j: int| 0 <= j < all.len() && all[j] == x;
                assert(j == all.len() - 1);
            }
        }
    }
}

/// The two retention rules are alternatives, each enough on its own: among the first `n`
/// folders of a walk, a folder that is not the active release is removed when it lies at walk
/// position `retain` or later (with `retain` set), whatever its age, and when it is older than
/// `days` days (with `days` set), wherever it lies. Nothing else is removed.
pub proof fn lemma_policy_rules(
    fs: Seq<ReleaseFolder>,
    order: Seq<usize>,
    n: nat,
    current: Seq<char>,
    retain: nat,
    days: nat,
    now_ns: u64,
    k: int,
)
    requires
        n <= order.len(),
    ensures
        0 <= k < n && fs[order[k] as int].tag@ != current && retain > 0 && k >= retain
            ==> policy_removal(fs, order, n, current, retain, days, now_ns).contains(order[k]),
        0 <= k < n && fs[order[k] as int].tag@ != current && days > 0 && age_days(
            now_ns,
            fs[order[k] as int].modified_ns,
        ) > days ==> policy_removal(fs, order, n, current, retain, days, now_ns).contains(
            order[k],
        ),
        forall|x: usize| #[trigger]
            policy_removal(fs, order, n, current, retain, days, now_ns).contains(x) ==> exists|
                j: int,
            |
                0 <= j < n && order[j] == x && fs[x as int].tag@ != current && ((retain > 0 && j
                    >= retain) || (days > 0 && age_days(now_ns, fs[x as int].modified_ns)
                    > days)),
    decreases n,
{
    if n > 0 {
        lemma_policy_rules(fs, order, (n - 1) as nat, current, retain, days, now_ns, k);
        let rest = policy_removal(fs, order, (n - 1) as nat, current, retain, days, now_ns);
        let all = policy_removal(fs, order, n, current, retain, days, now_ns);
        if 0 <= k < n - 1 && rest.contains(order[k]) {
            let p = choose|p: int| 0 <= p < rest.len() && rest[p] == order[k];
            if policy_removes(fs, order, n - 1, current, retain, days, now_ns) {
                assert(all[p] == order[k]);
            }
        }
        if k == n - 1 {
            if policy_removes(fs, order, n - 1, current, retain, days, now_ns) {
                assert(all[all.len() - 1] == order[k]);
            }
        }
        assert forall|x: usize| #[trigger] all.contains(x) implies exists|j: int|
            0 <= j < n && order[j] == x && fs[x as int].tag@ != current && ((retain > 0 && j
                >= retain) || (days > 0 && age_days(now_ns, fs[x as int].modified_ns) > days)) by {
            let p = choose|p: int| 0 <= p < all.len() && all[p] == x;
            if p < rest.len() {
                assert(rest[p] == x);
                assert(rest.contains(x));
            } else {
                assert(x == order[n - 1]);
                assert(policy_removes(fs, order, n - 1, current, retain, days, now_ns));
                let j = n - 1;
                assert(0 <= j < n && order[j] == x);
            }
        }
    }
}

/// What to do with the next folder of the disk-limit walk.
pub enum DiskStep {
    /// The releases fit within the limit: stop.
    Stop,
    /// The folder is the active release: leave it.
    Skip,
    /// Remove the folder (and, once removed, count its size off the total).
    Remove,
}

/// The disk limit in bytes for a limit of `max_disk_mb` megabytes (saturating).
pub fn disk_limit(max_disk_mb: u64) -> (r: u64)
    ensures
        r == (if max_disk_mb * 1048576 > u64::MAX {
            u64::MAX as int
        } else {
            max_disk_mb * 1048576
        }),
{
    match max_disk_mb.checked_mul(1048576) {
        Some(v) => v,
        None => u64::MAX,
    }
}

/// The disk-limit decision for the next kept folder, holding `tag`, while the kept releases
/// take `total` bytes against `limit`.
pub fn disk_step(total: u64, limit: u64, tag: &str, current: &str) -> (r: DiskStep)
    ensures
        total <= limit ==> r is Stop,
        total > limit && tag@ == current@ ==> r is Skip,
        total > limit && tag@ != current@ ==> r is Remove,
{
    if total <= limit {
        DiskStep::Stop
    } else if crate::text::same_text(tag, current) {
        DiskStep::Skip
    } else {
        DiskStep::Remove
    }
}

} // verus!
