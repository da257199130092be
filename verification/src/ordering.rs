//! Stable orderings used when the workspace is restored: tab drafts by id,
//! saved requests newest first, and the reordering of drafts by the
//! persisted tab order.
use vstd::prelude::*;

use crate::model::WorkspaceState;

verus! {

broadcast use vstd::seq_lib::group_seq_properties;

/// A tab's draft as restored from `drafts/<id>.json`: the tab id, the request
/// payload, which saved request it came from and whether it had unsaved edits.
#[derive(Debug, Clone, PartialEq, Eq)]
pub struct TabDraft<R> {
    pub id: u128,
    pub draft: R,
    pub saved_id: Option<u128>,
    pub dirty: bool,
}

/// A saved request (`requests/<id>.json`): id, display name, optional group,
/// the times of its first save and of its last modification (milliseconds),
/// and the request payload.
#[derive(Debug, Clone, PartialEq, Eq)]
pub struct SavedRequest<D> {
    pub id: u128,
    pub name: String,
    pub group: Option<String>,
    pub created_at: u64,
    pub updated_at: u64,
    pub draft: D,
}

// ---------------------------------------------------------------------------
// Drafts ordered by id (ascending, stable)
// ---------------------------------------------------------------------------

/// Where a draft with this id goes in an id-ordered sequence: in front of the
/// first element whose id is larger (so equal ids keep their arrival order).
pub open spec fn id_insert_pos<R>(s: Seq<TabDraft<R>>, id: u128) -> nat
    decreases s.len(),
{
    if s.len() == 0 {
        0
    } else if s[0].id > id {
        0
    } else {
        1 + id_insert_pos(s.drop_first(), id)
    }
}

/// Stable sort by id, defined by inserting the elements one after the other.
pub open spec fn sort_by_id<R>(s: Seq<TabDraft<R>>) -> Seq<TabDraft<R>>
    decreases s.len(),
{
    if s.len() == 0 {
        s
    } else {
        let t = sort_by_id(s.drop_last());
        t.insert(id_insert_pos(t, s.last().id) as int, s.last())
    }
}

pub open spec fn ids_ascending<R>(s: Seq<TabDraft<R>>) -> bool {
    forall|i: int, j: int| 0 <= i < j < s.len() ==> s[i].id <= s[j].id
}

proof fn lemma_id_insert_pos<R>(s: Seq<TabDraft<R>>, id: u128, p: int)
    requires
        0 <= p <= s.len(),
        forall|j: int| 0 <= j < p ==> s[j].id <= id,
        p == s.len() || s[p].id > id,
    ensures
        id_insert_pos(s, id) == p,
    decreases p,
{
    if p > 0 {
        lemma_id_insert_pos(s.drop_first(), id, p - 1);
    }
}

proof fn lemma_id_insert_pos_bounds<R>(s: Seq<TabDraft<R>>, id: u128)
    ensures
        id_insert_pos(s, id) <= s.len(),
        forall|j: int| 0 <= j < id_insert_pos(s, id) ==> s[j].id <= id,
        id_insert_pos(s, id) < s.len() ==> s[id_insert_pos(s, id) as int].id > id,
    decreases s.len(),
{
    if s.len() > 0 && s[0].id <= id {
        lemma_id_insert_pos_bounds(s.drop_first(), id);
        let p = id_insert_pos(s, id);
        assert forall|j: int| 0 <= j < p implies s[j].id <= id by {
            if j > 0 {
                assert(s[j] == s.drop_first()[j - 1]);
            }
        }
    }
}

/// The stable id order is a permutation of its input and ascends by id.
pub proof fn lemma_sort_by_id<R>(s: Seq<TabDraft<R>>)
    ensures
        sort_by_id(s).to_multiset() == s.to_multiset(),
        sort_by_id(s).len() == s.len(),
        ids_ascending(sort_by_id(s)),
    decreases s.len(),
{
    if s.len() > 0 {
        let t = sort_by_id(s.drop_last());
        lemma_sort_by_id(s.drop_last());
        let x = s.last();
        let p = id_insert_pos(t, x.id);
        lemma_id_insert_pos_bounds(t, x.id);
        let u = t.insert(p as int, x);
        vstd::seq_lib::to_multiset_insert(t, p as int, x);
        vstd::seq_lib::to_multiset_build(s.drop_last(), x);
        assert(s.drop_last().push(x) =~= s);
        assert forall|i: int, j: int| 0 <= i < j < u.len() implies u[i].id <= u[j].id by {
            if j < p {
            } else if j == p {
                assert(u[i] == t[i]);
            } else if i == p {
                assert(u[j] == t[j - 1]);
                if p < t.len() {
                    assert(t[p as int].id <= t[j - 1].id);
                }
            } else if i < p {
                assert(u[j] == t[j - 1]);
            } else {
                assert(u[i] == t[i - 1]);
                assert(u[j] == t[j - 1]);
            }
        }
    }
}

/// Sorts drafts by id, keeping the arrival order of equal ids.
pub fn sort_drafts_by_id<R>(drafts: Vec<TabDraft<R>>) -> (out: Vec<TabDraft<R>>)
    ensures
        out@ == sort_by_id(drafts@),
{
    let ghost orig = drafts@;
    let mut rest = drafts;
    let mut out: Vec<TabDraft<R>> = Vec::new();
    let n = rest.len();
    let mut i: usize = 0;
    assert(orig.take(0) =~= Seq::<TabDraft<R>>::empty());
    while i < n
        invariant
            n == orig.len(),
            i <= n,
            rest@ == orig.skip(i as int),
            out@ == sort_by_id(orig.take(i as int)),
        decreases n - i,
    {
        let x = rest.remove(0);
        assert(x == orig[i as int]);
        let mut p: usize = 0;
        while p < out.len() && out[p].id <= x.id
            invariant
                p <= out.len(),
                forall|j: int| 0 <= j < p ==> out@[j].id <= x.id,
            decreases out.len() - p,
        {
            p = p + 1;
        }
        proof {
            lemma_id_insert_pos(out@, x.id, p as int);
            let s2 = orig.take(i + 1);
            assert(s2.drop_last() =~= orig.take(i as int));
            assert(s2.last() == x);
        }
        out.insert(p, x);
        i = i + 1;
        assert(rest@ =~= orig.skip(i as int));
    }
    assert(orig.take(n as int) =~= orig);
    out
}

// ---------------------------------------------------------------------------
// Drafts reordered by the persisted tab order
// ---------------------------------------------------------------------------

/// Index of the first draft with this id, if any.
pub open spec fn find_id<R>(s: Seq<TabDraft<R>>, id: u128) -> Option<nat>
    decreases s.len(),
{
    if s.len() == 0 {
        None
    } else if s[0].id == id {
        Some(0)
    } else {
        match find_id(s.drop_first(), id) {
            Some(k) => Some(k + 1),
            None => None,
        }
    }
}

proof fn lemma_find_id<R>(s: Seq<TabDraft<R>>, id: u128)
    ensures
        match find_id(s, id) {
            Some(k) => k < s.len() && s[k as int].id == id && forall|j: int|
                0 <= j < k ==> s[j].id != id,
            None => forall|j: int| 0 <= j < s.len() ==> s[j].id != id,
        },
    decreases s.len(),
{
    if s.len() > 0 && s[0].id != id {
        lemma_find_id(s.drop_first(), id);
        match find_id(s.drop_first(), id) {
            Some(k) => {
                assert forall|j: int| 0 <= j < k + 1 implies s[j].id != id by {
                    if j > 0 {
                        assert(s[j] == s.drop_first()[j - 1]);
                    }
                }
            },
            None => {
                assert forall|j: int| 0 <= j < s.len() implies s[j].id != id by {
                    if j > 0 {
                        assert(s[j] == s.drop_first()[j - 1]);
                    }
                }
            },
        }
    }
}

proof fn lemma_find_id_at<R>(s: Seq<TabDraft<R>>, id: u128, k: int)
    requires
        0 <= k < s.len(),
        s[k].id == id,
        forall|j: int| 0 <= j < k ==> s[j].id != id,
    ensures
        find_id(s, id) == Some(k as nat),
    decreases k,
{
    if k > 0 {
        lemma_find_id_at(s.drop_first(), id, k - 1);
    }
}

proof fn lemma_find_id_none<R>(s: Seq<TabDraft<R>>, id: u128)
    requires
        forall|j: int| 0 <= j < s.len() ==> s[j].id != id,
    ensures
        find_id(s, id) is None,
    decreases s.len(),
{
    if s.len() > 0 {
        lemma_find_id_none(s.drop_first(), id);
    }
}

/// Walks the persisted tab order: every listed id takes the first remaining
/// draft with that id into the picked list. Returns (picked, left over).
pub open spec fn pick_in_order<R>(order: Seq<u128>, s: Seq<TabDraft<R>>) -> (
    Seq<TabDraft<R>>,
    Seq<TabDraft<R>>,
)
    decreases order.len(),
{
    if order.len() == 0 {
        (Seq::empty(), s)
    } else {
        let (p, r) = pick_in_order(order.drop_last(), s);
        match find_id(r, order.last()) {
            Some(k) => (p.push(r[k as int]), r.remove(k as int)),
            None => (p, r),
        }
    }
}

/// Picking only moves drafts from one list to the other.
pub proof fn lemma_pick_in_order<R>(order: Seq<u128>, s: Seq<TabDraft<R>>)
    ensures
        pick_in_order(order, s).0.to_multiset().add(pick_in_order(order, s).1.to_multiset())
            == s.to_multiset(),
    decreases order.len(),
{
    if order.len() > 0 {
        lemma_pick_in_order(order.drop_last(), s);
        let (p, r) = pick_in_order(order.drop_last(), s);
        lemma_find_id(r, order.last());
        match find_id(r, order.last()) {
            Some(k) => {
                vstd::seq_lib::to_multiset_build(p, r[k as int]);
                vstd::seq_lib::to_multiset_remove(r, k as int);
                vstd::seq_lib::to_multiset_contains(r, r[k as int]);
                assert(p.push(r[k as int]).to_multiset().add(r.remove(k as int).to_multiset())
                    =~= p.to_multiset().add(r.to_multiset()));
            },
            None => {},
        }
    }
}

pub open spec fn has_id<R>(s: Seq<TabDraft<R>>, id: u128) -> bool {
    exists|i: int| 0 <= i < s.len() && s[i].id == id
}

/// The tab order of a restore: drafts listed in `tab_order` come first in
/// that order, the rest follow by id.
pub open spec fn restore_order<R>(tab_order: Seq<u128>, drafts: Seq<TabDraft<R>>) -> Seq<
    TabDraft<R>,
> {
    let (p, r) = pick_in_order(tab_order, sort_by_id(drafts));
    p + r
}

/// The order of a restore is a permutation of the drafts that were read.
pub proof fn lemma_restore_order_permutes<R>(tab_order: Seq<u128>, drafts: Seq<TabDraft<R>>)
    ensures
        restore_order(tab_order, drafts).to_multiset() == drafts.to_multiset(),
{
    lemma_sort_by_id(drafts);
    lemma_pick_in_order(tab_order, sort_by_id(drafts));
    let (p, r) = pick_in_order(tab_order, sort_by_id(drafts));
    vstd::seq_lib::lemma_multiset_commutative(p, r);
}

/// The ids of drafts, in order.
pub open spec fn draft_ids<R>(s: Seq<TabDraft<R>>) -> Seq<u128> {
    s.map_values(|d: TabDraft<R>| d.id)
}

/// No two drafts share an id.
pub open spec fn distinct_draft_ids<R>(s: Seq<TabDraft<R>>) -> bool {
    forall|i: int, j: int| 0 <= i < j < s.len() ==> s[i].id != s[j].id
}

proof fn lemma_pick_prefix<R>(ordered: Seq<TabDraft<R>>, s: Seq<TabDraft<R>>, k: int)
    requires
        distinct_draft_ids(ordered),
        s.to_multiset() == ordered.to_multiset(),
        0 <= k <= ordered.len(),
    ensures
        pick_in_order(draft_ids(ordered).take(k), s).0 == ordered.take(k),
        pick_in_order(draft_ids(ordered).take(k), s).1.to_multiset() == ordered.skip(k).to_multiset(),
    decreases k,
{
    if k == 0 {
        assert(draft_ids(ordered).take(0) =~= Seq::<u128>::empty());
        assert(ordered.take(0) =~= Seq::<TabDraft<R>>::empty());
        assert(ordered.skip(0) =~= ordered);
    } else {
        lemma_pick_prefix(ordered, s, k - 1);
        let o = draft_ids(ordered).take(k);
        assert(o.drop_last() =~= draft_ids(ordered).take(k - 1));
        assert(o.last() == ordered[k - 1].id);
        let p = pick_in_order(draft_ids(ordered).take(k - 1), s).0;
        let r = pick_in_order(draft_ids(ordered).take(k - 1), s).1;
        let x = ordered[k - 1];
        assert(ordered.skip(k - 1) =~= seq![x] + ordered.skip(k));
        vstd::seq_lib::lemma_multiset_commutative(seq![x], ordered.skip(k));
        assert(seq![x].to_multiset().count(x) > 0) by {
            vstd::seq_lib::to_multiset_contains(seq![x], x);
            assert(seq![x][0] == x);
        }
        vstd::seq_lib::to_multiset_contains(r, x);
        let w = choose|w: int| 0 <= w < r.len() && #[trigger] r[w] == x;
        lemma_find_id(r, x.id);
        let j = find_id(r, x.id)->0 as int;
        assert(find_id(r, x.id) is Some) by {
            if find_id(r, x.id) is None {
                assert(r[w].id == x.id);
            }
        }
        assert(r[j] == x) by {
            vstd::seq_lib::to_multiset_contains(r, r[j]);
            vstd::seq_lib::to_multiset_contains(ordered.skip(k - 1), r[j]);
            let m = choose|m: int| 0 <= m < ordered.skip(k - 1).len() && #[trigger] ordered.skip(k - 1)[m] == r[j];
            assert(ordered[k - 1 + m] == r[j]);
            if m != 0 {
                assert(ordered[k - 1].id != ordered[k - 1 + m].id);
            }
        }
        assert(o.drop_last() == draft_ids(ordered).take(k - 1));
        assert(pick_in_order(o, s) == (p.push(r[j]), r.remove(j)));
        assert(ordered.take(k) =~= ordered.take(k - 1).push(x));
        vstd::seq_lib::to_multiset_remove(r, j);
        assert(ordered.skip(k - 1).to_multiset().remove(x) =~= ordered.skip(k).to_multiset());
    }
}

/// The persisted tab order brings the tabs back as they were: restoring
/// drafts with distinct ids, read in any order, by the order of their ids
/// gives them back in that order.
pub proof fn lemma_restore_order_round_trip<R>(ordered: Seq<TabDraft<R>>, drafts: Seq<TabDraft<R>>)
    requires
        distinct_draft_ids(ordered),
        drafts.to_multiset() == ordered.to_multiset(),
    ensures
        restore_order(draft_ids(ordered), drafts) == ordered,
{
    lemma_sort_by_id(drafts);
    let s = sort_by_id(drafts);
    let n = ordered.len() as int;
    lemma_pick_prefix(ordered, s, n);
    assert(draft_ids(ordered).take(n) =~= draft_ids(ordered));
    assert(ordered.take(n) =~= ordered);
    assert(ordered.skip(n) =~= Seq::<TabDraft<R>>::empty());
    let r = pick_in_order(draft_ids(ordered), s).1;
    vstd::seq_lib::to_multiset_len(r);
    vstd::seq_lib::to_multiset_len(ordered.skip(n));
    assert(r =~= Seq::<TabDraft<R>>::empty());
    assert(pick_in_order(draft_ids(ordered), s).0 + r =~= ordered);
}

/// Finds the first draft with this id.
fn position_of_id<R>(s: &Vec<TabDraft<R>>, id: u128) -> (res: Option<usize>)
    ensures
        res is Some <==> find_id(s@, id) is Some,
        res matches Some(p) ==> find_id(s@, id) == Some(p as nat) && p < s@.len(),
{
    let mut i: usize = 0;
    while i < s.len()
        invariant
            i <= s.len(),
            forall|j: int| 0 <= j < i ==> s@[j].id != id,
        decreases s.len() - i,
    {
        if s[i].id == id {
            proof {
                lemma_find_id_at(s@, id, i as int);
            }
            return Some(i);
        }
        i = i + 1;
    }
    proof {
        lemma_find_id_none(s@, id);
    }
    None
}

/// Puts restored drafts in tab order: drafts named by `tab_order` first, in
/// that order (unknown ids are skipped), then the remaining drafts by id.
/// The active tab survives only if a draft with its id is present.
pub fn order_drafts<R>(state: &WorkspaceState, drafts: Vec<TabDraft<R>>) -> (res: (
    Vec<TabDraft<R>>,
    Option<u128>,
))
    ensures
        res.0@ == restore_order(state.tab_order@, drafts@),
        res.1 == (match state.active {
            Some(a) => if has_id(restore_order(state.tab_order@, drafts@), a) {
                Some(a)
            } else {
                None
            },
            None => None,
        }),
{
    let tab_order = &state.tab_order;
    let active = state.active;
    let mut rest = sort_drafts_by_id(drafts);
    let ghost sorted = rest@;
    let mut ordered: Vec<TabDraft<R>> = Vec::new();
    let n = tab_order.len();
    let mut i: usize = 0;
    assert(tab_order@.take(0) =~= Seq::<u128>::empty());
    while i < n
        invariant
            n == tab_order@.len(),
            i <= n,
            (ordered@, rest@) == pick_in_order(tab_order@.take(i as int), sorted),
        decreases n - i,
    {
        let id = tab_order[i];
        proof {
            let o2 = tab_order@.take(i + 1);
            assert(o2.drop_last() =~= tab_order@.take(i as int));
            assert(o2.last() == id);
            lemma_find_id(rest@, id);
        }
        let ghost old_ordered = ordered@;
        let ghost old_rest = rest@;
        proof {
            let o2 = tab_order@.take(i + 1);
            assert(o2.drop_last() == tab_order@.take(i as int));
            assert(pick_in_order(o2.drop_last(), sorted) == (old_ordered, old_rest));
        }
        match position_of_id(&rest, id) {
            Some(pos) => {
                let d = rest.remove(pos);
                ordered.push(d);
                assert(ordered@ =~= old_ordered.push(old_rest[pos as int]));
                assert(rest@ =~= old_rest.remove(pos as int));
                assert(find_id(old_rest, id) == Some(pos as nat));
                assert(pick_in_order(tab_order@.take(i + 1), sorted) == (ordered@, rest@));
            },
            None => {
                assert(find_id(old_rest, id) is None);
                assert(pick_in_order(tab_order@.take(i + 1), sorted) == (ordered@, rest@));
            },
        }
        i = i + 1;
    }
    assert(tab_order@.take(n as int) =~= tab_order@);
    let ghost picked = ordered@;
    let ghost left = rest@;
    ordered.append(&mut rest);
    assert(ordered@ =~= picked + left);
    let found = match active {
        Some(a) => {
            let pos = position_of_id(&ordered, a);
            proof {
                lemma_find_id(ordered@, a);
            }
            if pos.is_some() {
                Some(a)
            } else {
                None
            }
        },
        None => None,
    };
    (ordered, found)
}

// ---------------------------------------------------------------------------
// Saved requests, newest first (stable)
// ---------------------------------------------------------------------------

/// `a` is listed before `b`: it was modified later, or at the same time with
/// a larger id.
pub open spec fn ranks_before<D>(a: SavedRequest<D>, b: SavedRequest<D>) -> bool {
    a.updated_at > b.updated_at || (a.updated_at == b.updated_at && a.id > b.id)
}

/// Newest first: no element ranks before one that precedes it.
pub open spec fn newest_first<D>(s: Seq<SavedRequest<D>>) -> bool {
    forall|i: int, j: int| 0 <= i < j < s.len() ==> !ranks_before(s[j], s[i])
}

/// Where `x` goes in a newest-first list: in front of the first element it
/// ranks before (so elements with the same key keep their arrival order).
pub open spec fn saved_insert_pos<D>(s: Seq<SavedRequest<D>>, x: SavedRequest<D>) -> nat
    decreases s.len(),
{
    if s.len() == 0 {
        0
    } else if ranks_before(x, s[0]) {
        0
    } else {
        1 + saved_insert_pos(s.drop_first(), x)
    }
}

/// Stable newest-first sort, defined by inserting the elements one after the other.
pub open spec fn sort_newest_first<D>(s: Seq<SavedRequest<D>>) -> Seq<SavedRequest<D>>
    decreases s.len(),
{
    if s.len() == 0 {
        s
    } else {
        let t = sort_newest_first(s.drop_last());
        t.insert(saved_insert_pos(t, s.last()) as int, s.last())
    }
}

proof fn lemma_saved_insert_pos<D>(s: Seq<SavedRequest<D>>, x: SavedRequest<D>, p: int)
    requires
        0 <= p <= s.len(),
        forall|j: int| 0 <= j < p ==> !ranks_before(x, #[trigger] s[j]),
        p == s.len() || ranks_before(x, s[p]),
    ensures
        saved_insert_pos(s, x) == p,
    decreases p,
{
    if p > 0 {
        assert forall|j: int| 0 <= j < p - 1 implies !ranks_before(x, #[trigger] s.drop_first()[j]) by {
            assert(s.drop_first()[j] == s[j + 1]);
        }
        lemma_saved_insert_pos(s.drop_first(), x, p - 1);
    }
}

proof fn lemma_saved_insert_pos_bounds<D>(s: Seq<SavedRequest<D>>, x: SavedRequest<D>)
    ensures
        saved_insert_pos(s, x) <= s.len(),
        forall|j: int| 0 <= j < saved_insert_pos(s, x) ==> !ranks_before(x, #[trigger] s[j]),
        saved_insert_pos(s, x) < s.len() ==> ranks_before(x, s[saved_insert_pos(s, x) as int]),
    decreases s.len(),
{
    if s.len() > 0 && !ranks_before(x, s[0]) {
        lemma_saved_insert_pos_bounds(s.drop_first(), x);
        let p = saved_insert_pos(s, x);
        assert forall|j: int| 0 <= j < p implies !ranks_before(x, #[trigger] s[j]) by {
            if j > 0 {
                assert(s[j] == s.drop_first()[j - 1]);
            }
        }
    }
}

/// The newest-first order is a permutation of its input and is newest first.
pub proof fn lemma_sort_newest_first<D>(s: Seq<SavedRequest<D>>)
    ensures
        sort_newest_first(s).to_multiset() == s.to_multiset(),
        sort_newest_first(s).len() == s.len(),
        newest_first(sort_newest_first(s)),
    decreases s.len(),
{
    if s.len() > 0 {
        let t = sort_newest_first(s.drop_last());
        lemma_sort_newest_first(s.drop_last());
        let x = s.last();
        let p = saved_insert_pos(t, x);
        lemma_saved_insert_pos_bounds(t, x);
        let u = t.insert(p as int, x);
        vstd::seq_lib::to_multiset_insert(t, p as int, x);
        vstd::seq_lib::to_multiset_build(s.drop_last(), x);
        assert(s.drop_last().push(x) =~= s);
        assert forall|i: int, j: int| 0 <= i < j < u.len() implies !ranks_before(u[j], u[i]) by {
            if j < p {
            } else if j == p {
                assert(u[i] == t[i]);
                assert(!ranks_before(x, t[i]));
            } else if i == p {
                assert(u[j] == t[j - 1]);
                if p < t.len() {
                    assert(!ranks_before(t[j - 1], t[p as int]));
                    assert(ranks_before(x, t[p as int]));
                }
            } else if i < p {
                assert(u[j] == t[j - 1]);
            } else {
                assert(u[i] == t[i - 1]);
                assert(u[j] == t[j - 1]);
            }
        }
    }
}

/// Sorts saved requests newest first (by modification time, then id, both
/// descending); requests with the same key keep their order.
pub fn sort_saved<D>(list: &mut Vec<SavedRequest<D>>)
    ensures
        final(list)@ == sort_newest_first(old(list)@),
{
    let ghost orig = list@;
    let mut rest: Vec<SavedRequest<D>> = Vec::new();
    std::mem::swap(&mut rest, list);
    let mut out: Vec<SavedRequest<D>> = Vec::new();
    let n = rest.len();
    let mut i: usize = 0;
    assert(orig.take(0) =~= Seq::<SavedRequest<D>>::empty());
    while i < n
        invariant
            n == orig.len(),
            i <= n,
            rest@ == orig.skip(i as int),
            out@ == sort_newest_first(orig.take(i as int)),
        decreases n - i,
    {
        let x = rest.remove(0);
        assert(x == orig[i as int]);
        let mut p: usize = 0;
        while p < out.len() && !(x.updated_at > out[p].updated_at || (x.updated_at
            == out[p].updated_at && x.id > out[p].id))
            invariant
                p <= out.len(),
                forall|j: int| 0 <= j < p ==> !ranks_before(x, #[trigger] out@[j]),
            decreases out.len() - p,
        {
            p = p + 1;
        }
        proof {
            lemma_saved_insert_pos(out@, x, p as int);
            let s2 = orig.take(i + 1);
            assert(s2.drop_last() =~= orig.take(i as int));
            assert(s2.last() == x);
        }
        out.insert(p, x);
        i = i + 1;
        assert(rest@ =~= orig.skip(i as int));
    }
    assert(orig.take(n as int) =~= orig);
    *list = out;
}

} // verus!
