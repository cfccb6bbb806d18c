//! The panes by id, which of them has the focus, and the order in which the
//! floating ones are stacked.
use crate::editor::pane::{Pane, PaneContent};
use crate::prelude::Rect;
use vstd::prelude::*;

verus! {

/// The entries hold distinct keys.
pub open spec fn keys_distinct(e: Seq<(usize, Pane)>) -> bool {
    forall|i: int, j: int| 0 <= i < e.len() && 0 <= j < e.len() && i != j ==> e[i].0 != e[j].0
}

/// Some entry holds key `k`.
pub open spec fn has_key(e: Seq<(usize, Pane)>, k: usize) -> bool {
    exists|i: int| 0 <= i < e.len() && e[i].0 == k
}

/// The entries as a map from key to pane.
pub open spec fn entries_map(e: Seq<(usize, Pane)>) -> Map<usize, Pane> {
    Map::new(
        |k: usize| has_key(e, k),
        |k: usize| e[choose|i: int| 0 <= i < e.len() && e[i].0 == k].1,
    )
}

/// The floating panes of the entries, in order.
pub open spec fn floating_of(e: Seq<(usize, Pane)>) -> Seq<Pane>
    decreases e.len(),
{
    if e.len() == 0 {
        Seq::empty()
    } else {
        let rest = floating_of(e.drop_last());
        if e.last().1.is_floating {
            rest.push(e.last().1)
        } else {
            rest
        }
    }
}

/// The index of the first pane of `s` stacked above `z`, or the length.
pub open spec fn first_above(s: Seq<Pane>, z: usize) -> int
    decreases s.len(),
{
    if s.len() == 0 {
        0
    } else if s[0].z_index > z {
        0
    } else {
        1 + first_above(s.drop_first(), z)
    }
}

/// The panes of `s` stacked by z-index, lowest first; panes of equal
/// z-index keep their order.
pub open spec fn sorted_by_z(s: Seq<Pane>) -> Seq<Pane>
    decreases s.len(),
{
    if s.len() == 0 {
        Seq::empty()
    } else {
        let rest = sorted_by_z(s.drop_last());
        rest.insert(first_above(rest, s.last().z_index), s.last())
    }
}

/// The highest z-index of the floating panes of the entries, or zero.
pub open spec fn max_floating_z(e: Seq<(usize, Pane)>) -> usize
    decreases e.len(),
{
    if e.len() == 0 {
        0
    } else {
        let rest = max_floating_z(e.drop_last());
        if e.last().1.is_floating && e.last().1.z_index > rest {
            e.last().1.z_index
        } else {
            rest
        }
    }
}

/// The floating panes among the panes `ids` of `panes`, in that order.
pub open spec fn floating_in(ids: Seq<usize>, panes: Map<usize, Pane>) -> Seq<Pane>
    decreases ids.len(),
{
    if ids.len() == 0 {
        Seq::empty()
    } else {
        let rest = floating_in(ids.drop_last(), panes);
        let p = panes[ids.last()];
        if p.is_floating {
            rest.push(p)
        } else {
            rest
        }
    }
}

/// The highest z-index of the floating panes among the panes `ids` of
/// `panes`, or zero.
pub open spec fn top_z_in(ids: Seq<usize>, panes: Map<usize, Pane>) -> usize
    decreases ids.len(),
{
    if ids.len() == 0 {
        0
    } else {
        let rest = top_z_in(ids.drop_last(), panes);
        let p = panes[ids.last()];
        if p.is_floating && p.z_index > rest {
            p.z_index
        } else {
            rest
        }
    }
}

/// No floating pane among `ids` is above [`top_z_in`]; when one floats,
/// some floating pane is at that height, else it is zero.
pub proof fn lemma_top_z_in(ids: Seq<usize>, panes: Map<usize, Pane>)
    ensures
        forall|i: int|
            0 <= i < ids.len() && #[trigger] panes[ids[i]].is_floating ==> panes[ids[i]].z_index
                <= top_z_in(ids, panes),
        top_z_in(ids, panes) == 0 || exists|i: int|
            0 <= i < ids.len() && #[trigger] panes[ids[i]].is_floating && panes[ids[i]].z_index
                == top_z_in(ids, panes),
    decreases ids.len(),
{
    if ids.len() > 0 {
        let rest = ids.drop_last();
        lemma_top_z_in(rest, panes);
        assert forall|i: int|
            0 <= i < ids.len() && #[trigger] panes[ids[i]].is_floating implies panes[ids[i]].z_index
                <= top_z_in(ids, panes) by {
            if i < rest.len() {
                assert(ids[i] == rest[i]);
            }
        }
        if top_z_in(ids, panes) != 0 {
            if top_z_in(ids, panes) == top_z_in(rest, panes) {
                let i = choose|i: int|
                    0 <= i < rest.len() && #[trigger] panes[rest[i]].is_floating
                        && panes[rest[i]].z_index == top_z_in(rest, panes);
                assert(ids[i] == rest[i]);
            } else {
                assert(panes[ids[ids.len() - 1]].is_floating);
            }
        }
    }
}

proof fn lemma_prefix_views(e: Seq<(usize, Pane)>, k: int)
    requires
        keys_distinct(e),
        0 <= k <= e.len(),
    ensures
        floating_of(e.take(k)) == floating_in(
            e.take(k).map_values(|x: (usize, Pane)| x.0),
            entries_map(e),
        ),
        max_floating_z(e.take(k)) == top_z_in(
            e.take(k).map_values(|x: (usize, Pane)| x.0),
            entries_map(e),
        ),
    decreases k,
{
    if k > 0 {
        lemma_prefix_views(e, k - 1);
        lemma_entry(e, k - 1);
        assert(e.take(k).drop_last() =~= e.take(k - 1));
        assert(e.take(k).map_values(|x: (usize, Pane)| x.0).drop_last() =~= e.take(k - 1).map_values(
            |x: (usize, Pane)| x.0,
        ));
    } else {
        assert(e.take(0) =~= Seq::<(usize, Pane)>::empty());
    }
}

/// `p` with its focus flag set to `active`.
pub open spec fn with_active(p: Pane, active: bool) -> Pane {
    Pane { active, ..p }
}

/// The panes, by id, with the one that has the focus.
pub struct PaneManager {
    panes: Vec<(usize, Pane)>,
    active_pane: usize,
    next_pane_id: usize,
}

proof fn lemma_entry(e: Seq<(usize, Pane)>, i: int)
    requires
        keys_distinct(e),
        0 <= i < e.len(),
    ensures
        entries_map(e).contains_key(e[i].0),
        entries_map(e)[e[i].0] == e[i].1,
{
    assert(has_key(e, e[i].0));
    let j = choose|j: int| 0 <= j < e.len() && e[j].0 == e[i].0;
    assert(j == i);
}

proof fn lemma_push(e: Seq<(usize, Pane)>, k: usize, p: Pane)
    requires
        keys_distinct(e),
        !has_key(e, k),
    ensures
        keys_distinct(e.push((k, p))),
        entries_map(e.push((k, p))) == entries_map(e).insert(k, p),
{
    let f = e.push((k, p));
    assert forall|i: int, j: int| 0 <= i < f.len() && 0 <= j < f.len() && i != j implies f[i].0
        != f[j].0 by {
        if i < e.len() && j < e.len() {
            assert(f[i] == e[i] && f[j] == e[j]);
        } else if i < e.len() {
            assert(f[i] == e[i]);
        } else if j < e.len() {
            assert(f[j] == e[j]);
        }
    }
    assert forall|q: usize| #[trigger] has_key(f, q) <==> has_key(e, q) || q == k by {
        if has_key(e, q) {
            let i = choose|i: int| 0 <= i < e.len() && e[i].0 == q;
            assert(f[i] == e[i]);
        }
        if has_key(f, q) && q != k {
            let i = choose|i: int| 0 <= i < f.len() && f[i].0 == q;
            assert(f[i] == e[i]);
        }
        if q == k {
            assert(f[e.len() as int].0 == k);
        }
    }
    assert forall|q: usize| has_key(f, q) implies entries_map(f)[q] == entries_map(e).insert(
        k,
        p,
    )[q] by {
        if q == k {
            lemma_entry(f, e.len() as int);
        } else {
            let i = choose|i: int| 0 <= i < e.len() && e[i].0 == q;
            lemma_entry(e, i);
            assert(f[i] == e[i]);
            lemma_entry(f, i);
        }
    }
    assert(entries_map(f) =~= entries_map(e).insert(k, p));
}

proof fn lemma_update(e: Seq<(usize, Pane)>, i: int, p: Pane)
    requires
        keys_distinct(e),
        0 <= i < e.len(),
    ensures
        keys_distinct(e.update(i, (e[i].0, p))),
        entries_map(e.update(i, (e[i].0, p))) == entries_map(e).insert(e[i].0, p),
{
    let f = e.update(i, (e[i].0, p));
    assert forall|a: int, b: int| 0 <= a < f.len() && 0 <= b < f.len() && a != b implies f[a].0
        != f[b].0 by {
        assert(f[a].0 == e[a].0 && f[b].0 == e[b].0);
    }
    assert forall|q: usize| #[trigger] has_key(f, q) <==> has_key(e, q) by {
        if has_key(e, q) {
            let j = choose|j: int| 0 <= j < e.len() && e[j].0 == q;
            assert(f[j].0 == q);
        }
        if has_key(f, q) {
            let j = choose|j: int| 0 <= j < f.len() && f[j].0 == q;
            assert(e[j].0 == q);
        }
    }
    assert forall|q: usize| has_key(f, q) implies entries_map(f)[q] == entries_map(e).insert(
        e[i].0,
        p,
    )[q] by {
        let j = choose|j: int| 0 <= j < f.len() && f[j].0 == q;
        lemma_entry(f, j);
        lemma_entry(e, j);
    }
    assert(entries_map(f) =~= entries_map(e).insert(e[i].0, p));
}

proof fn lemma_remove(e: Seq<(usize, Pane)>, i: int)
    requires
        keys_distinct(e),
        0 <= i < e.len(),
    ensures
        keys_distinct(e.remove(i)),
        entries_map(e.remove(i)) == entries_map(e).remove(e[i].0),
{
    let f = e.remove(i);
    assert forall|a: int| 0 <= a < f.len() implies #[trigger] f[a] == e[if a < i {
        a
    } else {
        a + 1
    }] by {}
    assert forall|a: int, b: int| 0 <= a < f.len() && 0 <= b < f.len() && a != b implies f[a].0
        != f[b].0 by {
        let a2 = if a < i {
            a
        } else {
            a + 1
        };
        let b2 = if b < i {
            b
        } else {
            b + 1
        };
        assert(f[a] == e[a2] && f[b] == e[b2]);
    }
    assert forall|q: usize| #[trigger] has_key(f, q) <==> has_key(e, q) && q != e[i].0 by {
        if has_key(f, q) {
            let a = choose|a: int| 0 <= a < f.len() && f[a].0 == q;
            let a2 = if a < i {
                a
            } else {
                a + 1
            };
            assert(f[a] == e[a2]);
        }
        if has_key(e, q) && q != e[i].0 {
            let j = choose|j: int| 0 <= j < e.len() && e[j].0 == q;
            if j < i {
                assert(f[j] == e[j]);
            } else {
                assert(j != i);
                assert(f[j - 1] == e[j]);
            }
        }
    }
    assert forall|q: usize| has_key(f, q) implies entries_map(f)[q] == entries_map(e).remove(
        e[i].0,
    )[q] by {
        let a = choose|a: int| 0 <= a < f.len() && f[a].0 == q;
        let a2 = if a < i {
            a
        } else {
            a + 1
        };
        assert(f[a] == e[a2]);
        lemma_entry(f, a);
        lemma_entry(e, a2);
    }
    assert(entries_map(f) =~= entries_map(e).remove(e[i].0));
}

proof fn lemma_max_floating_z(e: Seq<(usize, Pane)>, i: int)
    requires
        0 <= i < e.len(),
        e[i].1.is_floating,
    ensures
        e[i].1.z_index <= max_floating_z(e),
    decreases e.len(),
{
    if i < e.len() - 1 {
        lemma_max_floating_z(e.drop_last(), i);
    }
}

proof fn lemma_max_floating_z_same(e: Seq<(usize, Pane)>, f: Seq<(usize, Pane)>)
    requires
        e.len() == f.len(),
        forall|i: int|
            0 <= i < e.len() ==> #[trigger] e[i].1.is_floating == f[i].1.is_floating && e[i].1.z_index
                == f[i].1.z_index,
    ensures
        max_floating_z(e) == max_floating_z(f),
    decreases e.len(),
{
    if e.len() > 0 {
        lemma_max_floating_z_same(e.drop_last(), f.drop_last());
        assert(e.last().1.is_floating == f.last().1.is_floating);
    }
}

/// `s` is stacked by z-index, lowest first.
pub open spec fn stacked(s: Seq<Pane>) -> bool {
    forall|i: int, j: int| 0 <= i <= j < s.len() ==> s[i].z_index <= s[j].z_index
}

proof fn lemma_first_above(s: Seq<Pane>, z: usize)
    requires
        stacked(s),
    ensures
        0 <= first_above(s, z) <= s.len(),
        forall|i: int| 0 <= i < first_above(s, z) ==> s[i].z_index <= z,
        forall|i: int| first_above(s, z) <= i < s.len() ==> s[i].z_index > z,
    decreases s.len(),
{
    if s.len() > 0 && s[0].z_index <= z {
        let t = s.drop_first();
        lemma_first_above(t, z);
        assert forall|i: int| 0 <= i < first_above(s, z) implies s[i].z_index <= z by {
            if i > 0 {
                assert(s[i] == t[i - 1]);
            }
        }
        assert forall|i: int| first_above(s, z) <= i < s.len() implies s[i].z_index > z by {
            assert(s[i] == t[i - 1]);
        }
    }
}

/// Stacking panes by z-index keeps them all and leaves each no higher than
/// the ones after it.
pub proof fn lemma_sorted_by_z(s: Seq<Pane>)
    ensures
        stacked(sorted_by_z(s)),
        sorted_by_z(s).len() == s.len(),
        sorted_by_z(s).to_multiset() == s.to_multiset(),
    decreases s.len(),
{
    if s.len() > 0 {
        let rest = sorted_by_z(s.drop_last());
        let x = s.last();
        lemma_sorted_by_z(s.drop_last());
        lemma_first_above(rest, x.z_index);
        let k = first_above(rest, x.z_index);
        let r = rest.insert(k, x);
        assert forall|i: int, j: int| 0 <= i <= j < r.len() implies r[i].z_index <= r[j].z_index by {
            if i < k && j < k {
                assert(r[i] == rest[i] && r[j] == rest[j]);
            } else if i < k && j == k {
                assert(r[i] == rest[i]);
            } else if i < k {
                assert(r[i] == rest[i] && r[j] == rest[j - 1]);
            } else if i == k && j > k {
                assert(r[j] == rest[j - 1]);
            } else if i > k {
                assert(r[i] == rest[i - 1] && r[j] == rest[j - 1]);
            }
        }
        vstd::seq_lib::to_multiset_insert(rest, k, x);
        vstd::seq_lib::to_multiset_build(s.drop_last(), x);
        assert(s.drop_last().push(x) =~= s);
        assert(r.to_multiset() == s.to_multiset());
    } else {
        assert(s =~= Seq::<Pane>::empty());
    }
}

/// The focus flags of `panes` mark exactly the pane `active`.
pub open spec fn focus_consistent(panes: Map<usize, Pane>, active: usize) -> bool {
    forall|id: usize| #[trigger] panes.contains_key(id) ==> (panes[id].active <==> id == active)
}

/// The panes after moving the focus from `active` to `id`.
pub open spec fn focus_moved(panes: Map<usize, Pane>, active: usize, id: usize) -> Map<usize, Pane> {
    let cleared = if panes.contains_key(active) {
        panes.insert(active, with_active(panes[active], false))
    } else {
        panes
    };
    cleared.insert(id, with_active(cleared[id], true))
}

/// Moving the focus to an existing pane keeps exactly one pane, that one,
/// marked as having it.
pub proof fn lemma_focus_moved(panes: Map<usize, Pane>, active: usize, id: usize)
    requires
        focus_consistent(panes, active),
        panes.contains_key(id),
    ensures
        focus_consistent(focus_moved(panes, active, id), id),
        focus_moved(panes, active, id).dom() == panes.dom(),
{
    let m = focus_moved(panes, active, id);
    assert forall|k: usize| #[trigger] m.contains_key(k) implies (m[k].active <==> k == id) by {
        if k != id && k != active {
            assert(panes.contains_key(k));
        }
    }
    assert(m.dom() =~= panes.dom());
}

/// Moving the focus changes nothing but the focus flags.
pub proof fn lemma_focus_moved_fields(panes: Map<usize, Pane>, active: usize, id: usize)
    requires
        panes.contains_key(id),
    ensures
        focus_moved(panes, active, id).dom() == panes.dom(),
        forall|q: usize| #[trigger]
            panes.contains_key(q) ==> focus_moved(panes, active, id)[q] == with_active(
                panes[q],
                focus_moved(panes, active, id)[q].active,
            ),
{
    assert(focus_moved(panes, active, id).dom() =~= panes.dom());
}

impl Default for PaneManager {
    fn default() -> (r: Self)
        ensures
            r.wf(),
            r.panes() == Map::<usize, Pane>::empty(),
            r.active_id() == 0,
            r.next_id() == 0,
    {
        let r = PaneManager { panes: Vec::new(), active_pane: 0, next_pane_id: 0 };
        assert(r.panes() =~= Map::<usize, Pane>::empty());
        r
    }
}

impl PaneManager {
    /// The ids are distinct and below the next id.
    pub closed spec fn wf(&self) -> bool {
        &&& keys_distinct(self.panes@)
        &&& forall|i: int| 0 <= i < self.panes@.len() ==> self.panes@[i].0 < self.next_pane_id
    }

    /// The panes by id.
    pub closed spec fn panes(&self) -> Map<usize, Pane> {
        entries_map(self.panes@)
    }

    /// The ids of the panes, in the order in which they were added.
    pub closed spec fn order(&self) -> Seq<usize> {
        self.panes@.map_values(|e: (usize, Pane)| e.0)
    }

    /// The id of the pane that has the focus (which may have been removed).
    pub closed spec fn active_id(&self) -> usize {
        self.active_pane
    }

    /// The id the next created pane gets.
    pub closed spec fn next_id(&self) -> usize {
        self.next_pane_id
    }

    /// The floating panes, in the order they were created.
    pub closed spec fn floating(&self) -> Seq<Pane> {
        floating_of(self.panes@)
    }

    /// The highest z-index of the floating panes, or zero.
    pub closed spec fn top_z(&self) -> usize {
        max_floating_z(self.panes@)
    }

    /// There are at most `usize::MAX` panes.
    pub proof fn lemma_panes_fit(self)
        ensures
            self.order().len() <= usize::MAX,
    {
        assert(self.panes.len() == self.panes@.len());
    }

    proof fn lemma_views(self)
        requires
            self.wf(),
        ensures
            self.order().no_duplicates(),
            forall|id: usize| #[trigger] self.order().contains(id) <==> self.panes().contains_key(id),
            self.order().len() == self.panes().dom().len(),
            self.floating() == floating_in(self.order(), self.panes()),
            self.top_z() == top_z_in(self.order(), self.panes()),
    {
        let e = self.panes@;
        let o = self.order();
        assert forall|i: int, j: int| 0 <= i < o.len() && 0 <= j < o.len() && i != j implies o[i]
            != o[j] by {}
        assert forall|id: usize| #[trigger] o.contains(id) <==> self.panes().contains_key(id) by {
            if o.contains(id) {
                let i = choose|i: int| 0 <= i < o.len() && o[i] == id;
                assert(e[i].0 == id);
            }
            if self.panes().contains_key(id) {
                let i = choose|i: int| 0 <= i < e.len() && e[i].0 == id;
                assert(o[i] == id);
            }
        }
        assert(o.to_set() =~= self.panes().dom());
        o.unique_seq_to_set();
        lemma_prefix_views(e, e.len() as int);
        assert(e.take(e.len() as int) =~= e);
    }

    /// A manager holding `initial_pane` under its id, with the focus.
    pub fn new(initial_pane: Pane) -> (r: Self)
        requires
            initial_pane.pane_id < usize::MAX,
        ensures
            r.wf(),
            r.panes() == Map::<usize, Pane>::empty().insert(initial_pane.pane_id, initial_pane),
            r.active_id() == initial_pane.pane_id,
            r.next_id() == initial_pane.pane_id + 1,
    {
        let initial_pane_id = initial_pane.pane_id;
        let mut panes: Vec<(usize, Pane)> = Vec::new();
        proof {
            lemma_push(panes@, initial_pane_id, initial_pane);
            assert(entries_map(panes@) =~= Map::<usize, Pane>::empty());
        }
        panes.push((initial_pane_id, initial_pane));
        PaneManager { panes, active_pane: initial_pane_id, next_pane_id: initial_pane_id + 1 }
    }

    fn index_of(&self, id: usize) -> (r: Option<usize>)
        ensures
            match r {
                Some(i) => i < self.panes@.len() && self.panes@[i as int].0 == id,
                None => !has_key(self.panes@, id),
            },
    {
        let mut i: usize = 0;
        while i < self.panes.len()
            invariant
                i <= self.panes@.len(),
                forall|j: int| 0 <= j < i ==> self.panes@[j].0 != id,
            decreases self.panes@.len() - i,
        {
            if self.panes[i].0 == id {
                return Some(i);
            }
            i = i + 1;
        }
        None
    }

    fn insert_new(&mut self, pane: Pane) -> (id: usize)
        requires
            old(self).wf(),
            old(self).next_id() < usize::MAX,
        ensures
            final(self).wf(),
            id == old(self).next_id(),
            !old(self).panes().contains_key(id),
            final(self).panes() == old(self).panes().insert(id, pane),
            final(self).next_id() == old(self).next_id() + 1,
            final(self).active_id() == old(self).active_id(),
            final(self).floating() == (if pane.is_floating {
                old(self).floating().push(pane)
            } else {
                old(self).floating()
            }),
    {
        let pane_id = self.next_pane_id;
        proof {
            if has_key(self.panes@, pane_id) {
                let i = choose|i: int| 0 <= i < self.panes@.len() && self.panes@[i].0 == pane_id;
            }
            lemma_push(self.panes@, pane_id, pane);
            assert(self.panes@.push((pane_id, pane)).drop_last() =~= self.panes@);
        }
        self.panes.push((pane_id, pane));
        self.next_pane_id = self.next_pane_id + 1;
        pane_id
    }

    /// Adds a tiled pane showing `content` under a fresh id and returns the id.
    pub fn create_pane(&mut self, content: PaneContent) -> (id: usize)
        requires
            old(self).wf(),
            old(self).next_id() < usize::MAX,
        ensures
            final(self).wf(),
            id == old(self).next_id(),
            !old(self).panes().contains_key(id),
            final(self).panes() == old(self).panes().insert(
                id,
                Pane {
                    pane_id: id,
                    content,
                    active: false,
                    is_floating: false,
                    z_index: 0,
                    is_minimized: false,
                    rect: Rect::default_spec(),
                },
            ),
            final(self).next_id() == old(self).next_id() + 1,
            final(self).active_id() == old(self).active_id(),
            final(self).floating() == old(self).floating(),
    {
        let pane_id = self.next_pane_id;
        let pane = Pane {
            pane_id,
            content,
            active: false,
            is_floating: false,
            z_index: 0,
            is_minimized: false,
            rect: Rect::default(),
        };
        self.insert_new(pane)
    }

    /// Adds a floating pane at `z_index` showing `content` under a fresh id
    /// and returns the id.
    pub fn create_floating_pane(&mut self, content: PaneContent, z_index: usize) -> (id: usize)
        requires
            old(self).wf(),
            old(self).next_id() < usize::MAX,
        ensures
            final(self).wf(),
            id == old(self).next_id(),
            !old(self).panes().contains_key(id),
            final(self).panes() == old(self).panes().insert(
                id,
                Pane {
                    pane_id: id,
                    content,
                    active: false,
                    is_floating: true,
                    z_index,
                    is_minimized: false,
                    rect: Rect::default_spec(),
                },
            ),
            final(self).next_id() == old(self).next_id() + 1,
            final(self).active_id() == old(self).active_id(),
            final(self).floating() == old(self).floating().push(final(self).panes()[id]),
    {
        let pane_id = self.next_pane_id;
        let pane = Pane {
            pane_id,
            content,
            active: false,
            is_floating: true,
            z_index,
            is_minimized: false,
            rect: Rect::default(),
        };
        self.insert_new(pane)
    }

    /// Whether another pane can get an id.
    pub fn can_create(&self) -> (b: bool)
        ensures
            b == (self.next_id() < usize::MAX),
    {
        self.next_pane_id < usize::MAX
    }

    /// The pane with id `pane_id`, if there is one.
    pub fn get_pane(&self, pane_id: usize) -> (r: Option<&Pane>)
        requires
            self.wf(),
        ensures
            match r {
                Some(p) => self.panes().contains_key(pane_id) && *p == self.panes()[pane_id],
                None => !self.panes().contains_key(pane_id),
            },
    {
        match self.index_of(pane_id) {
            Some(i) => {
                proof {
                    lemma_entry(self.panes@, i as int);
                }
                Some(&self.panes[i].1)
            },
            None => None,
        }
    }

    /// The pane with id `pane_id`, to change, if there is one.
    pub fn get_pane_mut(&mut self, pane_id: usize) -> (r: Option<&mut Pane>)
        requires
            old(self).wf(),
        ensures
            final(self).wf(),
            r is Some <==> old(self).panes().contains_key(pane_id),
            r is Some ==> *r->0 == old(self).panes()[pane_id] && final(self).panes() == old(self).panes().insert(pane_id, *final(r->0)),
            r is None ==> final(self).panes() == old(self).panes(),
            final(self).next_id() == old(self).next_id(),
            final(self).active_id() == old(self).active_id(),
    {
        match self.index_of(pane_id) {
            Some(i) => {
                proof {
                    lemma_entry(self.panes@, i as int);
                    assert forall|p: Pane|
                        entries_map(#[trigger] self.panes@.update(i as int, (pane_id, p)))
                            == entries_map(self.panes@).insert(pane_id, p) && keys_distinct(
                            self.panes@.update(i as int, (pane_id, p)),
                        ) by {
                        lemma_update(self.panes@, i as int, p);
                    }
                    assert forall|p: Pane, k: int|
                        0 <= k < self.panes@.len() implies #[trigger] self.panes@.update(
                            i as int,
                            (pane_id, p),
                        )[k].0 < self.next_pane_id by {
                        assert(self.panes@.update(i as int, (pane_id, p))[k].0 == self.panes@[k].0);
                    }
                }
                let r = &mut self.panes[i].1;
                Some(r)
            },
            None => None,
        }
    }

    /// The pane that has the focus, if it still exists.
    pub fn active_pane(&self) -> (r: Option<&Pane>)
        requires
            self.wf(),
        ensures
            match r {
                Some(p) => self.panes().contains_key(self.active_id()) && *p == self.panes()[self.active_id()],
                None => !self.panes().contains_key(self.active_id()),
            },
    {
        self.get_pane(self.active_pane)
    }

    /// The pane that has the focus, to change, if it still exists.
    pub fn active_pane_mut(&mut self) -> (r: Option<&mut Pane>)
        requires
            old(self).wf(),
        ensures
            final(self).wf(),
            r is Some <==> old(self).panes().contains_key(old(self).active_id()),
            r is Some ==> *r->0 == old(self).panes()[old(self).active_id()] && final(self).panes()
                == old(self).panes().insert(old(self).active_id(), *final(r->0)),
            r is None ==> final(self).panes() == old(self).panes(),
            final(self).next_id() == old(self).next_id(),
            final(self).active_id() == old(self).active_id(),
    {
        let id = self.active_pane;
        self.get_pane_mut(id)
    }

    fn set_entry_active(&mut self, i: usize, active: bool)
        requires
            i < old(self).panes@.len(),
        ensures
            final(self).panes@ == old(self).panes@.update(
                i as int,
                (old(self).panes@[i as int].0, with_active(old(self).panes@[i as int].1, active)),
            ),
            final(self).active_pane == old(self).active_pane,
            final(self).next_pane_id == old(self).next_pane_id,
    {
        let ghost e0 = self.panes@;
        let (key, mut pane) = self.panes.remove(i);
        pane.active = active;
        self.panes.insert(i, (key, pane));
        assert(self.panes@ =~= e0.update(i as int, (key, with_active(e0[i as int].1, active))));
    }

    /// Gives the focus to pane `pane_id`, if it exists: the pane that had it
    /// is marked inactive and the new one active.
    #[verifier::rlimit(80)]
    pub fn set_active_pane(&mut self, pane_id: usize)
        requires
            old(self).wf(),
        ensures
            final(self).wf(),
            !old(self).panes().contains_key(pane_id) ==> final(self).panes() == old(self).panes()
                && final(self).active_id() == old(self).active_id(),
            old(self).panes().contains_key(pane_id) ==> final(self).panes() == focus_moved(
                old(self).panes(),
                old(self).active_id(),
                pane_id,
            ) && final(self).active_id() == pane_id,
            final(self).next_id() == old(self).next_id(),
            final(self).top_z() == old(self).top_z(),
    {
        let target = self.index_of(pane_id);
        if target.is_none() {
            return;
        }
        let t = target.unwrap();
        let ghost e0 = self.panes@;
        match self.index_of(self.active_pane) {
            Some(i) => {
                proof {
                    lemma_entry(self.panes@, i as int);
                    lemma_update(self.panes@, i as int, with_active(self.panes@[i as int].1, false));
                }
                self.set_entry_active(i, false);
            },
            None => {},
        }
        let ghost e1 = self.panes@;
        proof {
            lemma_entry(self.panes@, t as int);
            lemma_update(self.panes@, t as int, with_active(self.panes@[t as int].1, true));
        }
        self.set_entry_active(t, true);
        self.active_pane = pane_id;
        proof {
            lemma_max_floating_z_same(e0, self.panes@);
            assert forall|i: int| 0 <= i < self.panes@.len() implies self.panes@[i].0
                < self.next_pane_id by {
                assert(self.panes@[i].0 == e0[i].0);
            }
        }
    }

    /// Removes the pane `pane_id` and returns it, if there is one.
    pub fn remove_pane(&mut self, pane_id: usize) -> (r: Option<Pane>)
        requires
            old(self).wf(),
        ensures
            final(self).wf(),
            r == (if old(self).panes().contains_key(pane_id) {
                Some(old(self).panes()[pane_id])
            } else {
                None::<Pane>
            }),
            final(self).panes() == old(self).panes().remove(pane_id),
            final(self).next_id() == old(self).next_id(),
            final(self).active_id() == old(self).active_id(),
    {
        match self.index_of(pane_id) {
            Some(i) => {
                proof {
                    lemma_entry(self.panes@, i as int);
                    lemma_remove(self.panes@, i as int);
                }
                let (_, pane) = self.panes.remove(i);
                Some(pane)
            },
            None => {
                assert(entries_map(self.panes@) =~= entries_map(self.panes@).remove(pane_id));
                None
            },
        }
    }

    /// The panes, in the order in which they were added.
    pub fn iter(&self) -> (r: Vec<&Pane>)
        requires
            self.wf(),
        ensures
            r@.len() == self.order().len(),
            forall|k: int| 0 <= k < r@.len() ==> *#[trigger] r@[k] == self.panes()[self.order()[k]],
    {
        let mut r: Vec<&Pane> = Vec::new();
        let mut i: usize = 0;
        while i < self.panes.len()
            invariant
                i <= self.panes@.len(),
                keys_distinct(self.panes@),
                r@.len() == i,
                forall|k: int| 0 <= k < i ==> *#[trigger] r@[k] == entries_map(self.panes@)[self.panes@[k].0],
            decreases self.panes@.len() - i,
        {
            proof {
                lemma_entry(self.panes@, i as int);
            }
            r.push(&self.panes[i].1);
            i = i + 1;
        }
        r
    }

    /// The ids of the panes.
    pub fn ids(&self) -> (r: Vec<usize>)
        requires
            self.wf(),
        ensures
            r@ == self.order(),
            r@.no_duplicates(),
            forall|id: usize| #[trigger] r@.contains(id) <==> self.panes().contains_key(id),
    {
        let mut r: Vec<usize> = Vec::new();
        let mut i: usize = 0;
        while i < self.panes.len()
            invariant
                i <= self.panes@.len(),
                keys_distinct(self.panes@),
                r@.len() == i,
                forall|k: int| 0 <= k < i ==> r@[k] == self.panes@[k].0,
            decreases self.panes@.len() - i,
        {
            r.push(self.panes[i].0);
            i = i + 1;
        }
        assert forall|id: usize| #[trigger] r@.contains(id) <==> self.panes().contains_key(id) by {
            if r@.contains(id) {
                let k = choose|k: int| 0 <= k < r@.len() && r@[k] == id;
                assert(has_key(self.panes@, id));
            }
            if has_key(self.panes@, id) {
                let k = choose|k: int| 0 <= k < self.panes@.len() && self.panes@[k].0 == id;
                assert(r@[k] == id);
            }
        }
        r
    }

    /// The floating panes stacked by z-index, lowest first (see [`sorted_by_z`]).
    pub fn get_floating_panes_sorted(&self) -> (r: Vec<&Pane>)
        ensures
            r@.map_values(|p: &Pane| *p) == sorted_by_z(self.floating()),
            stacked(r@.map_values(|p: &Pane| *p)),
            r@.map_values(|p: &Pane| *p).to_multiset() == self.floating().to_multiset(),
    {
        let mut r: Vec<&Pane> = Vec::new();
        let mut i: usize = 0;
        while i < self.panes.len()
            invariant
                i <= self.panes@.len(),
                r@.map_values(|p: &Pane| *p) == sorted_by_z(floating_of(self.panes@.take(i as int))),
            decreases self.panes@.len() - i,
        {
            let ghost before = r@.map_values(|p: &Pane| *p);
            let pane = &self.panes[i].1;
            proof {
                let t = self.panes@.take(i + 1);
                assert(t.drop_last() =~= self.panes@.take(i as int));
                assert(t.last() == self.panes@[i as int]);
                if pane.is_floating {
                    let f = floating_of(self.panes@.take(i as int));
                    assert(floating_of(t) == f.push(*pane));
                    assert(f.push(*pane).drop_last() =~= f);
                    assert(sorted_by_z(f.push(*pane)) == sorted_by_z(f).insert(
                        first_above(sorted_by_z(f), pane.z_index),
                        *pane,
                    ));
                } else {
                    assert(floating_of(t) == floating_of(self.panes@.take(i as int)));
                }
            }
            if pane.is_floating {
                let mut pos: usize = 0;
                assert(before.subrange(0, before.len() as int) =~= before);
                while pos < r.len() && r[pos].z_index <= pane.z_index
                    invariant
                        pos <= r@.len(),
                        before == r@.map_values(|p: &Pane| *p),
                        first_above(before, pane.z_index) == pos + first_above(
                            before.subrange(pos as int, before.len() as int),
                            pane.z_index,
                        ),
                    decreases r@.len() - pos,
                {
                    proof {
                        let rest = before.subrange(pos as int, before.len() as int);
                        assert(rest.drop_first() =~= before.subrange(pos + 1, before.len() as int));
                        assert(rest[0] == before[pos as int]);
                        assert(before[pos as int] == *r@[pos as int]);
                    }
                    pos = pos + 1;
                }
                proof {
                    let rest = before.subrange(pos as int, before.len() as int);
                    assert(first_above(rest, pane.z_index) == 0);
                }
                r.insert(pos, pane);
                assert(r@.map_values(|p: &Pane| *p) =~= before.insert(pos as int, *pane));
            }
            i = i + 1;
        }
        assert(self.panes@.take(self.panes@.len() as int) =~= self.panes@);
        proof {
            lemma_sorted_by_z(self.floating());
        }
        r
    }

    /// The highest z-index of the floating panes, or zero.
    pub fn highest_floating_z(&self) -> (z: usize)
        ensures
            z == self.top_z(),
    {
        let mut z: usize = 0;
        let mut i: usize = 0;
        while i < self.panes.len()
            invariant
                i <= self.panes@.len(),
                z == max_floating_z(self.panes@.take(i as int)),
            decreases self.panes@.len() - i,
        {
            proof {
                assert(self.panes@.take(i + 1).drop_last() =~= self.panes@.take(i as int));
            }
            if self.panes[i].1.is_floating && self.panes[i].1.z_index > z {
                z = self.panes[i].1.z_index;
            }
            i = i + 1;
        }
        assert(self.panes@.take(self.panes@.len() as int) =~= self.panes@);
        z
    }

    /// Puts the floating pane `pane_id` above all the others; a tiled or
    /// missing pane is left as it is.
    pub fn bring_to_front(&mut self, pane_id: usize)
        requires
            old(self).wf(),
            old(self).top_z() < usize::MAX,
        ensures
            final(self).wf(),
            old(self).panes().contains_key(pane_id) && old(self).panes()[pane_id].is_floating
                ==> final(self).panes() == old(self).panes().insert(
                pane_id,
                Pane { z_index: (old(self).top_z() + 1) as usize, ..old(self).panes()[pane_id] },
            ),
            !(old(self).panes().contains_key(pane_id) && old(self).panes()[pane_id].is_floating)
                ==> final(self).panes() == old(self).panes(),
            old(self).panes().contains_key(pane_id) && old(self).panes()[pane_id].is_floating
                ==> forall|k: usize|
                #![trigger final(self).panes()[k]]
                k != pane_id && final(self).panes().contains_key(k)
                    && final(self).panes()[k].is_floating
                    ==> final(self).panes()[k].z_index < final(self).panes()[pane_id].z_index,
            final(self).active_id() == old(self).active_id(),
            final(self).next_id() == old(self).next_id(),
    {
        match self.get_pane(pane_id) {
            Some(pane) => {
                if !pane.is_floating {
                    return;
                }
            },
            None => {
                return;
            },
        }
        let max_z = self.highest_floating_z();
        proof {
            assert forall|k: usize|
                #![trigger self.panes()[k]]
                self.panes().contains_key(k) && self.panes()[k].is_floating implies self.panes()[k].z_index
                <= max_z by {
                let i = choose|i: int| 0 <= i < self.panes@.len() && self.panes@[i].0 == k;
                lemma_entry(self.panes@, i);
                lemma_max_floating_z(self.panes@, i);
            }
        }
        if let Some(pane) = self.get_pane_mut(pane_id) {
            pane.z_index = max_z + 1;
        }
    }
}

/// The list of floating panes, the order of the panes and the top z-index
/// agree with the panes by id: the order holds each id once; the floating
/// list is the floating panes in that order; the top z-index is the highest
/// z-index among them, or zero.
pub proof fn lemma_views_of_panes(pm: PaneManager)
    requires
        pm.wf(),
    ensures
        pm.order().no_duplicates(),
        forall|id: usize| #[trigger] pm.order().contains(id) <==> pm.panes().contains_key(id),
        pm.order().len() == pm.panes().dom().len(),
        pm.floating() == floating_in(pm.order(), pm.panes()),
        pm.top_z() == top_z_in(pm.order(), pm.panes()),
{
    pm.lemma_views();
}

/// The panes in [`floating_in`] are exactly the floating panes among `ids`.
pub proof fn lemma_floating_in(ids: Seq<usize>, panes: Map<usize, Pane>)
    ensures
        forall|x: Pane|
            #[trigger] floating_in(ids, panes).contains(x) ==> x.is_floating && exists|i: int|
                0 <= i < ids.len() && panes[ids[i]] == x,
        forall|i: int|
            0 <= i < ids.len() && #[trigger] panes[ids[i]].is_floating ==> floating_in(
                ids,
                panes,
            ).contains(panes[ids[i]]),
    decreases ids.len(),
{
    if ids.len() > 0 {
        let rest = ids.drop_last();
        lemma_floating_in(rest, panes);
        let f = floating_in(ids, panes);
        let fr = floating_in(rest, panes);
        assert forall|x: Pane| #[trigger] f.contains(x) implies x.is_floating && exists|i: int|
            0 <= i < ids.len() && panes[ids[i]] == x by {
            if fr.contains(x) {
                let i = choose|i: int| 0 <= i < rest.len() && panes[rest[i]] == x;
                assert(ids[i] == rest[i]);
            } else {
                let k = choose|k: int| 0 <= k < f.len() && f[k] == x;
                assert(k == fr.len());
                assert(panes[ids[ids.len() - 1]] == x);
            }
        }
        assert forall|i: int|
            0 <= i < ids.len() && #[trigger] panes[ids[i]].is_floating implies f.contains(
                panes[ids[i]],
            ) by {
            if i < rest.len() {
                assert(ids[i] == rest[i]);
                assert(fr.contains(panes[rest[i]]));
                let k = choose|k: int| 0 <= k < fr.len() && fr[k] == panes[rest[i]];
                assert(f[k] == fr[k]);
            } else {
                assert(f[f.len() - 1] == panes[ids[i]]);
            }
        }
    }
}

/// A floating pane stacked above every other floating pane is drawn last:
/// it is the last of the floating panes sorted by z-index (as after
/// [`PaneManager::bring_to_front`]).
pub proof fn lemma_highest_is_last(pm: PaneManager, id: usize)
    requires
        pm.wf(),
        pm.panes().contains_key(id),
        pm.panes()[id].is_floating,
        forall|k: usize|
            #![trigger pm.panes()[k]]
            k != id && pm.panes().contains_key(k) && pm.panes()[k].is_floating
                ==> pm.panes()[k].z_index < pm.panes()[id].z_index,
    ensures
        sorted_by_z(pm.floating()).len() > 0,
        sorted_by_z(pm.floating()).last() == pm.panes()[id],
{
    pm.lemma_views();
    let o = pm.order();
    let panes = pm.panes();
    lemma_floating_in(o, panes);
    lemma_sorted_by_z(pm.floating());
    let f = pm.floating();
    let s = sorted_by_z(f);
    f.to_multiset_ensures();
    s.to_multiset_ensures();
    assert(o.contains(id));
    let j = choose|j: int| 0 <= j < o.len() && o[j] == id;
    assert(panes[o[j]].is_floating);
    assert(f.contains(panes[id]));
    assert(f.to_multiset().count(panes[id]) > 0);
    assert(s.to_multiset().count(panes[id]) > 0);
    assert(s.contains(panes[id]));
    let last = s[s.len() - 1];
    assert(s.to_multiset().count(last) > 0);
    assert(f.to_multiset().count(last) > 0);
    assert(f.contains(last));
    let i = choose|i: int| 0 <= i < o.len() && panes[o[i]] == last;
    if last != panes[id] {
        let k = o[i];
        assert(k != id);
        assert(o.contains(k));
        assert(panes[k].z_index < panes[id].z_index);
        let m = choose|m: int| 0 <= m < s.len() && s[m] == panes[id];
        assert(s[m].z_index <= s[s.len() - 1].z_index);
    }
}

} // verus!
