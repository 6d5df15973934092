//! Declarative per-output layouts and the index from surfaces to the outputs that show them.
use crate::geometry::{Point, Rect, Size};
use crate::tables::{IdMap, NameMap};
use crate::text::str_eq;
use vstd::prelude::*;

verus! {

/// An entry in a per-output declarative layout.
/// Coordinates are relative to the output's working area (frame-relative).
#[derive(Clone, Copy, Debug, PartialEq, Eq, Structural)]
pub struct LayoutEntry {
    pub id: u64,
    pub x: i32,
    pub y: i32,
    pub w: u32,
    pub h: u32,
    /// Selected view, sent by Emacs. Decides the output that a surface belongs to.
    pub focused: bool,
    /// Largest view per surface, computed here from the entries' dimensions.
    pub primary: bool,
    /// The surface covers the full output and ignores the working area.
    pub fullscreen: bool,
}

/// What the layout code reads of an output that is mapped into the global space.
#[derive(Clone, Copy, Debug, PartialEq, Eq, Structural)]
pub struct MappedOutput {
    /// Place and extent in the global space.
    pub geo: Rect,
    /// Logical extent.
    pub size: Size,
    /// The part that layer surfaces leave free, relative to the output.
    pub zone: Rect,
    /// Extent of the current mode in physical pixels.
    pub mode_size: Option<Size>,
    /// Refresh rate of the current mode in millihertz.
    pub refresh: i32,
}

/// The surface `id` occurs in `entries`.
pub open spec fn lists(entries: Seq<LayoutEntry>, id: u64) -> bool {
    exists|j: int| 0 <= j < entries.len() && #[trigger] entries[j].id == id
}

/// Tests whether the surface `id` occurs in `entries`.
pub fn entries_list(entries: &Vec<LayoutEntry>, id: u64) -> (r: bool)
    ensures
        r == lists(entries@, id),
{
    let mut j: usize = 0;
    while j < entries.len()
        invariant
            j <= entries@.len(),
            forall|k: int| 0 <= k < j ==> #[trigger] entries@[k].id != id,
        decreases entries@.len() - j,
    {
        if entries[j].id == id {
            return true;
        }
        j = j + 1;
    }
    false
}

/// The surfaces of `entries` that `other` does not list, each once.
pub open spec fn ids_missing_in(entries: Seq<LayoutEntry>, other: Seq<LayoutEntry>) -> Seq<u64>
    decreases entries.len(),
{
    if entries.len() == 0 {
        Seq::empty()
    } else {
        let head = ids_missing_in(entries.drop_last(), other);
        let id = entries.last().id;
        if lists(entries.drop_last(), id) || lists(other, id) {
            head
        } else {
            head.push(id)
        }
    }
}

/// `ids_missing_in` holds exactly the surfaces of `entries` that `other` does not list, and none
/// of them twice.
pub proof fn lemma_ids_missing(entries: Seq<LayoutEntry>, other: Seq<LayoutEntry>)
    ensures
        forall|id: u64| #[trigger]
            ids_missing_in(entries, other).contains(id) <==> lists(entries, id) && !lists(
                other,
                id,
            ),
        ids_missing_in(entries, other).no_duplicates(),
    decreases entries.len(),
{
    if entries.len() > 0 {
        let head = entries.drop_last();
        lemma_ids_missing(head, other);
        let last = entries.last().id;
        let hm = ids_missing_in(head, other);
        let m = ids_missing_in(entries, other);
        assert forall|id: u64| #[trigger] m.contains(id) <==> lists(entries, id) && !lists(
            other,
            id,
        ) by {
            if lists(head, id) {
                let j = choose|j: int| 0 <= j < head.len() && #[trigger] head[j].id == id;
                assert(entries[j].id == id);
            }
            if lists(entries, id) && id != last {
                let j = choose|j: int| 0 <= j < entries.len() && #[trigger] entries[j].id == id;
                assert(head[j].id == id);
            }
            assert(entries[entries.len() - 1].id == last);
            assert(hm.contains(id) <==> lists(head, id) && !lists(other, id));
            if m != hm {
                assert(m == hm.push(last));
                if hm.contains(id) {
                    let k = choose|k: int| 0 <= k < hm.len() && hm[k] == id;
                    assert(m[k] == id);
                }
                assert(m[m.len() - 1] == last);
                if m.contains(id) && id != last {
                    let k = choose|k: int| 0 <= k < m.len() && m[k] == id;
                    assert(hm[k] == id);
                }
            }
        }
        if m != hm {
            assert(!hm.contains(last));
        }
    }
}

/// Lists the surfaces of `entries` that `other` does not list.
pub fn missing_ids(entries: &Vec<LayoutEntry>, other: &Vec<LayoutEntry>) -> (r: Vec<u64>)
    ensures
        r@ == ids_missing_in(entries@, other@),
{
    let mut out: Vec<u64> = Vec::new();
    let mut j: usize = 0;
    assert(entries@.subrange(0, 0) =~= Seq::<LayoutEntry>::empty());
    while j < entries.len()
        invariant
            j <= entries@.len(),
            out@ == ids_missing_in(entries@.subrange(0, j as int), other@),
        decreases entries@.len() - j,
    {
        let id: u64 = entries[j].id;
        let ghost pre = entries@.subrange(0, j as int);
        let ghost post = entries@.subrange(0, j as int + 1);
        assert(post.drop_last() =~= pre);
        let mut k: usize = 0;
        let mut seen = false;
        while k < j
            invariant
                k <= j < entries@.len(),
                pre == entries@.subrange(0, j as int),
                seen == (exists|q: int| 0 <= q < k && #[trigger] pre[q].id == id),
            decreases j - k,
        {
            assert(pre[k as int] == entries@[k as int]);
            if entries[k].id == id {
                seen = true;
            }
            k = k + 1;
        }
        assert(seen == lists(pre, id));
        if !seen && !entries_list(other, id) {
            out.push(id);
        }
        j = j + 1;
    }
    assert(entries@.subrange(0, entries@.len() as int) =~= entries@);
    out
}

/// Which outputs show which surfaces, as a set of pairs.
pub struct SurfaceOutputs {
    pub pairs: Vec<(u64, String)>,
}

impl View for SurfaceOutputs {
    type V = Set<(u64, Seq<char>)>;

    open spec fn view(&self) -> Set<(u64, Seq<char>)> {
        Set::new(|p: (u64, Seq<char>)| self.has(p.0, p.1))
    }
}

impl SurfaceOutputs {
    pub open spec fn has(&self, id: u64, name: Seq<char>) -> bool {
        exists|i: int|
            0 <= i < self.pairs@.len() && (#[trigger] self.pairs@[i]).0 == id && self.pairs@[i].1@
                == name
    }

    /// No pair is stored twice.
    pub open spec fn wf(&self) -> bool {
        forall|i: int, j: int|
            0 <= i < j < self.pairs@.len() ==> (#[trigger] self.pairs@[i]).0 != (
            #[trigger] self.pairs@[j]).0 || self.pairs@[i].1@ != self.pairs@[j].1@
    }

    /// Some output shows the surface.
    pub open spec fn shown(&self, id: u64) -> bool {
        exists|name: Seq<char>| self.has(id, name)
    }

    pub fn new() -> (r: Self)
        ensures
            r.wf(),
            r@ == Set::<(u64, Seq<char>)>::empty(),
    {
        let r = SurfaceOutputs { pairs: Vec::new() };
        assert(r@ =~= Set::<(u64, Seq<char>)>::empty());
        r
    }

    fn find(&self, id: u64, name: &str) -> (r: Option<usize>)
        ensures
            match r {
                Some(i) => i < self.pairs@.len() && self.pairs@[i as int].0 == id
                    && self.pairs@[i as int].1@ == name@ && self.has(id, name@),
                None => !self.has(id, name@),
            },
    {
        let mut i: usize = 0;
        while i < self.pairs.len()
            invariant
                i <= self.pairs@.len(),
                forall|j: int|
                    0 <= j < i ==> (#[trigger] self.pairs@[j]).0 != id || self.pairs@[j].1@ != name@,
            decreases self.pairs@.len() - i,
        {
            if self.pairs[i].0 == id && str_eq(self.pairs[i].1.as_str(), name) {
                return Some(i);
            }
            i = i + 1;
        }
        None
    }

    pub fn contains(&self, id: u64, name: &str) -> (r: bool)
        ensures
            r == self.has(id, name@),
            r == self@.contains((id, name@)),
    {
        self.find(id, name).is_some()
    }

    pub fn contains_surface(&self, id: u64) -> (r: bool)
        ensures
            r == self.shown(id),
    {
        let mut i: usize = 0;
        while i < self.pairs.len()
            invariant
                i <= self.pairs@.len(),
                forall|j: int| 0 <= j < i ==> (#[trigger] self.pairs@[j]).0 != id,
            decreases self.pairs@.len() - i,
        {
            if self.pairs[i].0 == id {
                proof {
                    assert(self.has(id, self.pairs@[i as int].1@));
                }
                return true;
            }
            i = i + 1;
        }
        false
    }

    pub fn add(&mut self, id: u64, name: &String)
        requires
            old(self).wf(),
        ensures
            final(self).wf(),
            final(self)@ == old(self)@.insert((id, name@)),
    {
        let ghost before = *self;
        if self.find(id, name.as_str()).is_none() {
            self.pairs.push((id, name.clone()));
            proof {
                assert forall|i: u64, n: Seq<char>| #[trigger]
                    self.has(i, n) == (before.has(i, n) || (i == id && n == name@)) by {
                    if before.has(i, n) {
                        let p = choose|p: int|
                            0 <= p < before.pairs@.len() && (#[trigger] before.pairs@[p]).0 == i
                                && before.pairs@[p].1@ == n;
                        assert(self.pairs@[p] == before.pairs@[p]);
                    }
                    assert(self.pairs@[self.pairs@.len() - 1].0 == id);
                    if self.has(i, n) {
                        let p = choose|p: int|
                            0 <= p < self.pairs@.len() && (#[trigger] self.pairs@[p]).0 == i
                                && self.pairs@[p].1@ == n;
                        if p < before.pairs@.len() {
                            assert(before.pairs@[p] == self.pairs@[p]);
                        }
                    }
                }
            }
        }
        assert(self@ =~= before@.insert((id, name@)));
    }

    pub fn remove(&mut self, id: u64, name: &str)
        requires
            old(self).wf(),
        ensures
            final(self).wf(),
            final(self)@ == old(self)@.remove((id, name@)),
    {
        let ghost before = *self;
        match self.find(id, name) {
            Some(k) => {
                self.pairs.remove(k);
                proof {
                    assert forall|i: u64, n: Seq<char>| #[trigger]
                        self.has(i, n) == (before.has(i, n) && !(i == id && n == name@)) by {
                        if before.has(i, n) && !(i == id && n == name@) {
                            let p = choose|p: int|
                                0 <= p < before.pairs@.len() && (#[trigger] before.pairs@[p]).0 == i
                                    && before.pairs@[p].1@ == n;
                            let q = if p < k {
                                p
                            } else {
                                p - 1
                            };
                            assert(self.pairs@[q] == before.pairs@[p]);
                        }
                        if self.has(i, n) {
                            let p = choose|p: int|
                                0 <= p < self.pairs@.len() && (#[trigger] self.pairs@[p]).0 == i
                                    && self.pairs@[p].1@ == n;
                            let q = if p < k {
                                p
                            } else {
                                p + 1
                            };
                            assert(before.pairs@[q] == self.pairs@[p]);
                        }
                    }
                }
            },
            None => {},
        }
        assert(self@ =~= before@.remove((id, name@)));
    }

    /// Removes every pair of the surface.
    pub fn remove_surface(&mut self, id: u64)
        requires
            old(self).wf(),
        ensures
            final(self).wf(),
            final(self)@ == old(self)@.filter(|p: (u64, Seq<char>)| p.0 != id),
    {
        let ghost before = *self;
        let mut i: usize = 0;
        while i < self.pairs.len()
            invariant
                i <= self.pairs@.len(),
                self.wf(),
                forall|j: int| 0 <= j < i ==> (#[trigger] self.pairs@[j]).0 != id,
                forall|q: u64, n: Seq<char>|
                    q != id ==> #[trigger] self.has(q, n) == before.has(q, n),
            decreases self.pairs@.len() - i,
        {
            if self.pairs[i].0 == id {
                let ghost prev = *self;
                self.pairs.remove(i);
                proof {
                    assert forall|q: u64, n: Seq<char>| q != id implies #[trigger] self.has(q, n)
                        == before.has(q, n) by {
                        if prev.has(q, n) {
                            let p = choose|p: int|
                                0 <= p < prev.pairs@.len() && (#[trigger] prev.pairs@[p]).0 == q
                                    && prev.pairs@[p].1@ == n;
                            let t = if p < i {
                                p
                            } else {
                                p - 1
                            };
                            assert(self.pairs@[t] == prev.pairs@[p]);
                        }
                        if self.has(q, n) {
                            let p = choose|p: int|
                                0 <= p < self.pairs@.len() && (#[trigger] self.pairs@[p]).0 == q
                                    && self.pairs@[p].1@ == n;
                            let t = if p < i {
                                p
                            } else {
                                p + 1
                            };
                            assert(prev.pairs@[t] == self.pairs@[p]);
                        }
                    }
                }
            } else {
                i = i + 1;
            }
        }
        assert(self@ =~= before@.filter(|p: (u64, Seq<char>)| p.0 != id));
    }
}

/// `entries` without those of the surface `id`.
pub open spec fn without_id(entries: Seq<LayoutEntry>, id: u64) -> Seq<LayoutEntry> {
    entries.filter(|e: LayoutEntry| e.id != id)
}

/// Dropping a surface from a layout drops that surface and no other.
pub proof fn lemma_without_id(entries: Seq<LayoutEntry>, id: u64)
    ensures
        forall|q: u64| #[trigger]
            lists(without_id(entries, id), q) <==> q != id && lists(entries, q),
    decreases entries.len(),
{
    reveal(Seq::filter);
    if entries.len() > 0 {
        let head = entries.drop_last();
        lemma_without_id(head, id);
        let keep = without_id(head, id);
        let all = without_id(entries, id);
        assert forall|q: u64| #[trigger] lists(all, q) <==> q != id && lists(entries, q) by {
            assert(lists(keep, q) <==> q != id && lists(head, q));
            if lists(head, q) {
                let j = choose|j: int| 0 <= j < head.len() && #[trigger] head[j].id == q;
                assert(entries[j].id == q);
            }
            if lists(entries, q) && q != entries.last().id {
                let j = choose|j: int| 0 <= j < entries.len() && #[trigger] entries[j].id == q;
                assert(head[j].id == q);
            }
            assert(entries[entries.len() - 1].id == entries.last().id);
            if entries.last().id != id {
                assert(all == keep.push(entries.last()));
                if lists(keep, q) {
                    let j = choose|j: int| 0 <= j < keep.len() && #[trigger] keep[j].id == q;
                    assert(all[j].id == q);
                }
                assert(all[all.len() - 1].id == entries.last().id);
                if lists(all, q) && q != entries.last().id {
                    let j = choose|j: int| 0 <= j < all.len() && #[trigger] all[j].id == q;
                    assert(keep[j].id == q);
                }
            }
        }
    }
}

/// Copies `entries` without those of the surface `id`.
pub fn drop_id(entries: &Vec<LayoutEntry>, id: u64) -> (r: Vec<LayoutEntry>)
    ensures
        r@ == without_id(entries@, id),
{
    let mut out: Vec<LayoutEntry> = Vec::new();
    let mut j: usize = 0;
    proof {
        reveal(Seq::filter);
        assert(entries@.subrange(0, 0) =~= Seq::<LayoutEntry>::empty());
    }
    while j < entries.len()
        invariant
            j <= entries@.len(),
            out@ == without_id(entries@.subrange(0, j as int), id),
        decreases entries@.len() - j,
    {
        proof {
            reveal(Seq::filter);
            assert(entries@.subrange(0, j as int + 1).drop_last() =~= entries@.subrange(
                0,
                j as int,
            ));
        }
        if entries[j].id != id {
            out.push(entries[j]);
        }
        j = j + 1;
    }
    assert(entries@.subrange(0, entries@.len() as int) =~= entries@);
    out
}

/// The layouts of all outputs together with the index of the surfaces that they show.
pub struct Layouts {
    /// Declared layout per output.
    pub outputs: NameMap<Vec<LayoutEntry>>,
    /// Reverse index: on which outputs a surface appears.
    pub surface_outputs: SurfaceOutputs,
}

/// The layouts `after` are `before` without the surface.
pub open spec fn surface_dropped(before: Layouts, after: Layouts, id: u64) -> bool {
    &&& after.outputs.entries@.len() == before.outputs.entries@.len()
    &&& forall|o: int|
        0 <= o < before.outputs.entries@.len() ==> (#[trigger] after.outputs.entries@[o]).0
            == before.outputs.entries@[o].0 && after.outputs.entries@[o].1@ == without_id(
            before.outputs.entries@[o].1@,
            id,
        )
    &&& forall|i: u64, name: Seq<char>| #[trigger]
        after.surface_outputs@.contains((i, name)) == (before.surface_outputs@.contains((i, name))
            && i != id)
}

impl Layouts {
    /// The layout of the output `name` holds the surface `id`.
    pub open spec fn shows(&self, id: u64, name: Seq<char>) -> bool {
        self.outputs@.contains_key(name) && lists(self.outputs@[name]@, id)
    }

    /// The reverse index says exactly what the layouts hold.
    pub open spec fn index_exact(&self) -> bool {
        forall|id: u64, name: Seq<char>| #[trigger]
            self.surface_outputs.has(id, name) <==> self.shows(id, name)
    }

    pub open spec fn wf(&self) -> bool {
        &&& self.outputs.wf()
        &&& self.surface_outputs.wf()
        &&& self.index_exact()
    }

    pub fn new() -> (r: Self)
        ensures
            r.wf(),
            r.outputs@ == Map::<Seq<char>, Vec<LayoutEntry>>::empty(),
            r.outputs.entries@.len() == 0,
            r.surface_outputs@ == Set::<(u64, Seq<char>)>::empty(),
    {
        let r = Layouts { outputs: NameMap::new(), surface_outputs: SurfaceOutputs::new() };
        proof {
            assert forall|id: u64, name: Seq<char>| #[trigger]
                r.surface_outputs.has(id, name) <==> r.shows(id, name) by {
                assert(r.surface_outputs@.contains((id, name)) == r.surface_outputs.has(id, name));
            }
        }
        r
    }

    /// Gives the output `name` the layout `entries` and brings the index up to date.
    pub fn replace(&mut self, name: &String, entries: Vec<LayoutEntry>)
        requires
            old(self).wf(),
        ensures
            final(self).wf(),
            final(self).outputs@ == old(self).outputs@.insert(name@, entries),
            final(self).outputs.entries@ == old(self).outputs.entries_with(*name, entries),
    {
        let ghost before = *self;
        let ghost old_entries = if before.outputs@.contains_key(name@) {
            before.outputs@[name@]@
        } else {
            Seq::empty()
        };
        let gone: Vec<u64> = match self.outputs.get(name.as_str()) {
            Some(old_list) => missing_ids(old_list, &entries),
            None => Vec::new(),
        };
        proof {
            lemma_ids_missing(old_entries, entries@);
            assert(gone@ =~= ids_missing_in(old_entries, entries@));
        }
        let mut i: usize = 0;
        while i < gone.len()
            invariant
                i <= gone@.len(),
                self.surface_outputs.wf(),
                self.outputs == before.outputs,
                forall|id: u64, n: Seq<char>| #[trigger]
                    self.surface_outputs@.contains((id, n)) == (before.surface_outputs@.contains(
                        (id, n),
                    ) && !(n == name@ && exists|k: int| 0 <= k < i && gone@[k] == id)),
            decreases gone@.len() - i,
        {
            let ghost prev = self.surface_outputs@;
            self.surface_outputs.remove(gone[i], name.as_str());
            proof {
                assert forall|id: u64, n: Seq<char>| #[trigger]
                    self.surface_outputs@.contains((id, n)) == (before.surface_outputs@.contains(
                        (id, n),
                    ) && !(n == name@ && exists|k: int| 0 <= k < i + 1 && gone@[k] == id)) by {
                    assert(prev.contains((id, n)) == (before.surface_outputs@.contains((id, n))
                        && !(n == name@ && exists|k: int| 0 <= k < i && gone@[k] == id)));
                    if n == name@ && exists|k: int| 0 <= k < i + 1 && gone@[k] == id {
                        let k = choose|k: int| 0 <= k < i + 1 && gone@[k] == id;
                        if k < i {
                            assert(gone@[k] == id);
                        }
                    }
                    if id == gone@[i as int] && n == name@ {
                        assert(gone@[i as int] == id);
                    }
                }
            }
            i = i + 1;
        }
        let ghost mid = self.surface_outputs@;
        let mut j: usize = 0;
        while j < entries.len()
            invariant
                j <= entries@.len(),
                self.surface_outputs.wf(),
                self.outputs == before.outputs,
                forall|id: u64, n: Seq<char>| #[trigger]
                    self.surface_outputs@.contains((id, n)) == (mid.contains((id, n)) || (n == name@
                        && exists|k: int| 0 <= k < j && #[trigger] entries@[k].id == id)),
            decreases entries@.len() - j,
        {
            let ghost prev = self.surface_outputs@;
            self.surface_outputs.add(entries[j].id, name);
            proof {
                assert forall|id: u64, n: Seq<char>| #[trigger]
                    self.surface_outputs@.contains((id, n)) == (mid.contains((id, n)) || (n == name@
                        && exists|k: int| 0 <= k < j + 1 && #[trigger] entries@[k].id == id)) by {
                    assert(prev.contains((id, n)) == (mid.contains((id, n)) || (n == name@
                        && exists|k: int| 0 <= k < j && #[trigger] entries@[k].id == id)));
                    if exists|k: int| 0 <= k < j + 1 && #[trigger] entries@[k].id == id {
                        let k = choose|k: int| 0 <= k < j + 1 && #[trigger] entries@[k].id == id;
                        if k < j {
                            assert(entries@[k].id == id);
                        }
                    }
                    if id == entries@[j as int].id && n == name@ {
                        assert(entries@[j as int].id == id);
                    }
                }
            }
            j = j + 1;
        }
        self.outputs.insert(name, entries);
        proof {
            assert forall|id: u64, n: Seq<char>| #[trigger]
                self.surface_outputs.has(id, n) <==> self.shows(id, n) by {
                assert(self.surface_outputs@.contains((id, n)) == self.surface_outputs.has(id, n));
                assert(before.surface_outputs@.contains((id, n)) == before.surface_outputs.has(
                    id,
                    n,
                ));
                assert(before.surface_outputs.has(id, n) <==> before.shows(id, n));
                assert(gone@.contains(id) <==> lists(old_entries, id) && !lists(entries@, id));
                if n == name@ {
                    assert(self.outputs@[n] == entries);
                } else {
                    assert(self.outputs@.contains_key(n) == before.outputs@.contains_key(n));
                }
            }
        }
    }

    /// Forgets the layout of the output `name`.
    pub fn remove_output(&mut self, name: &str)
        requires
            old(self).wf(),
        ensures
            final(self).wf(),
            final(self).outputs@ == old(self).outputs@.remove(name@),
            final(self).surface_outputs@ == old(self).surface_outputs@.filter(
                |p: (u64, Seq<char>)| p.1 != name@,
            ),
    {
        let ghost before = *self;
        let removed = self.outputs.remove(name);
        match removed {
            Some(entries) => {
                let mut j: usize = 0;
                while j < entries.len()
                    invariant
                        j <= entries@.len(),
                        self.surface_outputs.wf(),
                        self.outputs.wf(),
                        self.outputs@ == before.outputs@.remove(name@),
                        forall|id: u64, n: Seq<char>| #[trigger]
                            self.surface_outputs@.contains((id, n)) == (
                            before.surface_outputs@.contains((id, n)) && !(n == name@
                                && exists|k: int| 0 <= k < j && #[trigger] entries@[k].id == id)),
                    decreases entries@.len() - j,
                {
                    let ghost prev = self.surface_outputs@;
                    self.surface_outputs.remove(entries[j].id, name);
                    proof {
                        assert forall|id: u64, n: Seq<char>| #[trigger]
                            self.surface_outputs@.contains((id, n)) == (
                            before.surface_outputs@.contains((id, n)) && !(n == name@
                                && exists|k: int|
                                0 <= k < j + 1 && #[trigger] entries@[k].id == id)) by {
                            assert(prev.contains((id, n)) == (before.surface_outputs@.contains(
                                (id, n),
                            ) && !(n == name@ && exists|k: int|
                                0 <= k < j && #[trigger] entries@[k].id == id)));
                            if exists|k: int| 0 <= k < j + 1 && #[trigger] entries@[k].id == id {
                                let k = choose|k: int|
                                    0 <= k < j + 1 && #[trigger] entries@[k].id == id;
                                if k < j {
                                    assert(entries@[k].id == id);
                                }
                            }
                            if id == entries@[j as int].id && n == name@ {
                                assert(entries@[j as int].id == id);
                            }
                        }
                    }
                    j = j + 1;
                }
            },
            None => {},
        }
        proof {
            assert forall|id: u64, n: Seq<char>| #[trigger]
                self.surface_outputs.has(id, n) <==> self.shows(id, n) by {
                assert(self.surface_outputs@.contains((id, n)) == self.surface_outputs.has(id, n));
                assert(before.surface_outputs@.contains((id, n)) == before.surface_outputs.has(
                    id,
                    n,
                ));
                assert(before.surface_outputs.has(id, n) <==> before.shows(id, n));
            }
            assert(self.surface_outputs@ =~= before.surface_outputs@.filter(
                |p: (u64, Seq<char>)| p.1 != name@,
            )) by {
                assert forall|p: (u64, Seq<char>)|
                    self.surface_outputs@.contains(p) == before.surface_outputs@.filter(
                        |p: (u64, Seq<char>)| p.1 != name@,
                    ).contains(p) by {
                    assert(self.surface_outputs@.contains((p.0, p.1)) == self.surface_outputs.has(
                        p.0,
                        p.1,
                    ));
                    assert(before.surface_outputs@.contains((p.0, p.1))
                        == before.surface_outputs.has(p.0, p.1));
                    assert(self.surface_outputs.has(p.0, p.1) <==> self.shows(p.0, p.1));
                    assert(before.surface_outputs.has(p.0, p.1) <==> before.shows(p.0, p.1));
                }
            }
        }
    }

    /// Remove a surface from all output layouts and the reverse index.
    pub fn remove_surface_from_layouts(&mut self, id: u64)
        requires
            old(self).wf(),
        ensures
            final(self).wf(),
            surface_dropped(*old(self), *final(self), id),
    {
        let ghost before = *self;
        self.surface_outputs.remove_surface(id);
        let mut o: usize = 0;
        while o < self.outputs.entries.len()
            invariant
                o <= self.outputs.entries@.len(),
                self.surface_outputs.wf(),
                self.surface_outputs@ == before.surface_outputs@.filter(
                    |p: (u64, Seq<char>)| p.0 != id,
                ),
                self.outputs.entries@.len() == before.outputs.entries@.len(),
                forall|p: int|
                    0 <= p < o ==> (#[trigger] self.outputs.entries@[p]).0
                        == before.outputs.entries@[p].0 && self.outputs.entries@[p].1@
                        == without_id(before.outputs.entries@[p].1@, id),
                forall|p: int|
                    o <= p < self.outputs.entries@.len() ==> #[trigger] self.outputs.entries@[p]
                        == before.outputs.entries@[p],
            decreases self.outputs.entries@.len() - o,
        {
            let kept = drop_id(&self.outputs.entries[o].1, id);
            let name = self.outputs.entries[o].0.clone();
            self.outputs.entries.set(o, (name, kept));
            o = o + 1;
        }
        proof {
            assert(self.outputs.wf());
            assert forall|q: u64, n: Seq<char>| #[trigger]
                self.surface_outputs.has(q, n) <==> self.shows(q, n) by {
                assert(self.surface_outputs@.contains((q, n)) == self.surface_outputs.has(q, n));
                assert(before.surface_outputs@.contains((q, n)) == before.surface_outputs.has(
                    q,
                    n,
                ));
                assert(before.surface_outputs.has(q, n) <==> before.shows(q, n));
                if before.outputs.has(n) {
                    let p = before.outputs.position(n);
                    before.outputs.lemma_entry(p);
                    assert(self.outputs.entries@[p].0@ == n);
                    self.outputs.lemma_entry(p);
                    lemma_without_id(before.outputs.entries@[p].1@, id);
                    assert(lists(without_id(before.outputs.entries@[p].1@, id), q) <==> q != id
                        && lists(before.outputs.entries@[p].1@, q));
                }
                if self.outputs.has(n) {
                    let p = self.outputs.position(n);
                    assert(before.outputs.entries@[p].0@ == n);
                    assert(before.outputs.has(n));
                }
            }
        }
    }
}


/// The area that an entry asks for on the output `name`: the whole output for a fullscreen entry
/// on a mapped output, else the entry's own extent.
pub open spec fn entry_area(
    e: LayoutEntry,
    name: Seq<char>,
    space: Map<Seq<char>, MappedOutput>,
) -> int {
    if e.fullscreen && space.contains_key(name) {
        space[name].size.w * space[name].size.h
    } else {
        e.w * e.h
    }
}

/// Logical extents are never negative.
pub open spec fn sizes_ok(space: Map<Seq<char>, MappedOutput>) -> bool {
    forall|n: Seq<char>| #[trigger]
        space.contains_key(n) ==> space[n].size.w >= 0 && space[n].size.h >= 0
}

/// The entry `j` of the output `o` exists.
pub open spec fn slot(outs: Seq<(String, Vec<LayoutEntry>)>, o: int, j: int) -> bool {
    0 <= o < outs.len() && 0 <= j < outs[o].1@.len()
}

/// The area of the entry `j` of the output `o`.
pub open spec fn slot_area(
    outs: Seq<(String, Vec<LayoutEntry>)>,
    space: Map<Seq<char>, MappedOutput>,
    o: int,
    j: int,
) -> int {
    entry_area(outs[o].1@[j], outs[o].0@, space)
}

/// No entry of the same surface, on any output, is larger.
pub open spec fn is_largest(
    outs: Seq<(String, Vec<LayoutEntry>)>,
    space: Map<Seq<char>, MappedOutput>,
    o: int,
    j: int,
) -> bool {
    forall|p: int, k: int| #[trigger]
        slot(outs, p, k) && outs[p].1@[k].id == outs[o].1@[j].id ==> slot_area(outs, space, p, k)
            <= slot_area(outs, space, o, j)
}

/// One entry stands before another: on an earlier output, or earlier on the same one.
pub open spec fn before(p: int, k: int, o: int, j: int) -> bool {
    p < o || (p == o && k < j)
}

/// The entry is the first among the largest entries of its surface.
pub open spec fn is_primary(
    outs: Seq<(String, Vec<LayoutEntry>)>,
    space: Map<Seq<char>, MappedOutput>,
    o: int,
    j: int,
) -> bool {
    &&& is_largest(outs, space, o, j)
    &&& forall|p: int, k: int| #[trigger]
        slot(outs, p, k) && before(p, k, o, j) && outs[p].1@[k].id == outs[o].1@[j].id
            ==> !is_largest(outs, space, p, k)
}

/// The same entries on the same outputs, with every `primary` flag as `is_primary` says.
pub open spec fn primaries_set(
    old_outs: Seq<(String, Vec<LayoutEntry>)>,
    new_outs: Seq<(String, Vec<LayoutEntry>)>,
    space: Map<Seq<char>, MappedOutput>,
) -> bool {
    &&& new_outs.len() == old_outs.len()
    &&& forall|o: int|
        0 <= o < old_outs.len() ==> (#[trigger] new_outs[o]).0 == old_outs[o].0
            && new_outs[o].1@.len() == old_outs[o].1@.len()
    &&& forall|o: int, j: int| #[trigger]
        slot(old_outs, o, j) ==> new_outs[o].1@[j] == (LayoutEntry {
            primary: is_primary(old_outs, space, o, j),
            ..old_outs[o].1@[j]
        })
}

fn area_of(e: &LayoutEntry, name: &str, space: &NameMap<MappedOutput>) -> (r: u64)
    requires
        space.wf(),
        sizes_ok(space@),
    ensures
        r == entry_area(*e, name@, space@),
{
    let ew: u64 = e.w as u64;
    let eh: u64 = e.h as u64;
    assert(ew * eh <= 0xffff_ffff * 0xffff_ffff) by (nonlinear_arith)
        requires
            ew <= 0xffff_ffff,
            eh <= 0xffff_ffff,
    ;
    if e.fullscreen {
        match space.get(name) {
            Some(m) => {
                let w: u64 = m.size.w as u64;
                let h: u64 = m.size.h as u64;
                assert(0 <= w * h <= 0x7fff_ffff * 0x7fff_ffff) by (nonlinear_arith)
                    requires
                        w <= 0x7fff_ffff,
                        h <= 0x7fff_ffff,
                ;
                assert(w == m.size.w && h == m.size.h);
                w * h
            },
            None => ew * eh,
        }
    } else {
        ew * eh
    }
}

/// The largest area over all entries of the surface `id`; zero if there is none.
pub open spec fn is_best_area(
    outs: Seq<(String, Vec<LayoutEntry>)>,
    space: Map<Seq<char>, MappedOutput>,
    id: u64,
    area: int,
) -> bool {
    &&& forall|p: int, k: int| #[trigger]
        slot(outs, p, k) && outs[p].1@[k].id == id ==> slot_area(outs, space, p, k) <= area
    &&& area == 0 || exists|p: int, k: int| #[trigger]
        slot(outs, p, k) && outs[p].1@[k].id == id && slot_area(outs, space, p, k) == area
}

fn best_area(outs: &Vec<(String, Vec<LayoutEntry>)>, space: &NameMap<MappedOutput>, id: u64) -> (r:
    u64)
    requires
        space.wf(),
        sizes_ok(space@),
    ensures
        is_best_area(outs@, space@, id, r as int),
{
    let mut best: u64 = 0;
    let mut o: usize = 0;
    while o < outs.len()
        invariant
            space.wf(),
            sizes_ok(space@),
            o <= outs@.len(),
            forall|p: int, k: int| #[trigger]
                slot(outs@, p, k) && p < o && outs@[p].1@[k].id == id ==> slot_area(
                    outs@,
                    space@,
                    p,
                    k,
                ) <= best,
            best == 0 || exists|p: int, k: int| #[trigger]
                slot(outs@, p, k) && outs@[p].1@[k].id == id && slot_area(outs@, space@, p, k)
                    == best,
        decreases outs@.len() - o,
    {
        let mut j: usize = 0;
        while j < outs[o].1.len()
            invariant
                space.wf(),
                sizes_ok(space@),
                o < outs@.len(),
                j <= outs@[o as int].1@.len(),
                forall|p: int, k: int| #[trigger]
                    slot(outs@, p, k) && before(p, k, o as int, j as int) && outs@[p].1@[k].id == id
                        ==> slot_area(outs@, space@, p, k) <= best,
                best == 0 || exists|p: int, k: int| #[trigger]
                    slot(outs@, p, k) && outs@[p].1@[k].id == id && slot_area(outs@, space@, p, k)
                        == best,
            decreases outs@[o as int].1@.len() - j,
        {
            let e: LayoutEntry = outs[o].1[j];
            if e.id == id {
                let a: u64 = area_of(&e, outs[o].0.as_str(), space);
                assert(a == slot_area(outs@, space@, o as int, j as int));
                assert(slot(outs@, o as int, j as int));
                if a > best {
                    best = a;
                }
            }
            j = j + 1;
        }
        o = o + 1;
    }
    best
}

proof fn lemma_largest_is_best(
    outs: Seq<(String, Vec<LayoutEntry>)>,
    space: Map<Seq<char>, MappedOutput>,
    o: int,
    j: int,
    best: int,
)
    requires
        sizes_ok(space),
        slot(outs, o, j),
        is_best_area(outs, space, outs[o].1@[j].id, best),
    ensures
        is_largest(outs, space, o, j) <==> slot_area(outs, space, o, j) == best,
{
    let a = slot_area(outs, space, o, j);
    let e = outs[o].1@[j];
    let m = space[outs[o].0@];
    assert(a >= 0) by {
        if e.fullscreen && space.contains_key(outs[o].0@) {
            assert(m.size.w * m.size.h >= 0) by (nonlinear_arith)
                requires
                    m.size.w >= 0,
                    m.size.h >= 0,
            ;
        } else {
            assert(e.w * e.h >= 0) by (nonlinear_arith);
        }
    }
    assert(a <= best);
    if is_largest(outs, space, o, j) && best != 0 {
        let (p, k) = choose|p: int, k: int| #[trigger]
            slot(outs, p, k) && outs[p].1@[k].id == e.id && slot_area(outs, space, p, k) == best;
        assert(slot_area(outs, space, p, k) <= a);
    }
    if a == best {
        assert forall|p: int, k: int| #[trigger]
            slot(outs, p, k) && outs[p].1@[k].id == e.id implies slot_area(outs, space, p, k)
            <= slot_area(outs, space, o, j) by {}
    }
}

/// A largest entry of the surface `id` stands before the place (`o`, `j`).
pub open spec fn largest_seen(
    outs: Seq<(String, Vec<LayoutEntry>)>,
    space: Map<Seq<char>, MappedOutput>,
    id: u64,
    o: int,
    j: int,
) -> bool {
    exists|p: int, k: int| #[trigger]
        slot(outs, p, k) && before(p, k, o, j) && outs[p].1@[k].id == id && is_largest(
            outs,
            space,
            p,
            k,
        )
}

fn contains_id(ids: &Vec<u64>, id: u64) -> (r: bool)
    ensures
        r == ids@.contains(id),
{
    let mut i: usize = 0;
    while i < ids.len()
        invariant
            i <= ids@.len(),
            forall|k: int| 0 <= k < i ==> ids@[k] != id,
        decreases ids@.len() - i,
    {
        if ids[i] == id {
            return true;
        }
        i = i + 1;
    }
    false
}

/// `ids` holds exactly the surfaces that have a largest entry before the place (`o`, `j`).
pub open spec fn ids_seen(
    ids: Seq<u64>,
    outs: Seq<(String, Vec<LayoutEntry>)>,
    space: Map<Seq<char>, MappedOutput>,
    o: int,
    j: int,
) -> bool {
    forall|id: u64| #[trigger] ids.contains(id) <==> largest_seen(outs, space, id, o, j)
}

/// Stepping over the entry (`o`, `j`) adds its surface to those seen if the entry is primary.
proof fn lemma_step(
    was: Seq<u64>,
    now: Seq<u64>,
    outs: Seq<(String, Vec<LayoutEntry>)>,
    space: Map<Seq<char>, MappedOutput>,
    o: int,
    j: int,
)
    requires
        slot(outs, o, j),
        ids_seen(was, outs, space, o, j),
        now == if is_largest(outs, space, o, j) && !was.contains(outs[o].1@[j].id) {
            was.push(outs[o].1@[j].id)
        } else {
            was
        },
    ensures
        ids_seen(now, outs, space, o, j + 1),
        is_primary(outs, space, o, j) <==> is_largest(outs, space, o, j) && !was.contains(
            outs[o].1@[j].id,
        ),
{
    let e = outs[o].1@[j];
    assert(was.contains(e.id) <==> largest_seen(outs, space, e.id, o, j));
    assert forall|id: u64| #[trigger] now.contains(id) <==> largest_seen(
        outs,
        space,
        id,
        o,
        j + 1,
    ) by {
        assert(was.contains(id) <==> largest_seen(outs, space, id, o, j));
        if largest_seen(outs, space, id, o, j) {
            let (p, k) = choose|p: int, k: int| #[trigger]
                slot(outs, p, k) && before(p, k, o, j) && outs[p].1@[k].id == id && is_largest(
                    outs,
                    space,
                    p,
                    k,
                );
            assert(slot(outs, p, k) && before(p, k, o, j + 1));
        }
        if largest_seen(outs, space, id, o, j + 1) {
            let (p, k) = choose|p: int, k: int| #[trigger]
                slot(outs, p, k) && before(p, k, o, j + 1) && outs[p].1@[k].id == id && is_largest(
                    outs,
                    space,
                    p,
                    k,
                );
            if !(p == o && k == j) {
                assert(before(p, k, o, j));
            }
        }
        if now != was {
            assert(now[now.len() - 1] == e.id);
            if was.contains(id) {
                let q = choose|q: int| 0 <= q < was.len() && was[q] == id;
                assert(now[q] == id);
            }
        }
    }
}

proof fn lemma_next_output(
    ids: Seq<u64>,
    outs: Seq<(String, Vec<LayoutEntry>)>,
    space: Map<Seq<char>, MappedOutput>,
    o: int,
)
    requires
        0 <= o < outs.len(),
        ids_seen(ids, outs, space, o, outs[o].1@.len() as int),
    ensures
        ids_seen(ids, outs, space, o + 1, 0),
{
    let j = outs[o].1@.len() as int;
    assert forall|id: u64| #[trigger] ids.contains(id) <==> largest_seen(
        outs,
        space,
        id,
        o + 1,
        0,
    ) by {
        assert(ids.contains(id) <==> largest_seen(outs, space, id, o, j));
        if largest_seen(outs, space, id, o, j) {
            let (p, k) = choose|p: int, k: int| #[trigger]
                slot(outs, p, k) && before(p, k, o, j) && outs[p].1@[k].id == id && is_largest(
                    outs,
                    space,
                    p,
                    k,
                );
            assert(slot(outs, p, k) && before(p, k, o + 1, 0));
        }
        if largest_seen(outs, space, id, o + 1, 0) {
            let (p, k) = choose|p: int, k: int| #[trigger]
                slot(outs, p, k) && before(p, k, o + 1, 0) && outs[p].1@[k].id == id && is_largest(
                    outs,
                    space,
                    p,
                    k,
                );
            assert(slot(outs, p, k) && before(p, k, o, j));
        }
    }
}

fn mark_output(
    outs: &Vec<(String, Vec<LayoutEntry>)>,
    space: &NameMap<MappedOutput>,
    o: usize,
    assigned: &mut Vec<u64>,
) -> (list: Vec<LayoutEntry>)
    requires
        space.wf(),
        sizes_ok(space@),
        o < outs@.len(),
        ids_seen(old(assigned)@, outs@, space@, o as int, 0),
    ensures
        list@.len() == outs@[o as int].1@.len(),
        forall|k: int|
            0 <= k < list@.len() ==> #[trigger] list@[k] == (LayoutEntry {
                primary: is_primary(outs@, space@, o as int, k),
                ..outs@[o as int].1@[k]
            }),
        ids_seen(final(assigned)@, outs@, space@, o + 1, 0),
{
    let mut list: Vec<LayoutEntry> = Vec::new();
    let mut j: usize = 0;
    while j < outs[o].1.len()
        invariant
            space.wf(),
            sizes_ok(space@),
            o < outs@.len(),
            j <= outs@[o as int].1@.len(),
            list@.len() == j,
            forall|k: int|
                0 <= k < j ==> #[trigger] list@[k] == (LayoutEntry {
                    primary: is_primary(outs@, space@, o as int, k),
                    ..outs@[o as int].1@[k]
                }),
            ids_seen(assigned@, outs@, space@, o as int, j as int),
        decreases outs@[o as int].1@.len() - j,
    {
        let e: LayoutEntry = outs[o].1[j];
        let best: u64 = best_area(outs, space, e.id);
        let area: u64 = area_of(&e, outs[o].0.as_str(), space);
        let ghost was = assigned@;
        assert(slot(outs@, o as int, j as int));
        proof {
            lemma_largest_is_best(outs@, space@, o as int, j as int, best as int);
        }
        let primary = area == best && !contains_id(assigned, e.id);
        if primary {
            assigned.push(e.id);
        }
        proof {
            lemma_step(was, assigned@, outs@, space@, o as int, j as int);
        }
        list.push(LayoutEntry { primary, ..e });
        j = j + 1;
    }
    proof {
        lemma_next_output(assigned@, outs@, space@, o as int);
    }
    list
}

/// Marks, for each surface, the first of its largest entries over all outputs as primary.
pub fn mark_primary(outs: &Vec<(String, Vec<LayoutEntry>)>, space: &NameMap<MappedOutput>) -> (r:
    Vec<(String, Vec<LayoutEntry>)>)
    requires
        space.wf(),
        sizes_ok(space@),
    ensures
        primaries_set(outs@, r@, space@),
{
    let mut assigned: Vec<u64> = Vec::new();
    let mut out: Vec<(String, Vec<LayoutEntry>)> = Vec::new();
    let mut o: usize = 0;
    while o < outs.len()
        invariant
            space.wf(),
            sizes_ok(space@),
            o <= outs@.len(),
            out@.len() == o,
            forall|p: int|
                0 <= p < o ==> (#[trigger] out@[p]).0 == outs@[p].0 && out@[p].1@.len()
                    == outs@[p].1@.len(),
            forall|p: int, k: int| #[trigger]
                slot(outs@, p, k) && p < o ==> out@[p].1@[k] == (LayoutEntry {
                    primary: is_primary(outs@, space@, p, k),
                    ..outs@[p].1@[k]
                }),
            ids_seen(assigned@, outs@, space@, o as int, 0),
        decreases outs@.len() - o,
    {
        let list = mark_output(outs, space, o, &mut assigned);
        out.push((outs[o].0.clone(), list));
        o = o + 1;
    }
    out
}

impl Layouts {
    /// Recomputes the primary flags: largest area per surface across all outputs.
    pub fn assign_primary(&mut self, space: &NameMap<MappedOutput>)
        requires
            old(self).wf(),
            space.wf(),
            sizes_ok(space@),
        ensures
            final(self).wf(),
            primaries_set(old(self).outputs.entries@, final(self).outputs.entries@, space@),
            final(self).surface_outputs == old(self).surface_outputs,
    {
        let ghost prev = *self;
        let marked = mark_primary(&self.outputs.entries, space);
        self.outputs.entries = marked;
        proof {
            lemma_primaries_keep_index(prev, *self, space@);
        }
    }
}

/// Setting the primary flags leaves what the layouts show as it is.
pub proof fn lemma_primaries_keep_index(
    prev: Layouts,
    next: Layouts,
    space: Map<Seq<char>, MappedOutput>,
)
    requires
        prev.wf(),
        next.surface_outputs == prev.surface_outputs,
        primaries_set(prev.outputs.entries@, next.outputs.entries@, space),
    ensures
        next.wf(),
        forall|n: Seq<char>| #[trigger] next.outputs.has(n) == prev.outputs.has(n),
{
    let a = prev.outputs.entries@;
    let b = next.outputs.entries@;
    assert(next.outputs.wf());
    assert forall|n: Seq<char>| #[trigger] next.outputs.has(n) == prev.outputs.has(n) by {
        if prev.outputs.has(n) {
            let p = prev.outputs.position(n);
            assert(b[p].0@ == n);
        }
        if next.outputs.has(n) {
            let p = next.outputs.position(n);
            assert(a[p].0@ == n);
        }
    }
    assert forall|q: u64, n: Seq<char>| #[trigger]
        next.surface_outputs.has(q, n) <==> next.shows(q, n) by {
        assert(prev.surface_outputs.has(q, n) <==> prev.shows(q, n));
        if prev.outputs.has(n) {
            let p = prev.outputs.position(n);
            prev.outputs.lemma_entry(p);
            assert(b[p].0@ == n);
            next.outputs.lemma_entry(p);
            if lists(a[p].1@, q) {
                let k = choose|k: int| 0 <= k < a[p].1@.len() && #[trigger] a[p].1@[k].id == q;
                assert(slot(a, p, k));
                assert(b[p].1@[k].id == q);
            }
            if lists(b[p].1@, q) {
                let k = choose|k: int| 0 <= k < b[p].1@.len() && #[trigger] b[p].1@[k].id == q;
                assert(slot(a, p, k));
                assert(a[p].1@[k].id == q);
            }
        }
        assert(next.outputs.has(n) == prev.outputs.has(n));
    }
}

/// Every surface that some layout shows has exactly one primary entry, and no entry of that
/// surface asks for a larger area.
pub proof fn law_one_primary_per_surface(
    outs: Seq<(String, Vec<LayoutEntry>)>,
    space: Map<Seq<char>, MappedOutput>,
    o: int,
    j: int,
)
    requires
        slot(outs, o, j),
    ensures
        exists|p: int, k: int| #[trigger]
            slot(outs, p, k) && outs[p].1@[k].id == outs[o].1@[j].id && is_primary(
                outs,
                space,
                p,
                k,
            ),
        forall|p: int, k: int, p2: int, k2: int|
            slot(outs, p, k) && slot(outs, p2, k2) && outs[p].1@[k].id == outs[p2].1@[k2].id
                && #[trigger] is_primary(outs, space, p, k) && #[trigger] is_primary(
                outs,
                space,
                p2,
                k2,
            ) ==> p == p2 && k == k2,
        forall|p: int, k: int, p2: int, k2: int|
            slot(outs, p, k) && #[trigger] is_primary(outs, space, p, k) && #[trigger] slot(
                outs,
                p2,
                k2,
            ) && outs[p].1@[k].id == outs[p2].1@[k2].id ==> slot_area(outs, space, p2, k2)
                <= slot_area(outs, space, p, k),
{
    assert forall|p: int, k: int, p2: int, k2: int|
        slot(outs, p, k) && slot(outs, p2, k2) && outs[p].1@[k].id == outs[p2].1@[k2].id
            && #[trigger] is_primary(outs, space, p, k) && #[trigger] is_primary(
            outs,
            space,
            p2,
            k2,
        ) implies p == p2 && k == k2 by {
        if before(p, k, p2, k2) {
            assert(slot(outs, p, k));
        } else if before(p2, k2, p, k) {
            assert(slot(outs, p2, k2));
        }
    }
    lemma_some_largest(outs, space, outs[o].1@[j].id, o, j);
    let (p, k) = choose|p: int, k: int| #[trigger]
        slot(outs, p, k) && outs[p].1@[k].id == outs[o].1@[j].id && is_largest(outs, space, p, k);
    lemma_first_largest(outs, space, p, k);
}

/// Some entry of the surface is a largest one: climb from (`o`, `j`) until no entry is larger.
proof fn lemma_some_largest(
    outs: Seq<(String, Vec<LayoutEntry>)>,
    space: Map<Seq<char>, MappedOutput>,
    id: u64,
    o: int,
    j: int,
)
    requires
        slot(outs, o, j),
        outs[o].1@[j].id == id,
    ensures
        exists|p: int, k: int| #[trigger]
            slot(outs, p, k) && outs[p].1@[k].id == id && is_largest(outs, space, p, k),
    decreases area_bound(outs, space) - slot_area(outs, space, o, j),
{
    if !is_largest(outs, space, o, j) {
        let (p, k) = choose|p: int, k: int| #[trigger]
            slot(outs, p, k) && outs[p].1@[k].id == id && slot_area(outs, space, p, k) > slot_area(
                outs,
                space,
                o,
                j,
            );
        lemma_area_bound(outs, space, p, k);
        lemma_some_largest(outs, space, id, p, k);
    }
}

/// A bound on every entry's area.
spec fn area_bound(
    outs: Seq<(String, Vec<LayoutEntry>)>,
    space: Map<Seq<char>, MappedOutput>,
) -> int {
    0xffff_ffffint * 0xffff_ffffint
}

proof fn lemma_area_bound(
    outs: Seq<(String, Vec<LayoutEntry>)>,
    space: Map<Seq<char>, MappedOutput>,
    o: int,
    j: int,
)
    requires
        slot(outs, o, j),
    ensures
        slot_area(outs, space, o, j) <= area_bound(outs, space),
{
    let e = outs[o].1@[j];
    let m = space[outs[o].0@];
    assert(e.w * e.h <= 0xffff_ffff * 0xffff_ffff) by (nonlinear_arith);
    assert(m.size.w * m.size.h <= 0xffff_ffff * 0xffff_ffff) by (nonlinear_arith);
}

/// Among the largest entries of a surface there is a first one.
proof fn lemma_first_largest(
    outs: Seq<(String, Vec<LayoutEntry>)>,
    space: Map<Seq<char>, MappedOutput>,
    o: int,
    j: int,
)
    requires
        slot(outs, o, j),
        is_largest(outs, space, o, j),
    ensures
        exists|p: int, k: int| #[trigger]
            slot(outs, p, k) && outs[p].1@[k].id == outs[o].1@[j].id && is_primary(
                outs,
                space,
                p,
                k,
            ),
    decreases o, j,
{
    if !is_primary(outs, space, o, j) {
        let (p, k) = choose|p: int, k: int| #[trigger]
            slot(outs, p, k) && before(p, k, o, j) && outs[p].1@[k].id == outs[o].1@[j].id
                && is_largest(outs, space, p, k);
        lemma_first_largest(outs, space, p, k);
    }
}


/// A property by which an entry of a surface is looked up.
#[derive(Clone, Copy, Debug, PartialEq, Eq, Structural)]
pub enum EntryKind {
    /// The entry is the selected view.
    Focused,
    /// The entry is the largest view.
    Primary,
}

/// The entry belongs to the surface and has the property.
pub open spec fn entry_is(e: LayoutEntry, id: u64, kind: EntryKind) -> bool {
    e.id == id && match kind {
        EntryKind::Focused => e.focused,
        EntryKind::Primary => e.primary,
    }
}

/// The entry `j` of the output `o` is the first one, over all outputs, that belongs to the
/// surface and has the property.
pub open spec fn is_first_entry(
    outs: Seq<(String, Vec<LayoutEntry>)>,
    id: u64,
    kind: EntryKind,
    o: int,
    j: int,
) -> bool {
    &&& slot(outs, o, j)
    &&& entry_is(outs[o].1@[j], id, kind)
    &&& forall|p: int, k: int| #[trigger]
        slot(outs, p, k) && before(p, k, o, j) ==> !entry_is(outs[p].1@[k], id, kind)
}

/// No entry belongs to the surface and has the property.
pub open spec fn no_entry(
    outs: Seq<(String, Vec<LayoutEntry>)>,
    id: u64,
    kind: EntryKind,
) -> bool {
    forall|p: int, k: int| #[trigger] slot(outs, p, k) ==> !entry_is(outs[p].1@[k], id, kind)
}

/// What an entry lookup answers.
pub open spec fn entry_found(
    outs: Seq<(String, Vec<LayoutEntry>)>,
    id: u64,
    kind: EntryKind,
    r: Option<(String, LayoutEntry)>,
) -> bool {
    match r {
        Some((name, e)) => exists|o: int, j: int| #[trigger]
            is_first_entry(outs, id, kind, o, j) && name == outs[o].0 && e == outs[o].1@[j],
        None => no_entry(outs, id, kind),
    }
}

impl Layouts {
    fn first_entry(&self, id: u64, kind: EntryKind) -> (r: Option<(String, LayoutEntry)>)
        ensures
            entry_found(self.outputs.entries@, id, kind, r),
    {
        let outs = &self.outputs.entries;
        let mut o: usize = 0;
        while o < outs.len()
            invariant
                outs == &self.outputs.entries,
                o <= outs@.len(),
                forall|p: int, k: int| #[trigger]
                    slot(outs@, p, k) && p < o ==> !entry_is(outs@[p].1@[k], id, kind),
            decreases outs@.len() - o,
        {
            let mut j: usize = 0;
            while j < outs[o].1.len()
                invariant
                    outs == &self.outputs.entries,
                    o < outs@.len(),
                    j <= outs@[o as int].1@.len(),
                    forall|p: int, k: int| #[trigger]
                        slot(outs@, p, k) && before(p, k, o as int, j as int) ==> !entry_is(
                            outs@[p].1@[k],
                            id,
                            kind,
                        ),
                decreases outs@[o as int].1@.len() - j,
            {
                let e: LayoutEntry = outs[o].1[j];
                let has = match kind {
                    EntryKind::Focused => e.focused,
                    EntryKind::Primary => e.primary,
                };
                if e.id == id && has {
                    assert(is_first_entry(outs@, id, kind, o as int, j as int));
                    return Some((outs[o].0.clone(), e));
                }
                j = j + 1;
            }
            o = o + 1;
        }
        None
    }

    /// Find the focused output layout entry for a surface.
    ///
    /// Used for output association (focus routing, popups).
    pub fn focused_output_for_surface(&self, id: u64) -> (r: Option<(String, LayoutEntry)>)
        ensures
            entry_found(self.outputs.entries@, id, EntryKind::Focused, r),
    {
        self.first_entry(id, EntryKind::Focused)
    }

    /// Find the primary output layout entry for a surface.
    ///
    /// Used as fallback when no focused entry exists (e.g. popup positioning).
    pub fn primary_output_for_surface(&self, id: u64) -> (r: Option<(String, LayoutEntry)>)
        ensures
            entry_found(self.outputs.entries@, id, EntryKind::Primary, r),
    {
        self.first_entry(id, EntryKind::Primary)
    }

    /// The surface is fullscreen on some output.
    pub open spec fn fullscreen_somewhere(&self, id: u64) -> bool {
        exists|o: int, j: int| #[trigger]
            slot(self.outputs.entries@, o, j) && self.outputs.entries@[o].1@[j].id == id
                && self.outputs.entries@[o].1@[j].fullscreen
    }

    /// Check if a surface has fullscreen set in any output layout.
    pub fn is_surface_fullscreen(&self, id: u64) -> (r: bool)
        ensures
            r == self.fullscreen_somewhere(id),
    {
        let outs = &self.outputs.entries;
        let mut o: usize = 0;
        while o < outs.len()
            invariant
                outs == &self.outputs.entries,
                o <= outs@.len(),
                forall|p: int, k: int| #[trigger]
                    slot(outs@, p, k) && p < o ==> !(outs@[p].1@[k].id == id
                        && outs@[p].1@[k].fullscreen),
            decreases outs@.len() - o,
        {
            let mut j: usize = 0;
            while j < outs[o].1.len()
                invariant
                    outs == &self.outputs.entries,
                    o < outs@.len(),
                    j <= outs@[o as int].1@.len(),
                    forall|p: int, k: int| #[trigger]
                        slot(outs@, p, k) && before(p, k, o as int, j as int) ==> !(
                        outs@[p].1@[k].id == id && outs@[p].1@[k].fullscreen),
                decreases outs@[o as int].1@.len() - j,
            {
                let e: LayoutEntry = outs[o].1[j];
                if e.id == id && e.fullscreen {
                    assert(slot(outs@, o as int, j as int));
                    return true;
                }
                j = j + 1;
            }
            o = o + 1;
        }
        false
    }

    /// Some entry of the output is fullscreen.
    pub open spec fn has_fullscreen(&self, name: Seq<char>) -> bool {
        self.outputs@.contains_key(name) && exists|j: int|
            0 <= j < self.outputs@[name]@.len() && (#[trigger] self.outputs@[name]@[j]).fullscreen
    }

    /// Whether layout surfaces render (and receive input) above the Top layer on this output.
    ///
    /// True when a fullscreen surface is active.
    pub fn render_above_top_layer(&self, name: &str) -> (r: bool)
        requires
            self.outputs.wf(),
        ensures
            r == self.has_fullscreen(name@),
    {
        match self.outputs.get(name) {
            Some(entries) => {
                let mut j: usize = 0;
                while j < entries.len()
                    invariant
                        j <= entries@.len(),
                        self.outputs@.contains_key(name@),
                        *entries == self.outputs@[name@],
                        forall|k: int| 0 <= k < j ==> !(#[trigger] entries@[k]).fullscreen,
                    decreases entries@.len() - j,
                {
                    if entries[j].fullscreen {
                        return true;
                    }
                    j = j + 1;
                }
                false
            },
            None => false,
        }
    }

    /// The first entry, over all outputs, that is selected and fullscreen.
    pub open spec fn is_fullscreen_focus(&self, o: int, j: int) -> bool {
        let outs = self.outputs.entries@;
        &&& slot(outs, o, j)
        &&& outs[o].1@[j].focused && outs[o].1@[j].fullscreen
        &&& forall|p: int, k: int| #[trigger]
            slot(outs, p, k) && before(p, k, o, j) ==> !(outs[p].1@[k].focused
                && outs[p].1@[k].fullscreen)
    }

    /// The surface that is selected and fullscreen, if there is one.
    pub fn fullscreen_focus(&self) -> (r: Option<u64>)
        ensures
            match r {
                Some(id) => exists|o: int, j: int| #[trigger]
                    self.is_fullscreen_focus(o, j) && id == self.outputs.entries@[o].1@[j].id,
                None => forall|o: int, j: int| #[trigger]
                    slot(self.outputs.entries@, o, j) ==> !(
                    self.outputs.entries@[o].1@[j].focused
                        && self.outputs.entries@[o].1@[j].fullscreen),
            },
    {
        let outs = &self.outputs.entries;
        let mut o: usize = 0;
        while o < outs.len()
            invariant
                outs == &self.outputs.entries,
                o <= outs@.len(),
                forall|p: int, k: int| #[trigger]
                    slot(outs@, p, k) && p < o ==> !(outs@[p].1@[k].focused
                        && outs@[p].1@[k].fullscreen),
            decreases outs@.len() - o,
        {
            let mut j: usize = 0;
            while j < outs[o].1.len()
                invariant
                    outs == &self.outputs.entries,
                    o < outs@.len(),
                    j <= outs@[o as int].1@.len(),
                    forall|p: int, k: int| #[trigger]
                        slot(outs@, p, k) && before(p, k, o as int, j as int) ==> !(
                        outs@[p].1@[k].focused && outs@[p].1@[k].fullscreen),
                decreases outs@[o as int].1@.len() - j,
            {
                let e: LayoutEntry = outs[o].1[j];
                if e.focused && e.fullscreen {
                    assert(self.is_fullscreen_focus(o as int, j as int));
                    return Some(e.id);
                }
                j = j + 1;
            }
            o = o + 1;
        }
        None
    }
}

/// The place of an entry on an output: the output's own origin for a fullscreen entry, else the
/// entry's place in the free area.
pub open spec fn entry_origin(e: LayoutEntry, out: MappedOutput) -> (int, int) {
    if e.fullscreen {
        (out.geo.loc.x as int, out.geo.loc.y as int)
    } else {
        (out.geo.loc.x + out.zone.loc.x + e.x, out.geo.loc.y + out.zone.loc.y + e.y)
    }
}

/// The entry covers the point. A fullscreen entry covers its whole output.
pub open spec fn entry_covers(e: LayoutEntry, out: MappedOutput, p: Point) -> bool {
    let (x, y) = entry_origin(e, out);
    e.fullscreen || (x <= p.x < x + e.w && y <= p.y < y + e.h)
}

/// Find the topmost layout entry of an output that covers the point, with its global origin.
/// Entries stand topmost first. `p` is a position with its fractions cut off downward, so that
/// comparing it with whole pixel edges is exact.
pub fn layout_entry_under(entries: &Vec<LayoutEntry>, out: &MappedOutput, p: Point) -> (r: Option<
    (LayoutEntry, i64, i64),
>)
    ensures
        match r {
            Some((e, x, y)) => exists|j: int|
                0 <= j < entries@.len() && #[trigger] entries@[j] == e && entry_covers(e, *out, p)
                    && (x as int, y as int) == entry_origin(e, *out) && forall|k: int|
                    0 <= k < j ==> !entry_covers(#[trigger] entries@[k], *out, p),
            None => forall|k: int|
                0 <= k < entries@.len() ==> !entry_covers(#[trigger] entries@[k], *out, p),
        },
        match r {
            Some((e, x, y)) => {
                &&& e.fullscreen ==> x == out.geo.loc.x && y == out.geo.loc.y
                &&& !e.fullscreen ==> x == out.geo.loc.x + out.zone.loc.x + e.x && y
                    == out.geo.loc.y + out.zone.loc.y + e.y
                &&& !e.fullscreen ==> x <= p.x < x + e.w && y <= p.y < y + e.h
            },
            None => forall|k: int|
                0 <= k < entries@.len() ==> {
                    let e = #[trigger] entries@[k];
                    let x = out.geo.loc.x + out.zone.loc.x + e.x;
                    let y = out.geo.loc.y + out.zone.loc.y + e.y;
                    !e.fullscreen && !(x <= p.x < x + e.w && y <= p.y < y + e.h)
                },
        },
{
    let gx: i64 = out.geo.loc.x as i64;
    let gy: i64 = out.geo.loc.y as i64;
    let px: i64 = p.x as i64;
    let py: i64 = p.y as i64;
    let mut j: usize = 0;
    while j < entries.len()
        invariant
            j <= entries@.len(),
            gx == out.geo.loc.x,
            gy == out.geo.loc.y,
            px == p.x,
            py == p.y,
            forall|k: int| 0 <= k < j ==> !entry_covers(#[trigger] entries@[k], *out, p),
        decreases entries@.len() - j,
    {
        let e: LayoutEntry = entries[j];
        if e.fullscreen {
            assert(entries@[j as int] == e);
            return Some((e, gx, gy));
        }
        let x: i64 = gx + out.zone.loc.x as i64 + e.x as i64;
        let y: i64 = gy + out.zone.loc.y as i64 + e.y as i64;
        if px >= x && py >= y && px < x + e.w as i64 && py < y + e.h as i64 {
            assert(entries@[j as int] == e);
            return Some((e, x, y));
        }
        j = j + 1;
    }
    None
}

/// A point outside every entry of an output without fullscreen entries hits nothing, and a
/// fullscreen entry in front is hit wherever the point is.
pub proof fn law_fullscreen_entry_hides_what_is_below(
    e: LayoutEntry,
    out: MappedOutput,
    p: Point,
)
    requires
        e.fullscreen,
    ensures
        entry_covers(e, out, p),
        entry_origin(e, out) == (out.geo.loc.x as int, out.geo.loc.y as int),
{
}

/// The place of a window in the global space: centered on the output if it is the primary
/// fullscreen view, at the output's origin for another fullscreen view, else at its entry.
pub open spec fn window_position(e: LayoutEntry, out: MappedOutput, window: Size) -> (int, int) {
    if e.fullscreen && e.primary {
        (
            out.geo.loc.x + crate::geometry::center_offset(
                window.w as int,
                out.geo.size.w as int,
            ),
            out.geo.loc.y + crate::geometry::center_offset(
                window.h as int,
                out.geo.size.h as int,
            ),
        )
    } else {
        entry_origin(e, out)
    }
}

/// The place of a window in the global space.
pub fn place_window(e: &LayoutEntry, out: &MappedOutput, window: Size) -> (r: (i64, i64))
    requires
        window.w >= 0,
        window.h >= 0,
    ensures
        (r.0 as int, r.1 as int) == window_position(*e, *out, window),
        !e.fullscreen ==> r.0 == out.geo.loc.x + out.zone.loc.x + e.x && r.1 == out.geo.loc.y
            + out.zone.loc.y + e.y,
        e.fullscreen && !e.primary ==> r.0 == out.geo.loc.x && r.1 == out.geo.loc.y,
        e.fullscreen && e.primary ==> {
            let left = r.0 - out.geo.loc.x;
            let top = r.1 - out.geo.loc.y;
            &&& window.w >= out.geo.size.w ==> left == 0
            &&& window.w < out.geo.size.w ==> 2 * left <= out.geo.size.w - window.w <= 2 * left + 1
            &&& window.h >= out.geo.size.h ==> top == 0
            &&& window.h < out.geo.size.h ==> 2 * top <= out.geo.size.h - window.h <= 2 * top + 1
        },
{
    let gx: i64 = out.geo.loc.x as i64;
    let gy: i64 = out.geo.loc.y as i64;
    if e.fullscreen {
        if e.primary {
            let (ox, oy) = crate::geometry::fullscreen_center_offset(window, out.geo.size);
            return (gx + ox as i64, gy + oy as i64);
        }
        return (gx, gy);
    }
    (gx + out.zone.loc.x as i64 + e.x as i64, gy + out.zone.loc.y as i64 + e.y as i64)
}

/// For every surface, the output of its primary entry.
pub open spec fn cast_outputs_of(
    outs: Seq<(String, Vec<LayoutEntry>)>,
    m: Map<u64, String>,
) -> bool {
    &&& forall|id: u64| #[trigger]
        m.contains_key(id) <==> exists|o: int, j: int| #[trigger]
            slot(outs, o, j) && outs[o].1@[j].id == id && outs[o].1@[j].primary
    &&& forall|id: u64| #[trigger]
        m.contains_key(id) ==> exists|o: int, j: int| #[trigger]
            slot(outs, o, j) && outs[o].1@[j].id == id && outs[o].1@[j].primary && m[id]
                == outs[o].0
}

/// Some primary entry of the surface stands before the place (`o`, `j`).
spec fn primary_seen(outs: Seq<(String, Vec<LayoutEntry>)>, id: u64, o: int, j: int) -> bool {
    exists|p: int, k: int| #[trigger]
        slot(outs, p, k) && before(p, k, o, j) && outs[p].1@[k].id == id && outs[p].1@[k].primary
}

spec fn cast_prefix(
    outs: Seq<(String, Vec<LayoutEntry>)>,
    m: Map<u64, String>,
    o: int,
    j: int,
) -> bool {
    &&& forall|id: u64| #[trigger] m.contains_key(id) <==> primary_seen(outs, id, o, j)
    &&& forall|id: u64| #[trigger]
        m.contains_key(id) ==> exists|p: int, k: int| #[trigger]
            slot(outs, p, k) && before(p, k, o, j) && outs[p].1@[k].id == id
                && outs[p].1@[k].primary && m[id] == outs[p].0
}

proof fn lemma_cast_step(
    outs: Seq<(String, Vec<LayoutEntry>)>,
    m: Map<u64, String>,
    o: int,
    j: int,
)
    requires
        slot(outs, o, j),
        cast_prefix(outs, m, o, j),
    ensures
        cast_prefix(
            outs,
            if outs[o].1@[j].primary {
                m.insert(outs[o].1@[j].id, outs[o].0)
            } else {
                m
            },
            o,
            j + 1,
        ),
{
    let e = outs[o].1@[j];
    let n = if e.primary {
        m.insert(e.id, outs[o].0)
    } else {
        m
    };
    assert forall|id: u64| #[trigger] n.contains_key(id) <==> primary_seen(outs, id, o, j + 1) by {
        assert(m.contains_key(id) <==> primary_seen(outs, id, o, j));
        if primary_seen(outs, id, o, j) {
            let (p, k) = choose|p: int, k: int| #[trigger]
                slot(outs, p, k) && before(p, k, o, j) && outs[p].1@[k].id == id
                    && outs[p].1@[k].primary;
            assert(slot(outs, p, k) && before(p, k, o, j + 1));
        }
        if primary_seen(outs, id, o, j + 1) {
            let (p, k) = choose|p: int, k: int| #[trigger]
                slot(outs, p, k) && before(p, k, o, j + 1) && outs[p].1@[k].id == id
                    && outs[p].1@[k].primary;
            if !(p == o && k == j) {
                assert(slot(outs, p, k) && before(p, k, o, j));
            }
        }
    }
    assert forall|id: u64| #[trigger] n.contains_key(id) implies exists|p: int, k: int| #[trigger]
        slot(outs, p, k) && before(p, k, o, j + 1) && outs[p].1@[k].id == id
            && outs[p].1@[k].primary && n[id] == outs[p].0 by {
        if e.primary && id == e.id {
            assert(slot(outs, o, j) && before(o, j, o, j + 1));
        } else {
            assert(m.contains_key(id));
            let (p, k) = choose|p: int, k: int| #[trigger]
                slot(outs, p, k) && before(p, k, o, j) && outs[p].1@[k].id == id
                    && outs[p].1@[k].primary && m[id] == outs[p].0;
            assert(slot(outs, p, k) && before(p, k, o, j + 1));
        }
    }
}

proof fn lemma_cast_next(outs: Seq<(String, Vec<LayoutEntry>)>, m: Map<u64, String>, o: int)
    requires
        0 <= o < outs.len(),
        cast_prefix(outs, m, o, outs[o].1@.len() as int),
    ensures
        cast_prefix(outs, m, o + 1, 0),
{
    let j = outs[o].1@.len() as int;
    assert forall|id: u64| #[trigger] m.contains_key(id) <==> primary_seen(outs, id, o + 1, 0) by {
        assert(m.contains_key(id) <==> primary_seen(outs, id, o, j));
        if primary_seen(outs, id, o, j) {
            let (p, k) = choose|p: int, k: int| #[trigger]
                slot(outs, p, k) && before(p, k, o, j) && outs[p].1@[k].id == id
                    && outs[p].1@[k].primary;
            assert(slot(outs, p, k) && before(p, k, o + 1, 0));
        }
        if primary_seen(outs, id, o + 1, 0) {
            let (p, k) = choose|p: int, k: int| #[trigger]
                slot(outs, p, k) && before(p, k, o + 1, 0) && outs[p].1@[k].id == id
                    && outs[p].1@[k].primary;
            assert(slot(outs, p, k) && before(p, k, o, j));
        }
    }
    assert forall|id: u64| #[trigger] m.contains_key(id) implies exists|p: int, k: int| #[trigger]
        slot(outs, p, k) && before(p, k, o + 1, 0) && outs[p].1@[k].id == id
            && outs[p].1@[k].primary && m[id] == outs[p].0 by {
        let (p, k) = choose|p: int, k: int| #[trigger]
            slot(outs, p, k) && before(p, k, o, j) && outs[p].1@[k].id == id
                && outs[p].1@[k].primary && m[id] == outs[p].0;
        assert(slot(outs, p, k) && before(p, k, o + 1, 0));
    }
}

impl Layouts {
    /// Collects, for every surface, the output of its primary entry.
    pub fn cast_outputs(&self) -> (r: IdMap<String>)
        ensures
            r.wf(),
            cast_outputs_of(self.outputs.entries@, r@),
    {
        let outs = &self.outputs.entries;
        let mut map: IdMap<String> = IdMap::new();
        let mut o: usize = 0;
        assert(cast_prefix(outs@, map@, 0, 0));
        while o < outs.len()
            invariant
                outs == &self.outputs.entries,
                o <= outs@.len(),
                map.wf(),
                cast_prefix(outs@, map@, o as int, 0),
            decreases outs@.len() - o,
        {
            let mut j: usize = 0;
            while j < outs[o].1.len()
                invariant
                    outs == &self.outputs.entries,
                    o < outs@.len(),
                    j <= outs@[o as int].1@.len(),
                    map.wf(),
                    cast_prefix(outs@, map@, o as int, j as int),
                decreases outs@[o as int].1@.len() - j,
            {
                let e: LayoutEntry = outs[o].1[j];
                proof {
                    assert(slot(outs@, o as int, j as int));
                    lemma_cast_step(outs@, map@, o as int, j as int);
                }
                if e.primary {
                    map.insert(e.id, outs[o].0.clone());
                }
                j = j + 1;
            }
            proof {
                lemma_cast_next(outs@, map@, o as int);
            }
            o = o + 1;
        }
        proof {
            lemma_cast_done(outs@, map@);
        }
        map
    }
}

proof fn lemma_cast_done(outs: Seq<(String, Vec<LayoutEntry>)>, m: Map<u64, String>)
    requires
        cast_prefix(outs, m, outs.len() as int, 0),
    ensures
        cast_outputs_of(outs, m),
{
    let n = outs.len() as int;
    assert forall|id: u64| #[trigger] m.contains_key(id) <==> exists|o: int, j: int| #[trigger]
        slot(outs, o, j) && outs[o].1@[j].id == id && outs[o].1@[j].primary by {
        assert(m.contains_key(id) <==> primary_seen(outs, id, n, 0));
        if exists|o: int, j: int| #[trigger]
            slot(outs, o, j) && outs[o].1@[j].id == id && outs[o].1@[j].primary {
            let (o, j) = choose|o: int, j: int| #[trigger]
                slot(outs, o, j) && outs[o].1@[j].id == id && outs[o].1@[j].primary;
            assert(slot(outs, o, j) && before(o, j, n, 0));
        }
    }
}

} // verus!
