//! What applying a layout does to layouts, windows and their clients.
use crate::effect::Effect;
use crate::ewm::layouts::{
    configure_all, configure_effects, enter_effects, layout_applied, layout_of, leave_effects,
};
use crate::ewm::{Ewm, WindowState};
use crate::layout::{
    before as stands_before, is_largest, is_primary, law_one_primary_per_surface, lemma_ids_missing,
    lists, slot, LayoutEntry, MappedOutput,
};
use vstd::prelude::*;

verus! {

/// A layout is stored as it was declared, entry for entry and in order. Only the choice of the
/// primary views is the compositor's.
pub proof fn law_layout_is_stored_as_declared(
    before: Ewm,
    after: Ewm,
    name: String,
    entries: Vec<LayoutEntry>,
)
    requires
        before.wf(),
        after.wf(),
        layout_applied(before, after, name, entries),
    ensures
        after.layouts.outputs@.contains_key(name@),
        after.layouts.outputs@[name@]@.len() == entries@.len(),
        forall|j: int|
            0 <= j < entries@.len() ==> {
                let e = #[trigger] entries@[j];
                let l = after.layouts.outputs@[name@]@[j];
                l.id == e.id && l.x == e.x && l.y == e.y && l.w == e.w && l.h == e.h && l.focused
                    == e.focused && l.fullscreen == e.fullscreen
            },
{
    lemma_stored(before, after, name, entries);
    let given = before.layouts.outputs.entries_with(name, entries);
    let b = before.layouts.outputs;
    let a = after.layouts.outputs;
    let here = if b.has(name@) {
        b.position(name@)
    } else {
        b.entries@.len() as int
    };
    assert forall|j: int| 0 <= j < entries@.len() implies {
        let e = #[trigger] entries@[j];
        let l = a@[name@]@[j];
        l.id == e.id && l.x == e.x && l.y == e.y && l.w == e.w && l.h == e.h && l.focused
            == e.focused && l.fullscreen == e.fullscreen
    } by {
        assert(slot(given, here, j));
    }
}

/// A layout that is applied to one output leaves those of the others as they were declared.
pub proof fn law_other_layouts_are_kept(
    before: Ewm,
    after: Ewm,
    name: String,
    entries: Vec<LayoutEntry>,
    n: Seq<char>,
)
    requires
        before.wf(),
        after.wf(),
        layout_applied(before, after, name, entries),
        n != name@,
    ensures
        after.layouts.outputs@.contains_key(n) == before.layouts.outputs@.contains_key(n),
        before.layouts.outputs@.contains_key(n) ==> {
            &&& after.layouts.outputs@[n]@.len() == before.layouts.outputs@[n]@.len()
            &&& forall|j: int|
                0 <= j < before.layouts.outputs@[n]@.len() ==> {
                    let e = #[trigger] before.layouts.outputs@[n]@[j];
                    let l = after.layouts.outputs@[n]@[j];
                    l.id == e.id && l.x == e.x && l.y == e.y && l.w == e.w && l.h == e.h
                        && l.focused == e.focused && l.fullscreen == e.fullscreen
                }
        },
{
    let given = before.layouts.outputs.entries_with(name, entries);
    let b = before.layouts.outputs;
    let a = after.layouts.outputs;
    if b.has(n) {
        let p = b.position(n);
        b.lemma_entry(p);
        assert(given[p] == b.entries@[p]);
        assert(a.entries@[p].0@ == n);
        a.lemma_entry(p);
        assert forall|j: int| 0 <= j < b@[n]@.len() implies {
            let e = #[trigger] before.layouts.outputs@[n]@[j];
            let l = after.layouts.outputs@[n]@[j];
            l.id == e.id && l.x == e.x && l.y == e.y && l.w == e.w && l.h == e.h && l.focused
                == e.focused && l.fullscreen == e.fullscreen
        } by {
            assert(slot(given, p, j));
        }
    }
    if a.has(n) {
        let p = a.position(n);
        assert(given[p].0@ == n);
        assert(b.entries@[p].0@ == n);
        assert(b.has(n));
    }
}

/// Where the new list stands among the outputs.
proof fn lemma_stored(before: Ewm, after: Ewm, name: String, entries: Vec<LayoutEntry>)
    requires
        before.wf(),
        after.wf(),
        layout_applied(before, after, name, entries),
    ensures
        after.layouts.outputs@.contains_key(name@),
        after.layouts.outputs@[name@] == after.layouts.outputs.entries@[if before.layouts.outputs.has(
            name@,
        ) {
            before.layouts.outputs.position(name@)
        } else {
            before.layouts.outputs.entries@.len() as int
        }].1,
        after.layouts.outputs@[name@]@.len() == entries@.len(),
        layout_of(after, name@) == after.layouts.outputs@[name@]@,
{
    let given = before.layouts.outputs.entries_with(name, entries);
    let b = before.layouts.outputs;
    let a = after.layouts.outputs;
    let here = if b.has(name@) {
        b.position(name@)
    } else {
        b.entries@.len() as int
    };
    assert(given[here].0@ == name@ && given[here].1 == entries);
    assert(a.entries@[here].0@ == name@);
    a.lemma_entry(here);
}

/// Of the views of a surface, over all outputs, exactly one is primary. None asks for a larger
/// area, where a fullscreen view on a mapped output asks for the whole output, and among those
/// that ask for the same area it is the first.
pub proof fn law_primary_view_is_the_largest(
    before: Ewm,
    after: Ewm,
    name: String,
    entries: Vec<LayoutEntry>,
    o: int,
    j: int,
)
    requires
        before.wf(),
        after.wf(),
        layout_applied(before, after, name, entries),
        0 <= o < after.layouts.outputs.entries@.len(),
        0 <= j < after.layouts.outputs.entries@[o].1@.len(),
    ensures
        ({
            let outs = after.layouts.outputs.entries@;
            let area = |e: LayoutEntry, n: Seq<char>|
                if e.fullscreen && before.space@.contains_key(n) {
                    before.space@[n].size.w * before.space@[n].size.h
                } else {
                    e.w * e.h
                };
            let e = outs[o].1@[j];
            &&& exists|p: int, k: int|
                0 <= p < outs.len() && 0 <= k < outs[p].1@.len() && (
                #[trigger] outs[p].1@[k]).primary && outs[p].1@[k].id == e.id
            &&& e.primary ==> forall|p: int, k: int|
                0 <= p < outs.len() && 0 <= k < outs[p].1@.len() && (
                #[trigger] outs[p].1@[k]).id == e.id ==> {
                    &&& outs[p].1@[k].primary ==> p == o && k == j
                    &&& area(outs[p].1@[k], outs[p].0@) <= area(e, outs[o].0@)
                    &&& area(outs[p].1@[k], outs[p].0@) == area(e, outs[o].0@) ==> o < p || (o == p
                        && j <= k)
                }
        }),
{
    let given = before.layouts.outputs.entries_with(name, entries);
    let outs = after.layouts.outputs.entries@;
    let space = before.space@;
    let e = outs[o].1@[j];
    assert(slot(given, o, j));
    law_one_primary_per_surface(given, space, o, j);
    let (p, k) = choose|p: int, k: int| #[trigger]
        slot(given, p, k) && given[p].1@[k].id == given[o].1@[j].id && is_primary(
            given,
            space,
            p,
            k,
        );
    assert(slot(given, p, k));
    assert(outs[p].1@[k].primary);
    assert(outs[p].1@[k].id == e.id);
    if e.primary {
        assert(is_primary(given, space, o, j));
        assert forall|p: int, k: int|
            0 <= p < outs.len() && 0 <= k < outs[p].1@.len() && (
            #[trigger] outs[p].1@[k]).id == e.id implies {
            let area = |e: LayoutEntry, n: Seq<char>|
                if e.fullscreen && before.space@.contains_key(n) {
                    before.space@[n].size.w * before.space@[n].size.h
                } else {
                    e.w * e.h
                };
            &&& outs[p].1@[k].primary ==> p == o && k == j
            &&& area(outs[p].1@[k], outs[p].0@) <= area(e, outs[o].0@)
            &&& area(outs[p].1@[k], outs[p].0@) == area(e, outs[o].0@) ==> o < p || (o == p && j
                <= k)
        } by {
            assert(slot(given, p, k));
            if outs[p].1@[k].primary {
                assert(is_primary(given, space, p, k));
            }
            if stands_before(p, k, o, j) {
                assert(!is_largest(given, space, p, k));
            }
        }
    }
}

/// A window whose primary view is on the output gets the extent of that view: the entry's own
/// width and height, or those of the whole output where the view is fullscreen. It is then
/// fullscreen, and maximized otherwise. Windows without a primary view there keep their state.
pub proof fn law_windows_take_the_extent_of_their_primary_view(
    before: Ewm,
    after: Ewm,
    name: String,
    entries: Vec<LayoutEntry>,
)
    requires
        before.wf(),
        after.wf(),
        before.space@.contains_key(name@),
        layout_applied(before, after, name, entries),
    ensures
        after.windows@.dom() == before.windows@.dom(),
        forall|j: int|
            0 <= j < entries@.len() && before.windows@.contains_key(
                (#[trigger] entries@[j]).id,
            ) && after.layouts.outputs@[name@]@[j].primary ==> {
                let e = entries@[j];
                let w = after.windows@[e.id];
                &&& w.size is Some
                &&& !e.fullscreen ==> w.size->0.w == e.w as i32 && w.size->0.h == e.h as i32
                &&& e.fullscreen ==> w.size->0.w == before.space@[name@].size.w && w.size->0.h
                    == before.space@[name@].size.h
                &&& w.fullscreen == e.fullscreen
                &&& w.maximized == !e.fullscreen
                &&& w.at == before.windows@[e.id].at
            },
        forall|id: u64| #[trigger]
            before.windows@.contains_key(id) && (forall|j: int|
                0 <= j < entries@.len() && (#[trigger] entries@[j]).id == id
                    ==> !after.layouts.outputs@[name@]@[j].primary) ==> after.windows@[id]
                == before.windows@[id],
{
    law_layout_is_stored_as_declared(before, after, name, entries);
    lemma_stored(before, after, name, entries);
    let out = before.space@[name@];
    let list = layout_of(after, name@);
    lemma_single_primaries(before, after, name, entries);
    lemma_configured(before.windows@, list, out);
    assert forall|j: int|
        0 <= j < entries@.len() && before.windows@.contains_key((#[trigger] entries@[j]).id)
            && after.layouts.outputs@[name@]@[j].primary implies {
        let e = entries@[j];
        let w = after.windows@[e.id];
        &&& w.size is Some
        &&& !e.fullscreen ==> w.size->0.w == e.w as i32 && w.size->0.h == e.h as i32
        &&& e.fullscreen ==> w.size->0.w == before.space@[name@].size.w && w.size->0.h
            == before.space@[name@].size.h
        &&& w.fullscreen == e.fullscreen
        &&& w.maximized == !e.fullscreen
        &&& w.at == before.windows@[e.id].at
    } by {
        assert(list[j].id == entries@[j].id);
    }
    assert forall|id: u64| #[trigger]
        before.windows@.contains_key(id) && (forall|j: int|
            0 <= j < entries@.len() && (#[trigger] entries@[j]).id == id
                ==> !after.layouts.outputs@[name@]@[j].primary) implies after.windows@[id]
        == before.windows@[id] by {
        assert forall|j: int| 0 <= j < list.len() implies !((#[trigger] list[j]).primary
            && list[j].id == id) by {
            assert(entries@[j].id == list[j].id);
        }
    }
}

/// No surface has two primary views in the stored list.
proof fn lemma_single_primaries(before: Ewm, after: Ewm, name: String, entries: Vec<LayoutEntry>)
    requires
        before.wf(),
        after.wf(),
        layout_applied(before, after, name, entries),
    ensures
        forall|i: int, j: int|
            0 <= i < j < layout_of(after, name@).len() && (#[trigger] layout_of(
                after,
                name@,
            )[i]).primary && (#[trigger] layout_of(after, name@)[j]).primary ==> layout_of(
                after,
                name@,
            )[i].id != layout_of(after, name@)[j].id,
{
    lemma_stored(before, after, name, entries);
    let b = before.layouts.outputs;
    let outs = after.layouts.outputs.entries@;
    let o = if b.has(name@) {
        b.position(name@)
    } else {
        b.entries@.len() as int
    };
    let list = layout_of(after, name@);
    assert(list == outs[o].1@);
    assert forall|i: int, j: int|
        0 <= i < j < list.len() && (#[trigger] list[i]).primary && (#[trigger] list[j]).primary
        implies list[i].id != list[j].id by {
        if list[i].id == list[j].id {
            law_primary_view_is_the_largest(before, after, name, entries, o, j);
            assert(outs[o].1@[i].id == outs[o].1@[j].id);
        }
    }
}

/// The windows after the primary views of a list were gone through.
proof fn lemma_configured(
    windows: Map<u64, WindowState>,
    list: Seq<LayoutEntry>,
    out: MappedOutput,
)
    requires
        forall|i: int, j: int|
            0 <= i < j < list.len() && (#[trigger] list[i]).primary && (#[trigger] list[j]).primary
                ==> list[i].id != list[j].id,
    ensures
        configure_all(windows, list, out).dom() == windows.dom(),
        forall|j: int|
            0 <= j < list.len() && (#[trigger] list[j]).primary && windows.contains_key(list[j].id)
                ==> {
                let e = list[j];
                let w = configure_all(windows, list, out)[e.id];
                &&& w.size is Some
                &&& !e.fullscreen ==> w.size->0.w == e.w as i32 && w.size->0.h == e.h as i32
                &&& e.fullscreen ==> w.size->0 == out.size
                &&& w.fullscreen == e.fullscreen
                &&& w.maximized == !e.fullscreen
                &&& w.at == windows[e.id].at
            },
        forall|id: u64| #[trigger]
            windows.contains_key(id) && (forall|j: int|
                0 <= j < list.len() ==> !((#[trigger] list[j]).primary && list[j].id == id))
                ==> configure_all(windows, list, out)[id] == windows[id],
    decreases list.len(),
{
    if list.len() > 0 {
        let head = list.drop_last();
        lemma_configured(windows, head, out);
        let ws = configure_all(windows, head, out);
        let e = list.last();
        assert(configure_all(windows, list, out).dom() =~= ws.dom());
        assert forall|j: int|
            0 <= j < list.len() && (#[trigger] list[j]).primary && windows.contains_key(list[j].id)
            implies {
            let e = list[j];
            let w = configure_all(windows, list, out)[e.id];
            &&& w.size is Some
            &&& !e.fullscreen ==> w.size->0.w == e.w as i32 && w.size->0.h == e.h as i32
            &&& e.fullscreen ==> w.size->0 == out.size
            &&& w.fullscreen == e.fullscreen
            &&& w.maximized == !e.fullscreen
            &&& w.at == windows[e.id].at
        } by {
            if j < head.len() {
                assert(head[j] == list[j]);
            } else if ws[e.id] != windows[e.id] {
                assert forall|i: int| 0 <= i < head.len() implies !((#[trigger] head[i]).primary
                    && head[i].id == e.id) by {
                    assert(head[i] == list[i]);
                    assert(list[j] == e);
                }
            }
        }
        assert forall|id: u64| #[trigger]
            windows.contains_key(id) && (forall|j: int|
                0 <= j < list.len() ==> !((#[trigger] list[j]).primary && list[j].id == id))
            implies configure_all(windows, list, out)[id] == windows[id] by {
            assert forall|i: int| 0 <= i < head.len() implies !((#[trigger] head[i]).primary
                && head[i].id == id) by {
                assert(head[i] == list[i]);
            }
            assert(list[list.len() - 1] == e);
        }
    }
}

/// What clients are told when a layout is applied: a window that the output stops showing leaves
/// it, one that it starts to show enters it, each window with its primary view there is told the
/// output's scale, and it is sent its state exactly if its size changed. Nothing else is sent, and
/// what was to be done before still comes first.
pub proof fn law_clients_hear_of_the_layout(
    before: Ewm,
    after: Ewm,
    name: String,
    entries: Vec<LayoutEntry>,
    x: Effect,
)
    requires
        before.wf(),
        after.wf(),
        before.space@.contains_key(name@),
        layout_applied(before, after, name, entries),
    ensures
        before.effects@ =~= after.effects@.subrange(0, before.effects@.len() as int),
        ({
            let sent = after.effects@.subrange(
                before.effects@.len() as int,
                after.effects@.len() as int,
            );
            let shown_before = |id: u64|
                before.layouts.outputs@.contains_key(name@) && exists|j: int|
                    0 <= j < before.layouts.outputs@[name@]@.len() && (
                    #[trigger] before.layouts.outputs@[name@]@[j]).id == id;
            let shown_now = |id: u64|
                exists|j: int| 0 <= j < entries@.len() && (#[trigger] entries@[j]).id == id;
            let primary_here = |id: u64|
                exists|j: int|
                    0 <= j < after.layouts.outputs@[name@]@.len() && (
                    #[trigger] after.layouts.outputs@[name@]@[j]).id == id
                        && after.layouts.outputs@[name@]@[j].primary;
            sent.contains(x) <==> match x {
                Effect::Leave { output, id } => output == name && before.windows@.contains_key(id)
                    && shown_before(id) && !shown_now(id),
                Effect::Enter { output, id } => output == name && before.windows@.contains_key(id)
                    && shown_now(id) && !shown_before(id),
                Effect::SendScale { output, id } => output == name
                    && before.windows@.contains_key(id) && primary_here(id),
                Effect::Configure { id } => before.windows@.contains_key(id) && primary_here(id)
                    && before.windows@[id].size != after.windows@[id].size,
                _ => false,
            }
        }),
{
    lemma_stored(before, after, name, entries);
    lemma_single_primaries(before, after, name, entries);
    let out = before.space@[name@];
    let previous = layout_of(before, name@);
    let list = layout_of(after, name@);
    let gone = crate::layout::ids_missing_in(previous, entries@);
    let new = crate::layout::ids_missing_in(entries@, previous);
    lemma_ids_missing(previous, entries@);
    lemma_ids_missing(entries@, previous);
    let a = leave_effects(name, gone, before.windows@);
    let b = enter_effects(name, new, before.windows@);
    let c = configure_effects(name, before.windows@, list, out);
    lemma_leaves(name, gone, before.windows@, x);
    lemma_enters(name, new, before.windows@, x);
    lemma_configures(name, before.windows@, list, out, x);
    let sent = after.effects@.subrange(before.effects@.len() as int, after.effects@.len() as int);
    assert(sent =~= a + b + c);
    lemma_in_three(a, b, c, x);
    match x {
        Effect::Leave { output, id } => {
            assert(gone.contains(id) <==> lists(previous, id) && !lists(entries@, id));
        },
        Effect::Enter { output, id } => {
            assert(new.contains(id) <==> lists(entries@, id) && !lists(previous, id));
        },
        _ => {},
    }
}

proof fn lemma_in_three(a: Seq<Effect>, b: Seq<Effect>, c: Seq<Effect>, x: Effect)
    ensures
        (a + b + c).contains(x) <==> a.contains(x) || b.contains(x) || c.contains(x),
{
    let s = a + b + c;
    if s.contains(x) {
        let i = choose|i: int| 0 <= i < s.len() && s[i] == x;
        if i < a.len() {
            assert(a[i] == x);
        } else if i < a.len() + b.len() {
            assert(b[i - a.len()] == x);
        } else {
            assert(c[i - a.len() - b.len()] == x);
        }
    }
    if a.contains(x) {
        let i = choose|i: int| 0 <= i < a.len() && a[i] == x;
        assert(s[i] == x);
    }
    if b.contains(x) {
        let i = choose|i: int| 0 <= i < b.len() && b[i] == x;
        assert(s[a.len() + i] == x);
    }
    if c.contains(x) {
        let i = choose|i: int| 0 <= i < c.len() && c[i] == x;
        assert(s[a.len() + b.len() + i] == x);
    }
}

/// What pushing one more does to what a sequence holds.
proof fn lemma_pushed<T>(s: Seq<T>, y: T, x: T)
    ensures
        s.push(y).contains(x) <==> s.contains(x) || x == y,
{
    let t = s.push(y);
    if s.contains(x) {
        let i = choose|i: int| 0 <= i < s.len() && s[i] == x;
        assert(t[i] == x);
    }
    assert(t[s.len() as int] == y);
    if t.contains(x) && x != y {
        let i = choose|i: int| 0 <= i < t.len() && t[i] == x;
        assert(s[i] == x);
    }
}

proof fn lemma_leaves(name: String, ids: Seq<u64>, windows: Map<u64, WindowState>, x: Effect)
    ensures
        leave_effects(name, ids, windows).contains(x) <==> match x {
            Effect::Leave { output, id } => output == name && ids.contains(id)
                && windows.contains_key(id),
            _ => false,
        },
    decreases ids.len(),
{
    if ids.len() > 0 {
        let head = ids.drop_last();
        lemma_leaves(name, head, windows, x);
        assert(ids =~= head.push(ids.last()));
        lemma_pushed(
            leave_effects(name, head, windows),
            Effect::Leave { output: name, id: ids.last() },
            x,
        );
        match x {
            Effect::Leave { output, id } => {
                lemma_pushed(head, ids.last(), id);
            },
            _ => {},
        }
    }
}

proof fn lemma_enters(name: String, ids: Seq<u64>, windows: Map<u64, WindowState>, x: Effect)
    ensures
        enter_effects(name, ids, windows).contains(x) <==> match x {
            Effect::Enter { output, id } => output == name && ids.contains(id)
                && windows.contains_key(id),
            _ => false,
        },
    decreases ids.len(),
{
    if ids.len() > 0 {
        let head = ids.drop_last();
        lemma_enters(name, head, windows, x);
        assert(ids =~= head.push(ids.last()));
        lemma_pushed(
            enter_effects(name, head, windows),
            Effect::Enter { output: name, id: ids.last() },
            x,
        );
        match x {
            Effect::Enter { output, id } => {
                lemma_pushed(head, ids.last(), id);
            },
            _ => {},
        }
    }
}

/// A surface has a primary view in a list exactly if it has one before the last entry or the last
/// entry is one.
proof fn lemma_primary_among(list: Seq<LayoutEntry>, id: u64)
    requires
        list.len() > 0,
    ensures
        (exists|j: int| 0 <= j < list.len() && (#[trigger] list[j]).id == id && list[j].primary)
            <==> (exists|j: int|
            0 <= j < list.len() - 1 && (#[trigger] list.drop_last()[j]).id == id
                && list.drop_last()[j].primary) || (list.last().id == id && list.last().primary),
{
    let head = list.drop_last();
    if exists|j: int| 0 <= j < head.len() && (#[trigger] head[j]).id == id && head[j].primary {
        let j = choose|j: int|
            0 <= j < head.len() && (#[trigger] head[j]).id == id && head[j].primary;
        assert(list[j] == head[j]);
    }
    if exists|j: int| 0 <= j < list.len() && (#[trigger] list[j]).id == id && list[j].primary {
        let j = choose|j: int|
            0 <= j < list.len() && (#[trigger] list[j]).id == id && list[j].primary;
        if j < head.len() {
            assert(head[j] == list[j]);
        }
    }
    assert(list[list.len() - 1] == list.last());
}

proof fn lemma_configures(
    name: String,
    windows: Map<u64, WindowState>,
    list: Seq<LayoutEntry>,
    out: MappedOutput,
    x: Effect,
)
    requires
        forall|i: int, j: int|
            0 <= i < j < list.len() && (#[trigger] list[i]).primary && (#[trigger] list[j]).primary
                ==> list[i].id != list[j].id,
    ensures
        configure_effects(name, windows, list, out).contains(x) <==> match x {
            Effect::SendScale { output, id } => output == name && windows.contains_key(id)
                && exists|j: int|
                0 <= j < list.len() && (#[trigger] list[j]).id == id && list[j].primary,
            Effect::Configure { id } => windows.contains_key(id) && (exists|j: int|
                0 <= j < list.len() && (#[trigger] list[j]).id == id && list[j].primary)
                && windows[id].size != configure_all(windows, list, out)[id].size,
            _ => false,
        },
    decreases list.len(),
{
    if list.len() > 0 {
        let head = list.drop_last();
        let e = list.last();
        lemma_configures(name, windows, head, out, x);
        lemma_configured(windows, head, out);
        lemma_configured(windows, list, out);
        let sent = configure_effects(name, windows, head, out);
        let scale = Effect::SendScale { output: name, id: e.id };
        let state = Effect::Configure { id: e.id };
        lemma_pushed(sent, scale, x);
        lemma_pushed(sent.push(scale), state, x);
        assert(list[list.len() - 1] == e);
        match x {
            Effect::SendScale { output, id } => lemma_primary_among(list, id),
            Effect::Configure { id } => lemma_primary_among(list, id),
            _ => {},
        }
        if e.primary && windows.contains_key(e.id) {
            assert forall|j: int| 0 <= j < head.len() implies !((#[trigger] head[j]).primary
                && head[j].id == e.id) by {
                assert(head[j] == list[j]);
            }
        }
    }
}

} // verus!
