//! Applying Emacs's layouts to outputs and windows, and the redraws that follow.
use super::{Ewm, WindowState};
use crate::effect::Effect;
use crate::geometry::Size;
use crate::layout::{
    cast_outputs_of, ids_missing_in, missing_ids, primaries_set, LayoutEntry, MappedOutput,
};
use crate::outputs::{all_requested, clocks_ok, lemma_same_names, one_requested, same_names};
use crate::redraw::OutputState;
use crate::text::str_eq;
use vstd::prelude::*;

verus! {

/// One `leave` for each of `ids` that is a window, in order.
pub open spec fn leave_effects(
    name: String,
    ids: Seq<u64>,
    windows: Map<u64, WindowState>,
) -> Seq<Effect>
    decreases ids.len(),
{
    if ids.len() == 0 {
        Seq::empty()
    } else {
        let head = leave_effects(name, ids.drop_last(), windows);
        if windows.contains_key(ids.last()) {
            head.push(Effect::Leave { output: name, id: ids.last() })
        } else {
            head
        }
    }
}

/// One `enter` for each of `ids` that is a window, in order.
pub open spec fn enter_effects(
    name: String,
    ids: Seq<u64>,
    windows: Map<u64, WindowState>,
) -> Seq<Effect>
    decreases ids.len(),
{
    if ids.len() == 0 {
        Seq::empty()
    } else {
        let head = enter_effects(name, ids.drop_last(), windows);
        if windows.contains_key(ids.last()) {
            head.push(Effect::Enter { output: name, id: ids.last() })
        } else {
            head
        }
    }
}

/// The size that an entry asks of its window: the whole output where it is fullscreen.
pub open spec fn asked_size(e: LayoutEntry, out: MappedOutput) -> Size {
    if e.fullscreen {
        out.size
    } else {
        Size { w: e.w as i32, h: e.h as i32 }
    }
}

/// A window as its primary entry configures it.
pub open spec fn configured(w: WindowState, e: LayoutEntry, out: MappedOutput) -> WindowState {
    WindowState {
        size: Some(asked_size(e, out)),
        fullscreen: e.fullscreen,
        maximized: !e.fullscreen,
        ..w
    }
}

/// The windows after the primary ones of `entries` were configured, in order.
pub open spec fn configure_all(
    windows: Map<u64, WindowState>,
    entries: Seq<LayoutEntry>,
    out: MappedOutput,
) -> Map<u64, WindowState>
    decreases entries.len(),
{
    if entries.len() == 0 {
        windows
    } else {
        let head = configure_all(windows, entries.drop_last(), out);
        let e = entries.last();
        if e.primary && head.contains_key(e.id) {
            head.insert(e.id, configured(head[e.id], e, out))
        } else {
            head
        }
    }
}

/// What configuring the primary windows of `entries` sends: the output's scale, and the new size
/// where it changed.
pub open spec fn configure_effects(
    name: String,
    windows: Map<u64, WindowState>,
    entries: Seq<LayoutEntry>,
    out: MappedOutput,
) -> Seq<Effect>
    decreases entries.len(),
{
    if entries.len() == 0 {
        Seq::empty()
    } else {
        let head = configure_effects(name, windows, entries.drop_last(), out);
        let e = entries.last();
        let ws = configure_all(windows, entries.drop_last(), out);
        if e.primary && ws.contains_key(e.id) {
            let scaled = head.push(Effect::SendScale { output: name, id: e.id });
            if ws[e.id].size != Some(asked_size(e, out)) {
                scaled.push(Effect::Configure { id: e.id })
            } else {
                scaled
            }
        } else {
            head
        }
    }
}

/// Configuring adds and removes no window.
proof fn lemma_configure_keeps_ids(
    windows: Map<u64, WindowState>,
    entries: Seq<LayoutEntry>,
    out: MappedOutput,
)
    ensures
        configure_all(windows, entries, out).dom() == windows.dom(),
    decreases entries.len(),
{
    if entries.len() > 0 {
        lemma_configure_keeps_ids(windows, entries.drop_last(), out);
        let head = configure_all(windows, entries.drop_last(), out);
        assert(configure_all(windows, entries, out).dom() =~= head.dom());
    }
}

/// The layout that an output has, or the empty one.
pub open spec fn layout_of(e: Ewm, name: Seq<char>) -> Seq<LayoutEntry> {
    if e.layouts.outputs@.contains_key(name) {
        e.layouts.outputs@[name]@
    } else {
        Seq::empty()
    }
}

/// A redraw is requested on the mapped outputs that `chosen` names.
pub open spec fn some_requested(
    s: Seq<(String, OutputState)>,
    space: Map<Seq<char>, MappedOutput>,
    chosen: spec_fn(Seq<char>) -> bool,
) -> Seq<(String, OutputState)> {
    s.map_values(
        |e: (String, OutputState)|
            if space.contains_key(e.0@) && chosen(e.0@) {
                (e.0, crate::outputs::with_request(e.1))
            } else {
                e
            },
    )
}

impl Ewm {
    fn emit_leaves(&mut self, name: &String, ids: &Vec<u64>)
        requires
            old(self).wf(),
        ensures
            *final(self) == (Ewm { effects: final(self).effects, ..*old(self) }),
            final(self).effects@ == old(self).effects@ + leave_effects(
                *name,
                ids@,
                old(self).windows@,
            ),
    {
        let mut i: usize = 0;
        assert(ids@.subrange(0, 0) =~= Seq::<u64>::empty());
        assert(self.effects@ =~= old(self).effects@ + leave_effects(
            *name,
            ids@.subrange(0, 0),
            old(self).windows@,
        ));
        while i < ids.len()
            invariant
                i <= ids@.len(),
                self.windows.wf(),
                *self == (Ewm { effects: self.effects, ..*old(self) }),
                self.effects@ == old(self).effects@ + leave_effects(
                    *name,
                    ids@.subrange(0, i as int),
                    old(self).windows@,
                ),
            decreases ids@.len() - i,
        {
            assert(ids@.subrange(0, i + 1).drop_last() =~= ids@.subrange(0, i as int));
            if self.windows.contains(ids[i]) {
                self.emit(Effect::Leave { output: name.clone(), id: ids[i] });
            }
            i = i + 1;
            assert(self.effects@ =~= old(self).effects@ + leave_effects(
                *name,
                ids@.subrange(0, i as int),
                old(self).windows@,
            ));
        }
        assert(ids@.subrange(0, i as int) =~= ids@);
    }

    fn emit_enters(&mut self, name: &String, ids: &Vec<u64>)
        requires
            old(self).wf(),
        ensures
            *final(self) == (Ewm { effects: final(self).effects, ..*old(self) }),
            final(self).effects@ == old(self).effects@ + enter_effects(
                *name,
                ids@,
                old(self).windows@,
            ),
    {
        let mut i: usize = 0;
        assert(ids@.subrange(0, 0) =~= Seq::<u64>::empty());
        assert(self.effects@ =~= old(self).effects@ + enter_effects(
            *name,
            ids@.subrange(0, 0),
            old(self).windows@,
        ));
        while i < ids.len()
            invariant
                i <= ids@.len(),
                self.windows.wf(),
                *self == (Ewm { effects: self.effects, ..*old(self) }),
                self.effects@ == old(self).effects@ + enter_effects(
                    *name,
                    ids@.subrange(0, i as int),
                    old(self).windows@,
                ),
            decreases ids@.len() - i,
        {
            assert(ids@.subrange(0, i + 1).drop_last() =~= ids@.subrange(0, i as int));
            if self.windows.contains(ids[i]) {
                self.emit(Effect::Enter { output: name.clone(), id: ids[i] });
            }
            i = i + 1;
            assert(self.effects@ =~= old(self).effects@ + enter_effects(
                *name,
                ids@.subrange(0, i as int),
                old(self).windows@,
            ));
        }
        assert(ids@.subrange(0, i as int) =~= ids@);
    }

    /// Configures the primary windows of the layout at index `o`.
    fn configure_primaries(&mut self, name: &String, o: usize, out: &MappedOutput)
        requires
            old(self).wf(),
            o < old(self).layouts.outputs.entries@.len(),
        ensures
            final(self).wf(),
            *final(self) == (Ewm {
                windows: final(self).windows,
                effects: final(self).effects,
                ..*old(self)
            }),
            final(self).windows@ == configure_all(
                old(self).windows@,
                old(self).layouts.outputs.entries@[o as int].1@,
                *out,
            ),
            final(self).effects@ == old(self).effects@ + configure_effects(
                *name,
                old(self).windows@,
                old(self).layouts.outputs.entries@[o as int].1@,
                *out,
            ),
    {
        let ghost list = self.layouts.outputs.entries@[o as int].1@;
        let ghost w0 = self.windows@;
        let mut j: usize = 0;
        assert(list.subrange(0, 0) =~= Seq::<LayoutEntry>::empty());
        assert(self.effects@ =~= old(self).effects@ + configure_effects(
            *name,
            w0,
            list.subrange(0, 0),
            *out,
        ));
        while j < self.layouts.outputs.entries[o].1.len()
            invariant
                o < self.layouts.outputs.entries@.len(),
                list == self.layouts.outputs.entries@[o as int].1@,
                w0 == old(self).windows@,
                j <= list.len(),
                self.windows.wf(),
                *self == (Ewm { windows: self.windows, effects: self.effects, ..*old(self) }),
                self.windows@ == configure_all(w0, list.subrange(0, j as int), *out),
                self.effects@ == old(self).effects@ + configure_effects(
                    *name,
                    w0,
                    list.subrange(0, j as int),
                    *out,
                ),
            decreases list.len() - j,
        {
            let e: LayoutEntry = self.layouts.outputs.entries[o].1[j];
            let ghost pre = list.subrange(0, j as int);
            let ghost post = list.subrange(0, j as int + 1);
            assert(post.drop_last() =~= pre);
            assert(post.last() == e);
            if e.primary {
                match self.windows.find(e.id) {
                    Some(k) => {
                        let w: WindowState = self.windows.entries[k].1;
                        self.emit(Effect::SendScale { output: name.clone(), id: e.id });
                        let size = if e.fullscreen {
                            out.size
                        } else {
                            Size {
                                w: #[verifier::truncate]
                                (e.w as i32),
                                h: #[verifier::truncate]
                                (e.h as i32),
                            }
                        };
                        let changed = match w.size {
                            Some(s) => s.w != size.w || s.h != size.h,
                            None => true,
                        };
                        self.windows.insert(
                            e.id,
                            WindowState {
                                size: Some(size),
                                fullscreen: e.fullscreen,
                                maximized: !e.fullscreen,
                                at: w.at,
                            },
                        );
                        if changed {
                            self.emit(Effect::Configure { id: e.id });
                        }
                    },
                    None => {},
                }
            }
            j = j + 1;
            assert(self.effects@ =~= old(self).effects@ + configure_effects(
                *name,
                w0,
                list.subrange(0, j as int),
                *out,
            ));
        }
        assert(list.subrange(0, j as int) =~= list);
        proof {
            lemma_configure_keeps_ids(w0, list, *out);
        }
    }

    /// Apply a declarative per-output layout.
    ///
    /// Replaces the previous layout for the given output. Surfaces removed from
    /// this output get `wl_surface.leave`; new surfaces get `wl_surface.enter`
    /// and scale notification.
    pub fn apply_output_layout(&mut self, output_name: &String, entries: Vec<LayoutEntry>)
        requires
            old(self).wf(),
        ensures
            final(self).wf(),
            !old(self).space@.contains_key(output_name@) ==> *final(self) == *old(self),
            old(self).space@.contains_key(output_name@) ==> layout_applied(
                *old(self),
                *final(self),
                *output_name,
                entries,
            ),
    {
        let out: MappedOutput = match self.space.get(output_name.as_str()) {
            Some(o) => *o,
            None => {
                return ;
            },
        };
        let ghost list = entries@;
        let ghost before = *self;
        let ghost given = self.layouts.outputs.entries_with(*output_name, entries);
        let ghost previous = layout_of(*self, output_name@);
        let empty: Vec<LayoutEntry> = Vec::new();
        let (gone, new): (Vec<u64>, Vec<u64>) = match self.layouts.outputs.get(
            output_name.as_str(),
        ) {
            Some(previous) => (missing_ids(previous, &entries), missing_ids(&entries, previous)),
            None => (missing_ids(&empty, &entries), missing_ids(&entries, &empty)),
        };
        assert(gone@ == ids_missing_in(previous, list) && new@ == ids_missing_in(list, previous));
        self.emit_leaves(output_name, &gone);
        self.emit_enters(output_name, &new);
        self.layouts.replace(output_name, entries);
        let ghost mid = self.layouts;
        self.layouts.assign_primary(&self.space);
        self.window_cast_output = self.layouts.cast_outputs();
        proof {
            // the output's list is found again under its name
            crate::layout::lemma_primaries_keep_index(mid, self.layouts, self.space@);
            assert(mid.outputs@.contains_key(output_name@));
            assert(mid.outputs.has(output_name@));
            assert(self.layouts.outputs.has(output_name@));
        }
        match self.layouts.outputs.find(output_name.as_str()) {
            Some(o) => {
                self.configure_primaries(output_name, o, &out);
            },
            None => {},
        }
        self.queue_redraw(output_name.as_str());
        assert(self.effects@ =~= before.effects@ + leave_effects(
            *output_name,
            gone@,
            before.windows@,
        ) + enter_effects(*output_name, new@, before.windows@) + configure_effects(
            *output_name,
            before.windows@,
            layout_of(*self, output_name@),
            out,
        ));
    }
}

/// The outputs that show a surface: those whose layouts list it, else the one that an Emacs
/// frame was made for. `None` where neither is known.
pub open spec fn outputs_showing(e: Ewm, id: u64) -> Option<spec_fn(Seq<char>) -> bool> {
    if e.layouts.surface_outputs.shown(id) {
        Some(|n: Seq<char>| e.layouts.shows(id, n))
    } else if e.emacs_surfaces@.contains_key(id) {
        Some(|n: Seq<char>| n == e.emacs_surfaces@[id]@)
    } else {
        None
    }
}

impl Ewm {
    /// Queue redraws for outputs displaying the given surface.
    ///
    /// Layout-managed surfaces redraw their declared outputs.
    /// Emacs frames redraw their assigned output. Untracked surfaces
    /// fall back to redrawing all outputs.
    pub fn queue_redraw_for_surface(&mut self, id: u64)
        requires
            old(self).wf(),
        ensures
            final(self).wf(),
            *final(self) == (Ewm { output_state: final(self).output_state, ..*old(self) }),
            final(self).output_state.entries@ == match outputs_showing(*old(self), id) {
                Some(chosen) => some_requested(
                    old(self).output_state.entries@,
                    old(self).space@,
                    chosen,
                ),
                None => all_requested(old(self).output_state.entries@),
            },
    {
        let ghost before = *self;
        let by_layout = self.layouts.surface_outputs.contains_surface(id);
        if !by_layout && !self.emacs_surfaces.contains(id) {
            self.queue_redraw_all();
            return ;
        }
        let ghost chosen = outputs_showing(before, id)->0;
        let mut i: usize = 0;
        while i < self.output_state.entries.len()
            invariant
                before.wf(),
                *self == (Ewm { output_state: self.output_state, ..before }),
                by_layout == before.layouts.surface_outputs.shown(id),
                !by_layout ==> before.emacs_surfaces@.contains_key(id),
                outputs_showing(before, id) == Some(chosen),
                i <= self.output_state.entries@.len(),
                same_names(before.output_state.entries@, self.output_state.entries@),
                clocks_ok(self.output_state.entries@),
                forall|j: int|
                    0 <= j < i ==> (#[trigger] self.output_state.entries@[j]) == some_requested(
                        before.output_state.entries@,
                        before.space@,
                        chosen,
                    )[j],
                forall|j: int|
                    i <= j < self.output_state.entries@.len() ==> (
                    #[trigger] self.output_state.entries@[j]) == before.output_state.entries@[j],
            decreases self.output_state.entries@.len() - i,
        {
            let name = self.output_state.entries[i].0.clone();
            let wanted = if by_layout {
                self.layouts.surface_outputs.contains(id, name.as_str())
            } else {
                match self.emacs_surfaces.get(id) {
                    Some(n) => str_eq(n.as_str(), name.as_str()),
                    None => false,
                }
            };
            assert(before.layouts.surface_outputs.has(id, name@) <==> before.layouts.shows(
                id,
                name@,
            ));
            assert(wanted == chosen(name@));
            if wanted && self.space.contains(name.as_str()) {
                let mut st: OutputState = self.output_state.entries[i].1;
                st.redraw_state = st.redraw_state.queue_redraw();
                self.output_state.entries.set(i, (name, st));
            }
            i = i + 1;
        }
        proof {
            lemma_same_names(before.output_state, self.output_state);
            assert(self.output_state.entries@ =~= some_requested(
                before.output_state.entries@,
                before.space@,
                chosen,
            ));
        }
    }
}

/// The state `after` is `before` with the layout `entries` on the mapped output `name`.
pub open spec fn layout_applied(
    before: Ewm,
    after: Ewm,
    name: String,
    entries: Vec<LayoutEntry>,
) -> bool {
    let out = before.space@[name@];
    let previous = layout_of(before, name@);
    &&& after == (Ewm {
        layouts: after.layouts,
        window_cast_output: after.window_cast_output,
        windows: after.windows,
        output_state: after.output_state,
        effects: after.effects,
        ..before
    })
    &&& primaries_set(
        before.layouts.outputs.entries_with(name, entries),
        after.layouts.outputs.entries@,
        before.space@,
    )
    &&& cast_outputs_of(after.layouts.outputs.entries@, after.window_cast_output@)
    &&& after.windows@ == configure_all(before.windows@, layout_of(after, name@), out)
    &&& after.output_state.entries@ == one_requested(before.output_state.entries@, name@)
    &&& after.effects@ == before.effects@ + leave_effects(
        name,
        ids_missing_in(previous, entries@),
        before.windows@,
    ) + enter_effects(name, ids_missing_in(entries@, previous), before.windows@)
        + configure_effects(name, before.windows@, layout_of(after, name@), out)
}

} // verus!
