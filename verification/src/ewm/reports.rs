//! What is told to output managers, taskbars and Emacs about the state.
use super::focus::{name_view, surface_output};
use super::{Ewm, SurfaceInfo, WindowState};
use crate::backend::{int_to_transform, Transform};
use crate::event::{copy_modes, OutputInfo, OutputMode, WorkingAreaInfo};
use crate::geometry::{Rect, Size};
use crate::layout::MappedOutput;
use crate::outputs::{any_due, first_due};
use crate::text::str_eq;
use vstd::prelude::*;

verus! {

/// An output as the output management protocol shows it.
#[derive(Debug)]
pub struct OutputHeadState {
    pub name: String,
    pub make: String,
    pub model: String,
    /// In millimeters; `None` where it is not known.
    pub physical_size: Option<(i32, i32)>,
    pub enabled: bool,
    pub modes: Vec<OutputMode>,
    /// Index of the current mode.
    pub current_mode: Option<usize>,
    pub position: Option<(i32, i32)>,
    pub scale_120: u32,
    pub transform: Transform,
}

/// The first mode of this size and refresh rate.
pub open spec fn mode_index(modes: Seq<OutputMode>, size: Size, refresh: i32) -> Option<usize>
    decreases modes.len(),
{
    if modes.len() == 0 {
        None
    } else if mode_index(modes.drop_last(), size, refresh) is Some {
        mode_index(modes.drop_last(), size, refresh)
    } else if modes.last().width == size.w && modes.last().height == size.h && modes.last().refresh
        == refresh {
        Some((modes.len() - 1) as usize)
    } else {
        None
    }
}

fn find_mode(modes: &Vec<OutputMode>, size: Size, refresh: i32) -> (r: Option<usize>)
    ensures
        r == mode_index(modes@, size, refresh),
{
    let mut found: Option<usize> = None;
    let mut i: usize = 0;
    while i < modes.len()
        invariant
            i <= modes@.len(),
            found == mode_index(modes@.subrange(0, i as int), size, refresh),
        decreases modes@.len() - i,
    {
        assert(modes@.subrange(0, i + 1).drop_last() =~= modes@.subrange(0, i as int));
        if found.is_none() && modes[i].width == size.w && modes[i].height == size.h
            && modes[i].refresh == refresh {
            found = Some(i);
        }
        i = i + 1;
    }
    assert(modes@.subrange(0, i as int) =~= modes@);
    found
}

/// `head` shows what is known of the output `info`.
pub open spec fn shows_output(head: OutputHeadState, info: OutputInfo, e: Ewm) -> bool {
    let mapped = e.space@.contains_key(info.name@);
    let m = e.space@[info.name@];
    let enabled = e.output_config@.contains_key(info.name@) ==> e.output_config@[info.name@].enabled;
    &&& head.name == info.name
    &&& head.make == info.make
    &&& head.model == info.model
    &&& head.physical_size == if info.width_mm > 0 || info.height_mm > 0 {
        Some((info.width_mm, info.height_mm))
    } else {
        None
    }
    &&& head.enabled == enabled
    &&& head.modes@ == info.modes@
    &&& head.current_mode == if enabled && mapped && m.mode_size is Some {
        mode_index(info.modes@, m.mode_size->0, m.refresh)
    } else {
        None
    }
    &&& head.position == if mapped {
        Some((m.geo.loc.x, m.geo.loc.y))
    } else {
        None
    }
    &&& head.scale_120 == info.scale_120
    &&& head.transform == Transform::numbered(info.transform as int)
}

/// A window as taskbars see it.
#[derive(Debug)]
pub struct WindowInfo {
    pub id: u64,
    pub title: Option<String>,
    pub app_id: String,
    pub output: Option<String>,
    pub is_focused: bool,
    pub is_fullscreen: bool,
}

/// The windows of which an app id and title are known, in table order.
pub open spec fn described(
    windows: Seq<(u64, WindowState)>,
    info: Map<u64, SurfaceInfo>,
) -> Seq<u64>
    decreases windows.len(),
{
    if windows.len() == 0 {
        Seq::empty()
    } else {
        let head = described(windows.drop_last(), info);
        if info.contains_key(windows.last().0) {
            head.push(windows.last().0)
        } else {
            head
        }
    }
}

/// `w` shows what is known of the window `id`.
pub open spec fn shows_window(w: WindowInfo, id: u64, e: Ewm) -> bool {
    let info = e.surface_info@[id];
    &&& w.id == id
    &&& w.app_id == info.app_id
    &&& w.title == if info.title@.len() == 0 {
        None
    } else {
        Some(info.title)
    }
    &&& name_view(w.output) == surface_output(e, id)
    &&& w.is_focused == (e.focused_surface_id == id)
    &&& w.is_fullscreen == e.layouts.fullscreen_somewhere(id)
}

impl Ewm {
    /// Build a snapshot of all output states for the output management protocol.
    pub fn build_output_head_states(&self) -> (r: Vec<OutputHeadState>)
        requires
            self.wf(),
        ensures
            r@.len() == self.outputs@.len(),
            forall|i: int|
                0 <= i < r@.len() ==> shows_output(#[trigger] r@[i], self.outputs@[i], *self),
    {
        let mut heads: Vec<OutputHeadState> = Vec::new();
        let mut i: usize = 0;
        while i < self.outputs.len()
            invariant
                self.wf(),
                i <= self.outputs@.len(),
                heads@.len() == i,
                forall|j: int|
                    0 <= j < i ==> shows_output(#[trigger] heads@[j], self.outputs@[j], *self),
            decreases self.outputs@.len() - i,
        {
            let head = self.head_state(&self.outputs[i]);
            heads.push(head);
            i = i + 1;
        }
        heads
    }

    fn head_state(&self, info: &OutputInfo) -> (r: OutputHeadState)
        requires
            self.wf(),
        ensures
            shows_output(r, *info, *self),
    {
        let enabled = match self.output_config.get(info.name.as_str()) {
            Some(c) => c.enabled,
            None => true,
        };
        let mapped: Option<MappedOutput> = match self.space.get(info.name.as_str()) {
            Some(m) => Some(*m),
            None => None,
        };
        let current_mode = if enabled {
            match mapped {
                Some(m) => match m.mode_size {
                    Some(size) => find_mode(&info.modes, size, m.refresh),
                    None => None,
                },
                None => None,
            }
        } else {
            None
        };
        OutputHeadState {
            name: info.name.clone(),
            make: info.make.clone(),
            model: info.model.clone(),
            physical_size: if info.width_mm > 0 || info.height_mm > 0 {
                Some((info.width_mm, info.height_mm))
            } else {
                None
            },
            enabled,
            modes: copy_modes(&info.modes),
            current_mode,
            position: match mapped {
                Some(m) => Some((m.geo.loc.x, m.geo.loc.y)),
                None => None,
            },
            scale_120: info.scale_120,
            transform: int_to_transform(info.transform),
        }
    }

    /// Refresh output management protocol if output heads changed: the new state, once.
    pub fn refresh_output_management(&mut self) -> (r: Option<Vec<OutputHeadState>>)
        requires
            old(self).wf(),
        ensures
            final(self).wf(),
            *final(self) == (Ewm { output_heads_changed: false, ..*old(self) }),
            r is Some == old(self).output_heads_changed,
            r matches Some(heads) ==> {
                &&& heads@.len() == old(self).outputs@.len()
                &&& forall|i: int|
                    0 <= i < heads@.len() ==> shows_output(
                        #[trigger] heads@[i],
                        old(self).outputs@[i],
                        *old(self),
                    )
            },
    {
        if !self.output_heads_changed {
            return None;
        }
        let heads = self.build_output_head_states();
        self.output_heads_changed = false;
        Some(heads)
    }

    /// The windows as taskbars see them.
    pub fn refresh_foreign_toplevel(&self) -> (r: Vec<WindowInfo>)
        requires
            self.wf(),
        ensures
            ({
                let ids = described(self.windows.entries@, self.surface_info@);
                &&& r@.len() == ids.len()
                &&& forall|i: int|
                    0 <= i < r@.len() ==> shows_window(#[trigger] r@[i], ids[i], *self)
            }),
    {
        let ghost all = self.windows.entries@;
        let mut list: Vec<WindowInfo> = Vec::new();
        let mut i: usize = 0;
        assert(all.subrange(0, 0) =~= Seq::<(u64, WindowState)>::empty());
        while i < self.windows.entries.len()
            invariant
                self.wf(),
                all == self.windows.entries@,
                i <= all.len(),
                list@.len() == described(all.subrange(0, i as int), self.surface_info@).len(),
                forall|j: int|
                    0 <= j < list@.len() ==> shows_window(
                        #[trigger] list@[j],
                        described(all.subrange(0, i as int), self.surface_info@)[j],
                        *self,
                    ),
            decreases all.len() - i,
        {
            let ghost post = all.subrange(0, i + 1);
            assert(post.drop_last() =~= all.subrange(0, i as int));
            let id: u64 = self.windows.entries[i].0;
            match self.surface_info.get(id) {
                Some(info) => {
                    let title = if info.title.as_str().unicode_len() == 0 {
                        None
                    } else {
                        Some(info.title.clone())
                    };
                    let ghost prev = list@;
                    list.push(
                        WindowInfo {
                            id,
                            title,
                            app_id: info.app_id.clone(),
                            output: self.find_surface_output(id),
                            is_focused: self.focused_surface_id == id,
                            is_fullscreen: self.layouts.is_surface_fullscreen(id),
                        },
                    );
                    assert(forall|j: int| 0 <= j < prev.len() ==> #[trigger] list@[j] == prev[j]);
                },
                None => {},
            }
            i = i + 1;
        }
        assert(all.subrange(0, i as int) =~= all);
        list
    }

    /// Get working areas as plain structs for state dump.
    pub fn get_working_areas_info(&self) -> (r: Vec<WorkingAreaInfo>)
        ensures
            r@.len() == self.working_areas.entries@.len(),
            forall|i: int|
                0 <= i < r@.len() ==> {
                    let (name, rect) = self.working_areas.entries@[i];
                    #[trigger] r@[i] == (WorkingAreaInfo {
                        output: name,
                        x: rect.loc.x,
                        y: rect.loc.y,
                        width: rect.size.w,
                        height: rect.size.h,
                    })
                },
    {
        let mut list: Vec<WorkingAreaInfo> = Vec::new();
        let mut i: usize = 0;
        while i < self.working_areas.entries.len()
            invariant
                i <= self.working_areas.entries@.len(),
                list@.len() == i,
                forall|j: int|
                    0 <= j < i ==> {
                        let (name, rect) = self.working_areas.entries@[j];
                        #[trigger] list@[j] == (WorkingAreaInfo {
                            output: name,
                            x: rect.loc.x,
                            y: rect.loc.y,
                            width: rect.size.w,
                            height: rect.size.h,
                        })
                    },
            decreases self.working_areas.entries@.len() - i,
        {
            let rect: Rect = self.working_areas.entries[i].1;
            list.push(
                WorkingAreaInfo {
                    output: self.working_areas.entries[i].0.clone(),
                    x: rect.loc.x,
                    y: rect.loc.y,
                    width: rect.size.w,
                    height: rect.size.h,
                },
            );
            i = i + 1;
        }
        list
    }
}

/// One pass over the outputs whose redraw is due, the one with the focus first.
#[derive(Debug)]
pub struct RenderPass {
    /// The output of the focused surface.
    pub focused: Option<String>,
    pub rendered_focused: bool,
}

impl RenderPass {
    pub open spec fn is_focused(&self, output: Seq<char>) -> bool {
        self.focused is Some && self.focused->0@ == output
    }

    /// Begins a pass.
    pub fn begin(ewm: &Ewm) -> (r: RenderPass)
        requires
            ewm.wf(),
        ensures
            name_view(r.focused) == super::focus::focused_output(*ewm),
            !r.rendered_focused,
    {
        RenderPass { focused: ewm.get_focused_output(), rendered_focused: false }
    }

    /// The output to be rendered next.
    pub fn next(&self, ewm: &Ewm) -> (r: Option<String>)
        ensures
            match r {
                Some(name) => ewm.monitors_active && exists|i: int|
                    #![trigger ewm.output_state.entries@[i]]
                    name == ewm.output_state.entries@[i].0 && (if self.focused is Some && any_due(
                        ewm.output_state.entries@,
                        Some(self.focused->0@),
                    ) {
                        first_due(ewm.output_state.entries@, Some(self.focused->0@), i)
                    } else {
                        first_due(ewm.output_state.entries@, None, i)
                    }),
                None => !ewm.redraw_ready(None),
            },
    {
        match &self.focused {
            Some(f) => ewm.next_queued_redraw(Some(f.as_str())),
            None => ewm.next_queued_redraw(None),
        }
    }

    /// Whether commands that arrived meanwhile come before this output. If there are any, they
    /// are handled and the rest of the pass is put off.
    pub fn yields_before(&self, output: &str) -> (r: bool)
        ensures
            r == (self.rendered_focused && !self.is_focused(output@)),
    {
        if !self.rendered_focused {
            return false;
        }
        match &self.focused {
            Some(f) => !str_eq(f.as_str(), output),
            None => true,
        }
    }

    /// The output was rendered.
    pub fn rendered(&mut self, output: &str)
        ensures
            *final(self) == (RenderPass {
                rendered_focused: old(self).rendered_focused || old(self).is_focused(output@),
                focused: old(self).focused,
            }),
    {
        let hit = match &self.focused {
            Some(f) => str_eq(f.as_str(), output),
            None => false,
        };
        if hit {
            self.rendered_focused = true;
        }
    }
}

/// The output with the focus never waits for another: while its redraw is due, it is the next
/// one, and the pass is not put off before it.
pub proof fn law_focused_output_goes_first(pass: RenderPass, ewm: Ewm, i: int)
    requires
        pass.focused is Some,
        any_due(ewm.output_state.entries@, Some(pass.focused->0@)),
        first_due(ewm.output_state.entries@, Some(pass.focused->0@), i),
    ensures
        pass.is_focused(ewm.output_state.entries@[i].0@),
        !(pass.rendered_focused && !pass.is_focused(ewm.output_state.entries@[i].0@)),
{
}

} // verus!
