//! What Emacs asks of the compositor, and what the two share.
use super::focus::focus_synced;
use super::idle::idle_configured;
use super::layouts::layout_applied;
use super::{focus_set, Ewm, IdleAction};
use crate::backend::{int_to_transform, Transform};
use crate::effect::Effect;
use crate::event::Event;
use crate::geometry::{Point, Rect, Size};
use crate::im_relay::ImEvent;
use crate::input::{DeviceType, InputConfigEntry};
use crate::layout::{LayoutEntry, MappedOutput};
use crate::module::{ActiveOutput, ModuleCommand, TabInfo};
use crate::outputs::{default_config, OutputConfig};
use crate::tables::NameMap;
use crate::text::{pieces, split, str_eq, trim, trimmed, views};
use crate::time::Duration;
use vstd::prelude::*;
use vstd::string::*;

verus! {

/// Where a screenshot goes if no path is given.
pub open spec fn default_screenshot() -> Seq<char> {
    "/tmp/ewm-screenshot.png"@
}

/// What a `ConfigureOutput` command says of an output.
#[derive(Clone, Copy, Debug)]
pub struct OutputSettings {
    pub x: Option<i32>,
    pub y: Option<i32>,
    pub width: Option<i32>,
    pub height: Option<i32>,
    pub refresh: Option<i32>,
    pub scale_120: Option<u32>,
    pub transform: Option<i32>,
    pub enabled: Option<bool>,
}

/// The value, or what stands for it.
pub open spec fn or_int(v: Option<i32>, d: int) -> i32 {
    match v {
        Some(x) => x,
        None => d as i32,
    }
}

/// A configuration with the settings merged into it. What is left out of a mode or position is
/// taken from the mapped output, else from a fixed mode and the origin.
pub open spec fn merged(
    c: OutputConfig,
    s: OutputSettings,
    current: Option<MappedOutput>,
) -> OutputConfig {
    let size = match current {
        Some(m) => match m.mode_size {
            Some(z) => z,
            None => Size { w: 1920, h: 1080 },
        },
        None => Size { w: 1920, h: 1080 },
    };
    let at = match current {
        Some(m) => m.geo.loc,
        None => Point { x: 0, y: 0 },
    };
    OutputConfig {
        mode: if s.width is Some || s.height is Some || s.refresh is Some {
            Some((or_int(s.width, size.w as int), or_int(s.height, size.h as int), s.refresh))
        } else {
            c.mode
        },
        position: if s.x is Some || s.y is Some {
            Some((or_int(s.x, at.x as int), or_int(s.y, at.y as int)))
        } else {
            c.position
        },
        scale_120: if s.scale_120 is Some {
            s.scale_120
        } else {
            c.scale_120
        },
        transform: match s.transform {
            Some(t) => Some(Transform::numbered(t as int)),
            None => c.transform,
        },
        enabled: match s.enabled {
            Some(e) => e,
            None => c.enabled,
        },
    }
}

fn value_or(v: Option<i32>, d: i32) -> (r: i32)
    ensures
        r == or_int(v, d as int),
{
    match v {
        Some(x) => x,
        None => d,
    }
}

/// Merges settings into a configuration.
pub fn merge_output_config(c: OutputConfig, s: &OutputSettings, current: Option<MappedOutput>) -> (r:
    OutputConfig)
    ensures
        r == merged(c, *s, current),
{
    let fallback = Size { w: 1920, h: 1080 };
    let (size, at) = match current {
        Some(m) => (
            match m.mode_size {
                Some(z) => z,
                None => fallback,
            },
            m.geo.loc,
        ),
        None => (fallback, Point { x: 0, y: 0 }),
    };
    let mut out = c;
    if s.width.is_some() || s.height.is_some() || s.refresh.is_some() {
        out.mode = Some((value_or(s.width, size.w), value_or(s.height, size.h), s.refresh));
    }
    if s.x.is_some() || s.y.is_some() {
        out.position = Some((value_or(s.x, at.x), value_or(s.y, at.y)));
    }
    if s.scale_120.is_some() {
        out.scale_120 = s.scale_120;
    }
    match s.transform {
        Some(t) => {
            out.transform = Some(int_to_transform(t));
        },
        None => {},
    }
    match s.enabled {
        Some(e) => {
            out.enabled = e;
        },
        None => {},
    }
    out
}

/// The first name in the list that is the one looked for.
pub open spec fn index_of_name(names: Seq<String>, name: Seq<char>) -> Option<usize>
    decreases names.len(),
{
    if names.len() == 0 {
        None
    } else if index_of_name(names.drop_last(), name) is Some {
        index_of_name(names.drop_last(), name)
    } else if names.last()@ == name {
        Some((names.len() - 1) as usize)
    } else {
        None
    }
}

fn find_name(names: &Vec<String>, name: &str) -> (r: Option<usize>)
    ensures
        r == index_of_name(names@, name@),
        r matches Some(i) ==> i < names@.len() && names@[i as int]@ == name@,
{
    let mut found: Option<usize> = None;
    let mut i: usize = 0;
    while i < names.len()
        invariant
            i <= names@.len(),
            found == index_of_name(names@.subrange(0, i as int), name@),
            found matches Some(k) ==> k < i && names@[k as int]@ == name@,
        decreases names@.len() - i,
    {
        assert(names@.subrange(0, i + 1).drop_last() =~= names@.subrange(0, i as int));
        if found.is_none() && str_eq(names[i].as_str(), name) {
            found = Some(i);
        }
        i = i + 1;
    }
    assert(names@.subrange(0, i as int) =~= names@);
    found
}

/// Copies a list of names.
pub fn copy_names(names: &Vec<String>) -> (r: Vec<String>)
    ensures
        r@ == names@,
{
    let mut out: Vec<String> = Vec::new();
    let mut i: usize = 0;
    while i < names.len()
        invariant
            i <= names@.len(),
            out@ == names@.subrange(0, i as int),
        decreases names@.len() - i,
    {
        out.push(names[i].clone());
        i = i + 1;
        assert(out@ =~= names@.subrange(0, i as int));
    }
    assert(names@.subrange(0, i as int) =~= names@);
    out
}

/// The pieces without white space around them, and without the empty ones.
pub open spec fn nonempty_trimmed(p: Seq<Seq<char>>) -> Seq<Seq<char>>
    decreases p.len(),
{
    if p.len() == 0 {
        Seq::empty()
    } else {
        let head = nonempty_trimmed(p.drop_last());
        if trimmed(p.last()).len() > 0 {
            head.push(trimmed(p.last()))
        } else {
            head
        }
    }
}

/// The keyboard layouts that a comma-separated list names.
pub open spec fn layout_names(list: Seq<char>) -> Seq<Seq<char>> {
    nonempty_trimmed(pieces(list, ','))
}

/// Reads a comma-separated list of keyboard layouts.
pub fn parse_layout_names(list: &str) -> (r: Vec<String>)
    ensures
        views(r@) == layout_names(list@),
{
    let parts = split(list, ',');
    let ghost p = views(parts@);
    let mut out: Vec<String> = Vec::new();
    let mut i: usize = 0;
    assert(p.subrange(0, 0) =~= Seq::<Seq<char>>::empty());
    assert(views(out@) =~= nonempty_trimmed(p.subrange(0, 0)));
    while i < parts.len()
        invariant
            p == views(parts@),
            i <= parts@.len(),
            views(out@) == nonempty_trimmed(p.subrange(0, i as int)),
        decreases parts@.len() - i,
    {
        let ghost post = p.subrange(0, i + 1);
        assert(post.drop_last() =~= p.subrange(0, i as int));
        assert(post.last() == parts@[i as int]@);
        let name = trim(parts[i].as_str());
        let ghost prev = out@;
        let ghost n = name@;
        if name.as_str().unicode_len() > 0 {
            out.push(name);
            assert(views(out@) =~= views(prev).push(n));
        }
        i = i + 1;
    }
    assert(p.subrange(0, i as int) =~= p);
    out
}

/// The first entry that is about keyboards.
pub open spec fn keyboard_entry(configs: Seq<InputConfigEntry>) -> Option<InputConfigEntry>
    decreases configs.len(),
{
    if configs.len() == 0 {
        None
    } else if keyboard_entry(configs.drop_last()) is Some {
        keyboard_entry(configs.drop_last())
    } else if configs.last().device_type == Some(DeviceType::Keyboard) {
        Some(configs.last())
    } else {
        None
    }
}

fn find_keyboard(configs: &Vec<InputConfigEntry>) -> (r: Option<usize>)
    ensures
        match r {
            Some(i) => i < configs@.len() && keyboard_entry(configs@) == Some(configs@[i as int]),
            None => keyboard_entry(configs@) is None,
        },
{
    let mut found: Option<usize> = None;
    let mut i: usize = 0;
    while i < configs.len()
        invariant
            i <= configs@.len(),
            match found {
                Some(k) => k < i && keyboard_entry(configs@.subrange(0, i as int)) == Some(
                    configs@[k as int],
                ),
                None => keyboard_entry(configs@.subrange(0, i as int)) is None,
            },
        decreases configs@.len() - i,
    {
        assert(configs@.subrange(0, i + 1).drop_last() =~= configs@.subrange(0, i as int));
        if found.is_none() {
            match configs[i].device_type {
                Some(t) => {
                    if t == DeviceType::Keyboard {
                        found = Some(i);
                    }
                },
                None => {},
            }
        }
        i = i + 1;
    }
    assert(configs@.subrange(0, i as int) =~= configs@);
    found
}

/// The key repeat that the entry asks for; what is left out is 25 per second after 200 ms.
pub open spec fn repeat_effects(kb: Option<InputConfigEntry>) -> Seq<Effect> {
    match kb {
        Some(k) => if k.repeat_rate is Some || k.repeat_delay is Some {
            seq![
                Effect::SetKeyRepeat {
                    rate: or_int(k.repeat_rate, 25),
                    delay: or_int(k.repeat_delay, 200),
                },
            ]
        } else {
            Seq::empty()
        },
        None => Seq::empty(),
    }
}

/// The keyboard layouts that the entry asks for, if it names any.
pub open spec fn xkb_effects(kb: Option<InputConfigEntry>) -> Seq<Effect> {
    match kb {
        Some(k) => match k.xkb_layouts {
            Some(layouts) => if layout_names(layouts@).len() > 0 {
                seq![Effect::SetXkbConfig { layouts, options: k.xkb_options }]
            } else {
                Seq::empty()
            },
            None => Seq::empty(),
        },
        None => Seq::empty(),
    }
}

/// What an idle command stands for.
pub open spec fn idle_action(action: String, a: IdleAction) -> bool {
    if action@ == "blank"@ {
        a is DeactivateMonitors
    } else {
        a == IdleAction::RunCommand(action)
    }
}

pub open spec fn idle_timeout_of(timeout_secs: Option<u64>, t: Option<Duration>) -> bool {
    match timeout_secs {
        Some(s) => t is Some && t->0@ == s * 1_000_000_000,
        None => t is None,
    }
}

/// The state `after` is `before` with one more thing to be done outside.
pub open spec fn emitted(before: Ewm, after: Ewm, e: Effect) -> bool {
    &&& after == (Ewm { effects: after.effects, ..before })
    &&& after.effects@ == before.effects@.push(e)
}

/// The state `after` is `before` with the settings of an output stored and applied.
pub open spec fn output_configured(
    before: Ewm,
    after: Ewm,
    name: String,
    s: OutputSettings,
) -> bool {
    let c = if before.output_config@.contains_key(name@) {
        before.output_config@[name@]
    } else {
        default_config()
    };
    let current = if before.space@.contains_key(name@) {
        Some(before.space@[name@])
    } else {
        None
    };
    &&& after == (Ewm { output_config: after.output_config, effects: after.effects, ..before })
    &&& after.output_config.entries@ == before.output_config.entries_with(
        name,
        merged(c, s, current),
    )
    &&& after.effects@ == before.effects@.push(Effect::ApplyOutputConfig { output: name })
}

/// The state `after` is `before` with the keyboard layout switched, if there is such a layout.
pub open spec fn layout_switched(before: Ewm, after: Ewm, layout: String) -> bool {
    match index_of_name(before.xkb_layout_names@, layout@) {
        Some(index) => {
            &&& after == (Ewm { xkb_current_layout: index, effects: after.effects, ..before })
            &&& after.effects@ == before.effects@.push(Effect::SetKeyboardLayout { index }).push(
                Effect::Event(Event::LayoutSwitched { layout, index }),
            )
        },
        None => after == before,
    }
}

/// The state `after` is `before` with the keyboard layouts told to Emacs.
pub open spec fn layouts_told(before: Ewm, after: Ewm) -> bool {
    &&& after == (Ewm { effects: after.effects, ..before })
    &&& exists|layouts: Vec<String>|
        {
            &&& layouts@ == before.xkb_layout_names@
            &&& after.effects@ == #[trigger] before.effects@.push(
                Effect::Event(Event::Layouts { layouts, current: before.xkb_current_layout }),
            )
        }
}

/// The state `after` is `before` with the layout of an output applied, the pointer's focus looked
/// up again and the tabs stored.
pub open spec fn layout_stored(
    before: Ewm,
    after: Ewm,
    output: String,
    surfaces: Vec<LayoutEntry>,
    tabs: Vec<TabInfo>,
) -> bool {
    exists|mid: Ewm|
        {
            &&& #[trigger] layout_taken(before, mid, output, surfaces)
            &&& after == (Ewm {
                output_workspaces: after.output_workspaces,
                effects: after.effects,
                ..mid
            })
            &&& after.output_workspaces.entries@ == mid.output_workspaces.entries_with(
                output,
                tabs,
            )
            &&& after.effects@ == mid.effects@.push(Effect::RefreshPointerFocus)
        }
}

/// The state `after` is `before` with the layout applied, if the output is mapped.
pub open spec fn layout_taken(
    before: Ewm,
    after: Ewm,
    output: String,
    surfaces: Vec<LayoutEntry>,
) -> bool {
    if before.space@.contains_key(output@) {
        layout_applied(before, after, output, surfaces)
    } else {
        after == before
    }
}

/// The state `after` is `before` with input devices configured.
pub open spec fn input_configured(
    before: Ewm,
    after: Ewm,
    configs: Vec<InputConfigEntry>,
) -> bool {
    let kb = keyboard_entry(configs@);
    &&& after == (Ewm { input_configs: configs, effects: after.effects, ..before })
    &&& after.effects@ == before.effects@.push(Effect::ReapplyInputConfig) + repeat_effects(kb)
        + xkb_effects(kb)
}

/// The state `after` is `before` with the command carried out at the time `now`.
pub open spec fn command_handled(
    before: Ewm,
    after: Ewm,
    cmd: ModuleCommand,
    now: Duration,
) -> bool {
    match cmd {
        ModuleCommand::Close { id } => if before.windows@.contains_key(id) {
            emitted(before, after, Effect::SendClose { id })
        } else {
            after == before
        },
        ModuleCommand::Focus { id } => if before.focused_surface_id != id
            && before.windows@.contains_key(id) {
            focus_set(before, after, id, false, "emacs_command"@, None)
        } else {
            after == before
        },
        ModuleCommand::WarpPointer { x_bits, y_bits } => emitted(
            before,
            after,
            Effect::WarpPointer { x_bits, y_bits },
        ),
        ModuleCommand::Screenshot { path } => {
            &&& after == (Ewm { pending_screenshot: after.pending_screenshot, ..before })
            &&& after.pending_screenshot is Some
            &&& match path {
                Some(p) => after.pending_screenshot == Some(p),
                None => after.pending_screenshot->0@ == default_screenshot(),
            }
        },
        ModuleCommand::ConfigureOutput {
            name,
            x,
            y,
            width,
            height,
            refresh,
            scale_120,
            transform,
            enabled,
        } => output_configured(
            before,
            after,
            name,
            OutputSettings { x, y, width, height, refresh, scale_120, transform, enabled },
        ),
        ModuleCommand::ImCommit { text, surface_id } => emitted(
            before,
            after,
            Effect::CommitText { text, keep: true },
        ),
        ModuleCommand::TextInputIntercept { enabled } => after == (Ewm {
            text_input_intercept: enabled,
            ..before
        }),
        ModuleCommand::SwitchLayout { layout } => layout_switched(before, after, layout),
        ModuleCommand::GetLayouts => layouts_told(before, after),
        ModuleCommand::GetDebugState => emitted(before, after, Effect::DumpState),
        ModuleCommand::CreateActivationToken => emitted(
            before,
            after,
            Effect::CreateActivationToken,
        ),
        ModuleCommand::SetSelection { text } => emitted(
            before,
            after,
            Effect::SetSelection { text },
        ),
        ModuleCommand::OutputLayout { output, surfaces, tabs } => layout_stored(
            before,
            after,
            output,
            surfaces,
            tabs,
        ),
        ModuleCommand::ConfigureInput { configs } => input_configured(before, after, configs),
        ModuleCommand::ConfigureIdle { timeout_secs, action } => exists|
            t: Option<Duration>,
            a: IdleAction,
        | #[trigger]
            idle_configured(before, after, t, a, now) && idle_timeout_of(timeout_secs, t)
                && idle_action(action, a),
    }
}

/// Commands of Emacs that are handled one by one, oldest first. What a command asks to be done
/// outside is done before the next one, which may build on it.
pub struct CommandBatch {
    pub rest: Vec<ModuleCommand>,
    /// Some command of the batch was handled.
    pub started: bool,
}

/// How far a batch has come.
#[derive(Clone, Copy, Debug, PartialEq, Eq, Structural)]
pub enum BatchStep {
    /// One more command was handled.
    Handled,
    /// All commands were handled before, and the keyboard focus is in sync now.
    Done,
    /// There was no command.
    Empty,
}

impl CommandBatch {
    /// A batch of which nothing was handled yet.
    pub fn new(commands: Vec<ModuleCommand>) -> (r: Self)
        ensures
            r.rest == commands,
            !r.started,
    {
        CommandBatch { rest: commands, started: false }
    }
}

impl Ewm {
    /// Handle a module command (from Emacs via dynamic module).
    pub fn handle_module_command(&mut self, cmd: ModuleCommand, now: Duration)
        requires
            old(self).wf(),
        ensures
            final(self).wf(),
            command_handled(*old(self), *final(self), cmd, now),
    {
        match cmd {
            ModuleCommand::Close { id } => {
                if self.windows.contains(id) {
                    self.emit(Effect::SendClose { id });
                }
            },
            ModuleCommand::Focus { id } => {
                if self.focused_surface_id != id && self.windows.contains(id) {
                    self.set_focus(id, false, "emacs_command", None);
                }
            },
            ModuleCommand::WarpPointer { x_bits, y_bits } => {
                self.emit(Effect::WarpPointer { x_bits, y_bits });
            },
            ModuleCommand::Screenshot { path } => {
                let target = match path {
                    Some(p) => p,
                    None => "/tmp/ewm-screenshot.png".to_owned(),
                };
                self.pending_screenshot = Some(target);
            },
            ModuleCommand::ConfigureOutput {
                name,
                x,
                y,
                width,
                height,
                refresh,
                scale_120,
                transform,
                enabled,
            } => {
                let s = OutputSettings {
                    x,
                    y,
                    width,
                    height,
                    refresh,
                    scale_120,
                    transform,
                    enabled,
                };
                self.configure_output(name, &s);
            },
            ModuleCommand::ImCommit { text, surface_id } => {
                self.emit(Effect::CommitText { text, keep: true });
            },
            ModuleCommand::TextInputIntercept { enabled } => {
                self.text_input_intercept = enabled;
            },
            ModuleCommand::SwitchLayout { layout } => {
                self.switch_layout(layout);
            },
            ModuleCommand::GetLayouts => {
                let layouts = copy_names(&self.xkb_layout_names);
                let current: usize = self.xkb_current_layout;
                self.queue_event(Event::Layouts { layouts, current });
            },
            ModuleCommand::GetDebugState => {
                self.emit(Effect::DumpState);
            },
            ModuleCommand::CreateActivationToken => {
                self.emit(Effect::CreateActivationToken);
            },
            ModuleCommand::SetSelection { text } => {
                self.emit(Effect::SetSelection { text });
            },
            ModuleCommand::OutputLayout { output, surfaces, tabs } => {
                self.store_layout(output, surfaces, tabs);
            },
            ModuleCommand::ConfigureInput { configs } => {
                self.configure_input(configs);
            },
            ModuleCommand::ConfigureIdle { timeout_secs, action } => {
                let timeout = match timeout_secs {
                    Some(s) => Some(Duration::from_secs(s)),
                    None => None,
                };
                let act = if str_eq(action.as_str(), "blank") {
                    IdleAction::DeactivateMonitors
                } else {
                    IdleAction::RunCommand(action)
                };
                self.configure_idle(timeout, act, now);
            },
        }
    }

    fn configure_output(&mut self, name: String, s: &OutputSettings)
        requires
            old(self).wf(),
        ensures
            final(self).wf(),
            output_configured(*old(self), *final(self), name, *s),
    {
        let config = match self.output_config.get(name.as_str()) {
            Some(c) => *c,
            None => OutputConfig::default(),
        };
        let current: Option<MappedOutput> = match self.space.get(name.as_str()) {
            Some(m) => Some(*m),
            None => None,
        };
        let new_config = merge_output_config(config, s, current);
        self.output_config.insert(&name, new_config);
        self.emit(Effect::ApplyOutputConfig { output: name });
    }

    fn switch_layout(&mut self, layout: String)
        requires
            old(self).wf(),
        ensures
            final(self).wf(),
            layout_switched(*old(self), *final(self), layout),
    {
        match find_name(&self.xkb_layout_names, layout.as_str()) {
            Some(index) => {
                self.emit(Effect::SetKeyboardLayout { index });
                self.xkb_current_layout = index;
                self.queue_event(Event::LayoutSwitched { layout, index });
            },
            None => {},
        }
    }

    fn store_layout(&mut self, output: String, surfaces: Vec<LayoutEntry>, tabs: Vec<TabInfo>)
        requires
            old(self).wf(),
        ensures
            final(self).wf(),
            layout_stored(*old(self), *final(self), output, surfaces, tabs),
    {
        let ghost before = *self;
        self.apply_output_layout(&output, surfaces);
        assert(layout_taken(before, *self, output, surfaces));
        self.emit(Effect::RefreshPointerFocus);
        self.output_workspaces.insert(&output, tabs);
    }

    fn configure_input(&mut self, configs: Vec<InputConfigEntry>)
        requires
            old(self).wf(),
        ensures
            final(self).wf(),
            input_configured(*old(self), *final(self), configs),
    {
        let ghost before = *self;
        let ghost kb = keyboard_entry(configs@);
        let found = find_keyboard(&configs);
        let (rate, delay, layouts, options): (
            Option<i32>,
            Option<i32>,
            Option<String>,
            Option<String>,
        ) = match found {
            Some(i) => (
                configs[i].repeat_rate,
                configs[i].repeat_delay,
                copy_opt(&configs[i].xkb_layouts),
                copy_opt(&configs[i].xkb_options),
            ),
            None => (None, None, None, None),
        };
        self.input_configs = configs;
        self.emit(Effect::ReapplyInputConfig);
        if rate.is_some() || delay.is_some() {
            self.emit(
                Effect::SetKeyRepeat { rate: value_or(rate, 25), delay: value_or(delay, 200) },
            );
        }
        assert(self.effects@ =~= before.effects@.push(Effect::ReapplyInputConfig)
            + repeat_effects(kb));
        let ghost mid = self.effects@;
        match layouts {
            Some(list) => {
                let names = parse_layout_names(list.as_str());
                assert(views(names@).len() == names@.len());
                if names.len() > 0 {
                    self.emit(Effect::SetXkbConfig { layouts: list, options });
                }
            },
            None => {},
        }
        assert(self.effects@ =~= mid + xkb_effects(kb));
    }

    /// The keyboard layouts of this list were put in place.
    pub fn xkb_configured(&mut self, list: &str)
        requires
            old(self).wf(),
        ensures
            final(self).wf(),
            *final(self) == (Ewm {
                xkb_layout_names: final(self).xkb_layout_names,
                xkb_current_layout: 0,
                effects: final(self).effects,
                ..*old(self)
            }),
            views(final(self).xkb_layout_names@) == layout_names(list@),
            exists|layouts: Vec<String>|
                {
                    &&& layouts@ == final(self).xkb_layout_names@
                    &&& final(self).effects@ == #[trigger] old(self).effects@.push(
                        Effect::Event(Event::Layouts { layouts, current: 0 }),
                    )
                },
    {
        let names = parse_layout_names(list);
        let told = copy_names(&names);
        self.xkb_layout_names = names;
        self.xkb_current_layout = 0;
        self.queue_event(Event::Layouts { layouts: told, current: 0 });
    }

    /// Text could not be delivered because no text field was active: it is kept for the next one.
    pub fn commit_undelivered(&mut self, text: String)
        requires
            old(self).wf(),
        ensures
            final(self).wf(),
            *final(self) == (Ewm {
                pending_im_commits: final(self).pending_im_commits,
                ..*old(self)
            }),
            final(self).pending_im_commits@ == old(self).pending_im_commits@.push(text),
    {
        self.pending_im_commits.push(text);
    }

    /// Dispatches the next pending command, or syncs keyboard focus after the last one. Called
    /// again after each command that was handled.
    pub fn process_pending_commands(&mut self, batch: &mut CommandBatch, now: Duration) -> (r:
        BatchStep)
        requires
            old(self).wf(),
        ensures
            final(self).wf(),
            if old(batch).rest@.len() > 0 {
                &&& r == BatchStep::Handled
                &&& command_handled(*old(self), *final(self), old(batch).rest@[0], now)
                &&& final(batch).rest@ == old(batch).rest@.skip(1)
                &&& final(batch).started
            } else if old(batch).started {
                &&& r == BatchStep::Done
                &&& focus_synced(*old(self), *final(self))
                &&& *final(batch) == *old(batch)
            } else {
                &&& r == BatchStep::Empty
                &&& *final(self) == *old(self)
                &&& *final(batch) == *old(batch)
            },
    {
        if batch.rest.len() > 0 {
            let cmd = batch.rest.remove(0);
            assert(batch.rest@ =~= old(batch).rest@.skip(1));
            batch.started = true;
            self.handle_module_command(cmd, now);
            BatchStep::Handled
        } else if batch.started {
            self.sync_keyboard_focus();
            BatchStep::Done
        } else {
            BatchStep::Empty
        }
    }

    /// Handles what the input method relay reported, oldest first.
    pub fn process_im_events(&mut self, events: &Vec<ImEvent>)
        requires
            old(self).wf(),
        ensures
            final(self).wf(),
            im_handled(*old(self), *final(self), events@),
    {
        let ghost before = *self;
        let mut i: usize = 0;
        assert(events@.subrange(0, 0) =~= Seq::<ImEvent>::empty());
        while i < events.len()
            invariant
                self.wf(),
                i <= events@.len(),
                im_handled(before, *self, events@.subrange(0, i as int)),
            decreases events@.len() - i,
        {
            let ghost prev = *self;
            self.process_im_event(events[i]);
            proof {
                let post = events@.subrange(0, i + 1);
                assert(post.drop_last() =~= events@.subrange(0, i as int));
                lemma_next_im_event(before, prev, *self, post);
            }
            i = i + 1;
        }
        assert(events@.subrange(0, i as int) =~= events@);
    }

    fn process_im_event(&mut self, event: ImEvent)
        requires
            old(self).wf(),
        ensures
            final(self).wf(),
            im_step(*old(self), *final(self), event),
    {
        let ghost before = *self;
        match event {
            ImEvent::Activated => {
                if !self.text_input_active {
                    self.text_input_active = true;
                    self.queue_event(Event::TextInputActivated);
                }
                if self.pending_im_commits.len() > 0 {
                    let text = join(&self.pending_im_commits);
                    self.pending_im_commits = Vec::new();
                    self.emit(Effect::CommitText { text, keep: false });
                    assert(self.effects@ =~= before.effects@ + activation_told(
                        before.text_input_active,
                    ).push(Effect::CommitText { text, keep: false }));
                } else {
                    assert(self.effects@ =~= before.effects@ + activation_told(
                        before.text_input_active,
                    ));
                }
            },
            ImEvent::Deactivated => {
                if self.text_input_active {
                    self.text_input_active = false;
                    self.queue_event(Event::TextInputDeactivated);
                }
            },
        }
    }

    /// The outputs as Emacs sees them: each with the corner of its free area. `None` while
    /// nothing changed since the last time.
    pub fn update_shared_state(&mut self) -> (r: Option<Vec<(String, ActiveOutput)>>)
        requires
            old(self).wf(),
            origins_fit(*old(self)),
        ensures
            final(self).wf(),
            *final(self) == (Ewm { active_outputs_dirty: false, ..*old(self) }),
            r is Some == old(self).active_outputs_dirty,
            r matches Some(list) ==> {
                &&& list@.len() == old(self).space.entries@.len()
                &&& forall|i: int|
                    0 <= i < list@.len() ==> (#[trigger] list@[i]).0
                        == old(self).space.entries@[i].0 && list@[i].1.origin == origin_of(
                        *old(self),
                        i,
                    )
            },
    {
        if !self.active_outputs_dirty {
            return None;
        }
        self.active_outputs_dirty = false;
        let mut list: Vec<(String, ActiveOutput)> = Vec::new();
        let ghost before = *old(self);
        let mut i: usize = 0;
        while i < self.space.entries.len()
            invariant
                self.wf(),
                self.space == before.space,
                self.working_areas == before.working_areas,
                origins_fit(before),
                i <= self.space.entries@.len(),
                list@.len() == i,
                forall|j: int|
                    0 <= j < i ==> (#[trigger] list@[j]).0 == before.space.entries@[j].0
                        && list@[j].1.origin == origin_of(before, j),
            decreases self.space.entries@.len() - i,
        {
            let geo: Rect = self.space.entries[i].1.geo;
            assert(origin_fits(before, i as int));
            let origin = match self.working_areas.get(self.space.entries[i].0.as_str()) {
                Some(wa) => (geo.loc.x + wa.loc.x, geo.loc.y + wa.loc.y),
                None => (geo.loc.x, geo.loc.y),
            };
            list.push((self.space.entries[i].0.clone(), ActiveOutput { origin }));
            i = i + 1;
        }
        Some(list)
    }
}

/// The corner of an output's free area, or of the output where no area was noted yet.
pub open spec fn origin_of(e: Ewm, i: int) -> (i32, i32) {
    let name = e.space.entries@[i].0@;
    let at = e.space.entries@[i].1.geo.loc;
    if e.working_areas@.contains_key(name) {
        let area = e.working_areas@[name].loc;
        ((at.x + area.x) as i32, (at.y + area.y) as i32)
    } else {
        (at.x, at.y)
    }
}

pub open spec fn origin_fits(e: Ewm, i: int) -> bool {
    let name = e.space.entries@[i].0@;
    let at = e.space.entries@[i].1.geo.loc;
    let area = e.working_areas@[name].loc;
    e.working_areas@.contains_key(name) ==> i32::MIN <= at.x + area.x <= i32::MAX && i32::MIN
        <= at.y + area.y <= i32::MAX
}

/// The corners of the noted free areas are 32-bit numbers.
pub open spec fn origins_fit(e: Ewm) -> bool {
    forall|i: int| 0 <= i < e.space.entries@.len() ==> #[trigger] origin_fits(e, i)
}

/// The texts one after the other.
pub open spec fn joined(texts: Seq<String>) -> Seq<char>
    decreases texts.len(),
{
    if texts.len() == 0 {
        Seq::empty()
    } else {
        joined(texts.drop_last()) + texts.last()@
    }
}

fn join(texts: &Vec<String>) -> (r: String)
    ensures
        r@ == joined(texts@),
{
    let mut out = String::new();
    let mut i: usize = 0;
    assert(texts@.subrange(0, 0) =~= Seq::<String>::empty());
    while i < texts.len()
        invariant
            i <= texts@.len(),
            out@ == joined(texts@.subrange(0, i as int)),
        decreases texts@.len() - i,
    {
        assert(texts@.subrange(0, i + 1).drop_last() =~= texts@.subrange(0, i as int));
        out.append(texts[i].as_str());
        i = i + 1;
    }
    assert(texts@.subrange(0, i as int) =~= texts@);
    out
}

fn copy_opt(s: &Option<String>) -> (r: Option<String>)
    ensures
        r == *s,
{
    match s {
        Some(t) => Some(t.clone()),
        None => None,
    }
}

/// What Emacs is told when a text field becomes active.
pub open spec fn activation_told(was_active: bool) -> Seq<Effect> {
    if was_active {
        Seq::empty()
    } else {
        seq![Effect::Event(Event::TextInputActivated)]
    }
}

/// The state `after` is `before` with one event of the input method handled. An active text field
/// gets what was kept for it, joined.
pub open spec fn im_step(before: Ewm, after: Ewm, event: ImEvent) -> bool {
    match event {
        ImEvent::Activated => {
            &&& after == (Ewm {
                text_input_active: true,
                pending_im_commits: after.pending_im_commits,
                effects: after.effects,
                ..before
            })
            &&& after.pending_im_commits@.len() == 0
            &&& if before.pending_im_commits@.len() == 0 {
                after.effects@ == before.effects@ + activation_told(before.text_input_active)
            } else {
                exists|text: String|
                    text@ == joined(before.pending_im_commits@) && after.effects@
                        == before.effects@ + #[trigger] activation_told(
                        before.text_input_active,
                    ).push(Effect::CommitText { text, keep: false })
            }
        },
        ImEvent::Deactivated => {
            &&& after == (Ewm {
                text_input_active: false,
                effects: after.effects,
                ..before
            })
            &&& after.effects@ == if before.text_input_active {
                before.effects@.push(Effect::Event(Event::TextInputDeactivated))
            } else {
                before.effects@
            }
        },
    }
}

pub open spec fn im_handled(before: Ewm, after: Ewm, events: Seq<ImEvent>) -> bool
    decreases events.len(),
{
    if events.len() == 0 {
        after == before
    } else {
        exists|mid: Ewm|
            im_handled(before, mid, events.drop_last()) && #[trigger] im_step(
                mid,
                after,
                events.last(),
            )
    }
}

proof fn lemma_next_im_event(a: Ewm, b: Ewm, c: Ewm, events: Seq<ImEvent>)
    requires
        events.len() > 0,
        im_handled(a, b, events.drop_last()),
        im_step(b, c, events.last()),
    ensures
        im_handled(a, c, events),
{
}

/// A focus command for the focused surface, or for one that is not there, changes nothing.
pub proof fn law_idle_focus_commands(before: Ewm, after: Ewm, id: u64, now: Duration)
    requires
        id == before.focused_surface_id || !before.windows@.contains_key(id),
        command_handled(before, after, ModuleCommand::Focus { id }, now),
    ensures
        after == before,
{
}

/// Settings of one coordinate after the other add up: once the first is applied, a command for the
/// other coordinate keeps it.
pub proof fn law_settings_add_up(
    before: Ewm,
    stored: Ewm,
    applied: Ewm,
    after: Ewm,
    name: String,
    first: OutputSettings,
    second: OutputSettings,
)
    requires
        before.wf(),
        stored.wf(),
        applied.wf(),
        after.wf(),
        output_configured(before, stored, name, first),
        first.x is Some && first.y is None,
        applied.space@.contains_key(name@),
        stored.output_config@[name@].position == Some(
            (applied.space@[name@].geo.loc.x, applied.space@[name@].geo.loc.y),
        ),
        output_configured(applied, after, name, second),
        second.x is None && second.y is Some,
    ensures
        after.output_config@[name@].position == Some((first.x->0, second.y->0)),
{
    let c = if before.output_config@.contains_key(name@) {
        before.output_config@[name@]
    } else {
        default_config()
    };
    let current = if before.space@.contains_key(name@) {
        Some(before.space@[name@])
    } else {
        None
    };
    NameMap::lemma_entries_with(
        before.output_config,
        stored.output_config,
        name,
        merged(c, first, current),
    );
    let c2 = if applied.output_config@.contains_key(name@) {
        applied.output_config@[name@]
    } else {
        default_config()
    };
    NameMap::lemma_entries_with(
        applied.output_config,
        after.output_config,
        name,
        merged(c2, second, Some(applied.space@[name@])),
    );
}

/// A setting that a command leaves out stays as it was.
pub proof fn law_merge_keeps_the_rest(
    c: OutputConfig,
    s: OutputSettings,
    current: Option<MappedOutput>,
)
    ensures
        s.width is None && s.height is None && s.refresh is None ==> merged(c, s, current).mode
            == c.mode,
        s.x is None && s.y is None ==> merged(c, s, current).position == c.position,
        s.scale_120 is None ==> merged(c, s, current).scale_120 == c.scale_120,
        s.transform is None ==> merged(c, s, current).transform == c.transform,
        s.enabled is None ==> merged(c, s, current).enabled == c.enabled,
{
}

} // verus!
