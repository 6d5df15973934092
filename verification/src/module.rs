//! What Emacs and the compositor share: queues of commands and tokens, pending frame
//! assignments, intercepted keys and the focus history.
//!
//! Each structure stands for one that both threads reach under a lock; the functions here are
//! what happens while the lock is held, so none of them waits.
use crate::input::InputConfigEntry;
use crate::keys::InterceptedKey;
use crate::layout::LayoutEntry;
use std::collections::VecDeque;
use vstd::prelude::*;
use vstd::string::*;

verus! {

/// Tab info sent from Emacs for workspace protocol
#[derive(Clone, Debug)]
pub struct TabInfo {
    pub name: String,
    pub active: bool,
}

/// Commands sent from Emacs to the compositor via the module interface.
///
/// Coordinates and the scale of `ConfigureOutput` come from floating point numbers: coordinates
/// are carried as bit patterns, the scale in 120ths.
#[allow(inconsistent_fields)]
#[derive(Clone, Debug)]
pub enum ModuleCommand {
    Close { id: u64 },
    Focus { id: u64 },
    WarpPointer { x_bits: u64, y_bits: u64 },
    Screenshot { path: Option<String> },
    ConfigureOutput {
        name: String,
        x: Option<i32>,
        y: Option<i32>,
        width: Option<i32>,
        height: Option<i32>,
        refresh: Option<i32>,
        scale_120: Option<u32>,
        transform: Option<i32>,
        enabled: Option<bool>,
    },
    ImCommit { text: String, surface_id: u64 },
    TextInputIntercept { enabled: bool },
    SwitchLayout { layout: String },
    GetLayouts,
    /// Request verbose state dump for debugging
    GetDebugState,
    /// Request activation token creation (compositor will push to the token pool)
    CreateActivationToken,
    /// Set clipboard selection from Emacs
    SetSelection { text: String },
    /// Declarative per-output layout (includes workspace tab state)
    OutputLayout { output: String, surfaces: Vec<LayoutEntry>, tabs: Vec<TabInfo> },
    /// Configure input devices (unified)
    ConfigureInput { configs: Vec<InputConfigEntry> },
    /// Configure native idle timeout
    ConfigureIdle { timeout_secs: Option<u64>, action: String },
}

/// Commands that Emacs sent and the compositor has not handled yet, oldest first.
pub struct CommandQueue {
    pub commands: Vec<ModuleCommand>,
}

/// The target of the last `Focus` command.
pub open spec fn last_focus(cmds: Seq<ModuleCommand>) -> Option<u64>
    decreases cmds.len(),
{
    if cmds.len() == 0 {
        None
    } else {
        match cmds.last() {
            ModuleCommand::Focus { id } => Some(id),
            _ => last_focus(cmds.drop_last()),
        }
    }
}

/// The commands other than `Focus`, in order.
pub open spec fn other_commands(cmds: Seq<ModuleCommand>) -> Seq<ModuleCommand>
    decreases cmds.len(),
{
    if cmds.len() == 0 {
        Seq::empty()
    } else if cmds.last() is Focus {
        other_commands(cmds.drop_last())
    } else {
        other_commands(cmds.drop_last()).push(cmds.last())
    }
}

impl CommandQueue {
    pub fn new() -> (r: Self)
        ensures
            r.commands@.len() == 0,
    {
        CommandQueue { commands: Vec::new() }
    }

    /// Push a command to the queue.
    pub fn push_command(&mut self, cmd: ModuleCommand)
        ensures
            final(self).commands@ == old(self).commands@.push(cmd),
    {
        self.commands.push(cmd);
    }
}

/// Drain all pending commands from the queue.
/// Called by the compositor in its main loop.
pub fn drain_commands(queue: &mut CommandQueue) -> (r: Vec<ModuleCommand>)
    ensures
        r@ == old(queue).commands@,
        final(queue).commands@.len() == 0,
{
    let mut out: Vec<ModuleCommand> = Vec::new();
    std::mem::swap(&mut out, &mut queue.commands);
    out
}

/// Get the pending focus target, if any.
/// Called before keyboard event handling to ensure focus is synced.
/// The most recent `Focus` command wins; all of them leave the queue, the others stay in order.
pub fn take_pending_focus(queue: &mut CommandQueue) -> (r: Option<u64>)
    ensures
        r == last_focus(old(queue).commands@),
        final(queue).commands@ == other_commands(old(queue).commands@),
{
    let ghost all = queue.commands@;
    let mut rest: Vec<ModuleCommand> = Vec::new();
    std::mem::swap(&mut rest, &mut queue.commands);
    let mut kept: Vec<ModuleCommand> = Vec::new();
    let mut focus_id: Option<u64> = None;
    // Walk from the newest command to the oldest, then turn what is kept around again.
    while rest.len() > 0
        invariant
            rest@.len() <= all.len(),
            rest@ == all.subrange(0, rest@.len() as int),
            focus_id is None ==> last_focus(all) == last_focus(rest@),
            focus_id is Some ==> last_focus(all) == focus_id,
            other_commands(all) == other_commands(rest@) + kept@.reverse(),
            queue.commands@.len() == 0,
        decreases rest@.len(),
    {
        let ghost before = rest@;
        let ghost kept_before = kept@;
        let popped = rest.pop();
        assert(rest@ =~= before.drop_last());
        match popped {
            Some(cmd) => {
                let target: Option<u64> = match &cmd {
                    ModuleCommand::Focus { id } => Some(*id),
                    _ => None,
                };
                match target {
                    Some(id) => {
                        if focus_id.is_none() {
                            focus_id = Some(id);
                        }
                    },
                    None => {
                        kept.push(cmd);
                        proof {
                            assert(kept@.reverse() =~= seq![cmd] + kept_before.reverse());
                            assert(other_commands(before) + kept_before.reverse()
                                =~= other_commands(rest@) + kept@.reverse());
                        }
                    },
                }
            },
            None => {},
        }
    }
    while kept.len() > 0
        invariant
            other_commands(all) == queue.commands@ + kept@.reverse(),
        decreases kept@.len(),
    {
        let ghost kept_before = kept@;
        let ghost done = queue.commands@;
        let popped = kept.pop();
        match popped {
            Some(cmd) => {
                queue.commands.push(cmd);
                proof {
                    assert(kept@ =~= kept_before.drop_last());
                    assert(kept_before.reverse() =~= seq![cmd] + kept@.reverse());
                    assert(done + kept_before.reverse() =~= done.push(cmd) + kept@.reverse());
                }
            },
            None => {},
        }
    }
    assert(queue.commands@ =~= other_commands(all));
    focus_id
}

/// Peek at pending commands without draining (for state dump)
pub fn peek_commands(queue: &CommandQueue) -> (r: &Vec<ModuleCommand>)
    ensures
        r@ == queue.commands@,
{
    &queue.commands
}

/// Taking the pending focus once leaves none behind: taking it again finds nothing and changes
/// nothing.
pub proof fn law_focus_is_taken_once(cmds: Seq<ModuleCommand>)
    ensures
        last_focus(other_commands(cmds)) is None,
        other_commands(other_commands(cmds)) == other_commands(cmds),
        last_focus(cmds) is None ==> other_commands(cmds) == cmds,
    decreases cmds.len(),
{
    if cmds.len() > 0 {
        law_focus_is_taken_once(cmds.drop_last());
        let head = other_commands(cmds.drop_last());
        if !(cmds.last() is Focus) {
            assert(head.push(cmds.last()).drop_last() =~= head);
        }
        if last_focus(cmds) is None {
            assert(cmds =~= cmds.drop_last().push(cmds.last()));
        }
    }
}

/// A command that is not a focus request is kept: pushing it and taking the focus commute.
pub proof fn law_other_commands_keep_their_place(cmds: Seq<ModuleCommand>, cmd: ModuleCommand)
    requires
        !(cmd is Focus),
    ensures
        other_commands(cmds.push(cmd)) == other_commands(cmds).push(cmd),
        last_focus(cmds.push(cmd)) == last_focus(cmds),
{
    assert(cmds.push(cmd).drop_last() =~= cmds);
}

/// Pending frame-to-output assignments, oldest first.
pub struct PendingFrameOutputs {
    pub outputs: Vec<String>,
}

impl PendingFrameOutputs {
    /// No frame is expected.
    pub fn pending_frame_outputs() -> (r: Self)
        ensures
            r.outputs@.len() == 0,
    {
        PendingFrameOutputs { outputs: Vec::new() }
    }

    /// Prepare next frame for output.
    pub fn prepare_frame(&mut self, output: String)
        ensures
            final(self).outputs@ == old(self).outputs@.push(output),
    {
        self.outputs.push(output);
    }
}

/// Take the next pending frame output (called by compositor when creating surfaces).
pub fn take_pending_frame_output(pending: &mut PendingFrameOutputs) -> (r: Option<String>)
    ensures
        match r {
            Some(s) => old(pending).outputs@.len() > 0 && s == old(pending).outputs@[0]
                && final(pending).outputs@ == old(pending).outputs@.subrange(
                1,
                old(pending).outputs@.len() as int,
            ),
            None => old(pending).outputs@.len() == 0 && *final(pending) == *old(pending),
        },
{
    if pending.outputs.len() == 0 {
        None
    } else {
        let ghost before = pending.outputs@;
        let first = pending.outputs.remove(0);
        assert(pending.outputs@ =~= before.subrange(1, before.len() as int));
        Some(first)
    }
}

/// Get pending frame outputs for state dump.
pub fn peek_pending_frame_outputs(pending: &PendingFrameOutputs) -> (r: Vec<String>)
    ensures
        r@ == pending.outputs@,
{
    let mut out: Vec<String> = Vec::new();
    let mut i: usize = 0;
    while i < pending.outputs.len()
        invariant
            i <= pending.outputs@.len(),
            out@ == pending.outputs@.subrange(0, i as int),
        decreases pending.outputs@.len() - i,
    {
        out.push(pending.outputs[i].clone());
        i = i + 1;
        assert(out@ =~= pending.outputs@.subrange(0, i as int));
    }
    assert(pending.outputs@.subrange(0, i as int) =~= pending.outputs@);
    out
}

/// Frames are assigned in the order in which they were prepared: what was prepared last is
/// handed out after everything before it.
pub proof fn law_frames_first_in_first_out(outputs: Seq<String>, next: String)
    requires
        outputs.len() > 0,
    ensures
        outputs.push(next)[0] == outputs[0],
        outputs.push(next).subrange(1, outputs.len() as int + 1) == outputs.subrange(
            1,
            outputs.len() as int,
        ).push(next),
{
    assert(outputs.push(next).subrange(1, outputs.len() as int + 1) =~= outputs.subrange(
        1,
        outputs.len() as int,
    ).push(next));
}

/// Keys that go to Emacs whatever surface has focus.
pub struct InterceptedKeys {
    pub keys: Vec<InterceptedKey>,
}

impl InterceptedKeys {
    /// No key is intercepted.
    pub fn intercepted_keys() -> (r: Self)
        ensures
            r.keys@.len() == 0,
    {
        InterceptedKeys { keys: Vec::new() }
    }

    /// Replaces the list.
    pub fn set(&mut self, keys: Vec<InterceptedKey>)
        ensures
            final(self).keys == keys,
    {
        self.keys = keys;
    }
}

/// Get intercepted keys (called by compositor during input handling).
pub fn get_intercepted_keys(keys: &InterceptedKeys) -> (r: Vec<InterceptedKey>)
    ensures
        r@ == keys.keys@,
{
    let mut out: Vec<InterceptedKey> = Vec::new();
    let mut i: usize = 0;
    while i < keys.keys.len()
        invariant
            i <= keys.keys@.len(),
            out@ == keys.keys@.subrange(0, i as int),
        decreases keys.keys@.len() - i,
    {
        out.push(keys.keys[i]);
        i = i + 1;
        assert(out@ =~= keys.keys@.subrange(0, i as int));
    }
    assert(keys.keys@.subrange(0, i as int) =~= keys.keys@);
    out
}

/// Flag indicating we're in an incomplete prefix key sequence.
/// Set when prefix key intercepted, cleared when Emacs completes a command.
pub struct PrefixSequence {
    pub active: bool,
}

/// Set the prefix sequence flag (called from input handling)
pub fn set_in_prefix_sequence(flag: &mut PrefixSequence, value: bool)
    ensures
        final(flag).active == value,
{
    flag.active = value;
}

/// Get the prefix sequence flag (for state dump)
pub fn get_in_prefix_sequence(flag: &PrefixSequence) -> (r: bool)
    ensures
        r == flag.active,
{
    flag.active
}

/// Pool of pre-generated activation tokens.
/// Compositor pushes tokens here, Emacs pops them for spawning processes.
pub struct ActivationTokenPool {
    pub tokens: VecDeque<String>,
}

impl ActivationTokenPool {
    /// An empty pool.
    pub fn activation_token_pool() -> (r: Self)
        ensures
            r.tokens@.len() == 0,
    {
        ActivationTokenPool { tokens: VecDeque::new() }
    }

    /// Takes the oldest token.
    pub fn pop_activation_token(&mut self) -> (r: Option<String>)
        ensures
            match r {
                Some(t) => old(self).tokens@.len() > 0 && t == old(self).tokens@[0]
                    && final(self).tokens@ == old(self).tokens@.subrange(
                    1,
                    old(self).tokens@.len() as int,
                ),
                None => old(self).tokens@.len() == 0 && final(self).tokens@ == old(self).tokens@,
            },
    {
        self.tokens.pop_front()
    }
}

/// Push an activation token to the pool (called by compositor)
pub fn push_activation_token(pool: &mut ActivationTokenPool, token: String)
    ensures
        final(pool).tokens@ == old(pool).tokens@.push(token),
{
    pool.tokens.push_back(token);
}

/// How many times an empty pool is looked at again before giving up.
pub const TOKEN_POLLS: u32 = 10;

/// What a request for an activation token does next.
#[derive(Debug)]
pub enum TokenStep {
    /// Here is one.
    Ready(String),
    /// None yet: ask the compositor for one, then wait.
    AskAndWait,
    /// Still none: wait once more.
    Wait,
    /// Give up.
    TimedOut,
}

/// One step of asking for an activation token; `polls` counts the waits so far.
pub fn create_activation_token(pool: &mut ActivationTokenPool, polls: u32) -> (r: TokenStep)
    ensures
        match r {
            TokenStep::Ready(t) => old(pool).tokens@.len() > 0 && t == old(pool).tokens@[0]
                && final(pool).tokens@ == old(pool).tokens@.subrange(
                1,
                old(pool).tokens@.len() as int,
            ),
            TokenStep::AskAndWait => old(pool).tokens@.len() == 0 && polls == 0,
            TokenStep::Wait => old(pool).tokens@.len() == 0 && 0 < polls < TOKEN_POLLS,
            TokenStep::TimedOut => old(pool).tokens@.len() == 0 && polls >= TOKEN_POLLS,
        },
        !(r is Ready) ==> final(pool).tokens@ == old(pool).tokens@,
{
    match pool.pop_activation_token() {
        Some(t) => TokenStep::Ready(t),
        None => {
            if polls == 0 {
                TokenStep::AskAndWait
            } else if polls < TOKEN_POLLS {
                TokenStep::Wait
            } else {
                TokenStep::TimedOut
            }
        },
    }
}

/// Maximum focus history entries
pub const FOCUS_HISTORY_SIZE: usize = 20;

/// A single focus event for the history
#[derive(Clone, Debug)]
pub struct FocusEvent {
    /// Timestamp (monotonic counter)
    pub seq: usize,
    /// Surface ID that received focus
    pub surface_id: u64,
    /// Source of the focus change
    pub source: String,
    /// Additional context
    pub context: Option<String>,
}

/// The last focus changes, oldest first.
pub struct FocusHistory {
    pub events: VecDeque<FocusEvent>,
    /// Number that the next event gets.
    pub next_seq: usize,
}

/// The events that remain when room is made for one more.
pub open spec fn make_room(events: Seq<FocusEvent>) -> Seq<FocusEvent> {
    if events.len() >= FOCUS_HISTORY_SIZE {
        events.subrange(1, events.len() as int)
    } else {
        events
    }
}

impl FocusHistory {
    /// At most `FOCUS_HISTORY_SIZE` events, numbered without gaps up to the next number.
    pub open spec fn wf(&self) -> bool {
        &&& self.events@.len() <= FOCUS_HISTORY_SIZE
        &&& forall|i: int|
            0 <= i < self.events@.len() - 1 ==> self.events@[i + 1].seq
                == (#[trigger] self.events@[i]).seq.wrapping_add(1)
        &&& self.events@.len() > 0 ==> self.next_seq == self.events@.last().seq.wrapping_add(1)
    }

    /// An empty history.
    pub fn focus_history() -> (r: Self)
        ensures
            r.wf(),
            r.events@.len() == 0,
            r.next_seq == 0,
    {
        FocusHistory { events: VecDeque::new(), next_seq: 0 }
    }
}

/// `e` records this focus change under the number `seq`.
pub open spec fn records(
    e: FocusEvent,
    seq: usize,
    surface_id: u64,
    source: Seq<char>,
    context: Option<Seq<char>>,
) -> bool {
    &&& e.seq == seq
    &&& e.surface_id == surface_id
    &&& e.source@ == source
    &&& match e.context {
        Some(c) => context == Some(c@),
        None => context is None,
    }
}

/// The text of an optional context.
pub open spec fn opt_view(s: Option<&str>) -> Option<Seq<char>> {
    match s {
        Some(c) => Some(c@),
        None => None,
    }
}

/// Record a focus change (called by compositor)
pub fn record_focus(history: &mut FocusHistory, surface_id: u64, source: &str, context: Option<&str>)
    requires
        old(history).wf(),
    ensures
        final(history).wf(),
        final(history).next_seq == old(history).next_seq.wrapping_add(1),
        final(history).events@.len() == make_room(old(history).events@).len() + 1,
        final(history).events@.drop_last() == make_room(old(history).events@),
        records(
            final(history).events@.last(),
            old(history).next_seq,
            surface_id,
            source@,
            opt_view(context),
        ),
{
    let seq: usize = history.next_seq;
    history.next_seq = seq.wrapping_add(1);
    let event = FocusEvent {
        seq,
        surface_id,
        source: source.to_owned(),
        context: match context {
            Some(c) => Some(c.to_owned()),
            None => None,
        },
    };
    let ghost before = history.events@;
    if history.events.len() >= FOCUS_HISTORY_SIZE {
        let _ = history.events.pop_front();
    }
    let ghost room = history.events@;
    assert(room =~= make_room(before));
    assert forall|i: int| 0 <= i < room.len() - 1 implies room[i + 1].seq == (
    #[trigger] room[i]).seq.wrapping_add(1) by {
        if before.len() >= FOCUS_HISTORY_SIZE {
            assert(room[i] == before[i + 1]);
            assert(room[i + 1] == before[i + 2]);
        }
    }
    assert(room.len() > 0 ==> room.last() == before.last());
    history.events.push_back(event);
    assert(history.events@.drop_last() =~= room);
}

/// Get focus history (for state dump), oldest event first.
pub fn get_focus_history(history: &FocusHistory) -> (r: Vec<FocusEvent>)
    ensures
        r@.len() == history.events@.len(),
        forall|i: int|
            0 <= i < r@.len() ==> (#[trigger] r@[i]).seq == history.events@[i].seq
                && r@[i].surface_id == history.events@[i].surface_id && r@[i].source
                == history.events@[i].source && r@[i].context == history.events@[i].context,
{
    let mut out: Vec<FocusEvent> = Vec::new();
    let mut i: usize = 0;
    while i < history.events.len()
        invariant
            i <= history.events@.len(),
            out@.len() == i,
            forall|k: int|
                0 <= k < i ==> (#[trigger] out@[k]).seq == history.events@[k].seq
                    && out@[k].surface_id == history.events@[k].surface_id && out@[k].source
                    == history.events@[k].source && out@[k].context == history.events@[k].context,
        decreases history.events@.len() - i,
    {
        let e = &history.events[i];
        let context: Option<String> = match &e.context {
            Some(c) => Some(c.clone()),
            None => None,
        };
        out.push(
            FocusEvent {
                seq: e.seq,
                surface_id: e.surface_id,
                source: e.source.clone(),
                context,
            },
        );
        i = i + 1;
    }
    out
}

/// Whether the compositor runs, and what was asked of it.
#[derive(Clone, Copy, Debug, PartialEq, Eq, Structural)]
pub struct CompositorState {
    pub stop_requested: bool,
    /// Verbose logging is on.
    pub debug_mode: bool,
}

impl CompositorState {
    /// Nothing was asked yet.
    pub fn compositor_state() -> (r: Self)
        ensures
            !r.stop_requested,
            !r.debug_mode,
    {
        CompositorState { stop_requested: false, debug_mode: false }
    }

    /// Starts the compositor unless its thread runs. An earlier request to stop is forgotten.
    pub fn start(&mut self, thread_alive: bool) -> (r: bool)
        ensures
            r == !thread_alive,
            *final(self) == if thread_alive {
                *old(self)
            } else {
                CompositorState { stop_requested: false, ..*old(self) }
            },
    {
        if thread_alive {
            return false;
        }
        self.stop_requested = false;
        true
    }

    /// Asks the compositor to stop, if its thread runs.
    pub fn stop(&mut self, thread_alive: bool) -> (r: bool)
        ensures
            r == thread_alive,
            *final(self) == if thread_alive {
                CompositorState { stop_requested: true, ..*old(self) }
            } else {
                *old(self)
            },
    {
        if !thread_alive {
            return false;
        }
        self.stop_requested = true;
        true
    }

    /// Sets debug mode, or toggles it where no argument is given. Gives the new state.
    pub fn debug_mode_module(&mut self, enabled: Option<bool>) -> (r: bool)
        ensures
            r == match enabled {
                Some(on) => on,
                None => !old(self).debug_mode,
            },
            *final(self) == (CompositorState { debug_mode: r, ..*old(self) }),
    {
        self.debug_mode = match enabled {
            Some(on) => on,
            None => !self.debug_mode,
        };
        self.debug_mode
    }
}

/// An event as it is sent: its encoding on a line of its own.
pub fn event_line(encoded: Vec<u8>) -> (r: Vec<u8>)
    ensures
        r@ == encoded@.push(10u8),
{
    let mut line = encoded;
    line.push(10);
    line
}

/// An output as Emacs sees it: the corner of its free area in the global space.
pub struct ActiveOutput {
    pub origin: (i32, i32),
}

} // verus!
