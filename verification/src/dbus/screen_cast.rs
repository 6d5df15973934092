//! org.gnome.Mutter.ScreenCast: sessions, their streams, and what is asked of the compositor.
use super::{CastTarget, OutputInfo};
use crate::text::{
    concat2, decimal, lemma_decimal_digits, lemma_decimal_injective, str_eq, to_decimal,
};
use vstd::prelude::*;
use vstd::string::*;
use zbus::zvariant::OwnedObjectPath;

verus! {

/// Version of the interface.
pub const VERSION: i32 = 4;

/// The cursor mode of a session that asks for none: the cursor is part of the picture.
pub const CURSOR_EMBEDDED: u32 = 1;

/// A character that an object path may hold between its slashes.
pub open spec fn is_path_char(c: char) -> bool {
    ('a' <= c <= 'z') || ('A' <= c <= 'Z') || ('0' <= c <= '9') || c == '_'
}

/// `s` is an object path: it starts with a slash, does not end in one unless it is the root, and
/// holds names between single slashes.
pub open spec fn is_object_path(s: Seq<char>) -> bool {
    &&& s.len() > 0
    &&& s[0] == '/'
    &&& s.len() > 1 ==> s.last() != '/'
    &&& forall|i: int| 0 <= i < s.len() ==> #[trigger] s[i] == '/' || is_path_char(s[i])
    &&& forall|i: int, j: int|
        0 <= i < s.len() && j == i + 1 && j < s.len() && #[trigger] s[i] == '/'
            ==> #[trigger] s[j] != '/'
}

/// Checks an object path.
///
/// Trusted: calls `OwnedObjectPath::try_from`, which keeps the text and accepts exactly what is
/// an object path.
#[verifier::external_body]
fn object_path(path: String) -> (r: Option<String>)
    ensures
        match r {
            Some(p) => is_object_path(path@) && p@ == path@,
            None => !is_object_path(path@),
        },
{
    match OwnedObjectPath::try_from(path) {
        Ok(p) => Some(p.as_str().to_owned()),
        Err(_) => None,
    }
}

/// Whether the bus takes a text for an object path.
pub fn accepts_path(path: &str) -> (r: bool)
    ensures
        r == is_object_path(path@),
{
    object_path(path.to_owned()).is_some()
}

/// The object path of the session `id`.
pub open spec fn session_path_of(id: u64) -> Seq<char> {
    "/org/gnome/Mutter/ScreenCast/Session/u"@ + decimal(id as nat)
}

/// The object path of the stream `id`.
pub open spec fn stream_path_of(id: u64) -> Seq<char> {
    "/org/gnome/Mutter/ScreenCast/Stream/u"@ + decimal(id as nat)
}

/// A prefix that ends in a name can be continued with a number.
proof fn lemma_numbered_path(prefix: Seq<char>, n: nat)
    requires
        is_object_path(prefix),
        prefix.len() > 1,
    ensures
        is_object_path(prefix + decimal(n)),
{
    let s = prefix + decimal(n);
    lemma_decimal_digits(n);
    assert forall|i: int| 0 <= i < s.len() implies #[trigger] s[i] == '/' || is_path_char(s[i]) by {
        if i >= prefix.len() {
            assert(s[i] == decimal(n)[i - prefix.len()]);
        }
    }
    assert(s.last() == decimal(n)[decimal(n).len() - 1]);
    assert forall|i: int, j: int|
        0 <= i < s.len() && j == i + 1 && j < s.len() && #[trigger] s[i] == '/' implies
        #[trigger] s[j] != '/' by {
        if i >= prefix.len() {
            assert(s[i] == decimal(n)[i - prefix.len()]);
        } else if j >= prefix.len() {
            assert(s[j] == decimal(n)[j - prefix.len()]);
        } else {
            assert(prefix[i] == '/');
            assert(prefix[j] != '/');
        }
    }
}

/// The object path of a session. It is always valid.
pub fn session_path(id: u64) -> (r: String)
    ensures
        r@ == session_path_of(id),
        is_object_path(r@),
{
    let number = to_decimal(id);
    let path = concat2("/org/gnome/Mutter/ScreenCast/Session/u", number.as_str());
    proof {
        reveal_strlit("/org/gnome/Mutter/ScreenCast/Session/u");
        lemma_numbered_path("/org/gnome/Mutter/ScreenCast/Session/u"@, id as nat);
    }
    match object_path(path) {
        Some(p) => p,
        None => String::new(),
    }
}

/// The object path of a stream. It is always valid.
pub fn stream_path(id: u64) -> (r: String)
    ensures
        r@ == stream_path_of(id),
        is_object_path(r@),
{
    let number = to_decimal(id);
    let path = concat2("/org/gnome/Mutter/ScreenCast/Stream/u", number.as_str());
    proof {
        reveal_strlit("/org/gnome/Mutter/ScreenCast/Stream/u");
        lemma_numbered_path("/org/gnome/Mutter/ScreenCast/Stream/u"@, id as nat);
    }
    match object_path(path) {
        Some(p) => p,
        None => String::new(),
    }
}

/// Messages sent to the compositor
#[derive(Debug)]
pub enum ScreenCastToCompositor {
    StartCast {
        session_id: u64,
        target: CastTarget,
        /// The stream that announces the cast once it runs.
        stream_id: u64,
        cursor_mode: u32,
    },
    StopCast { session_id: u64 },
}

/// Why a session or a stream was not made.
#[derive(Debug)]
pub enum ScreenCastError {
    /// There is an object at the session's path already.
    SessionExists,
    /// There is an object at the stream's path already.
    StreamExists,
    /// No output has this name.
    OutputNotFound { connector: String },
}

impl ScreenCastError {
    /// The text that the caller on the bus gets.
    pub fn message(&self) -> (r: String)
        ensures
            r@ == match *self {
                ScreenCastError::SessionExists => "session path already exists"@,
                ScreenCastError::StreamExists => "stream path already exists"@,
                ScreenCastError::OutputNotFound { connector } => "output '"@ + connector@
                    + "' not found"@,
            },
    {
        match self {
            ScreenCastError::SessionExists => "session path already exists".to_owned(),
            ScreenCastError::StreamExists => "stream path already exists".to_owned(),
            ScreenCastError::OutputNotFound { connector } => {
                let head = concat2("output '", connector.as_str());
                concat2(head.as_str(), "' not found")
            },
        }
    }
}

/// The target of a stream, with what the stream's properties tell of it.
#[derive(Debug)]
pub enum StreamTarget {
    Output(OutputInfo),
    Window { id: u64 },
}

/// A stream of a session
#[derive(Debug)]
pub struct Stream {
    pub id: u64,
    pub session_id: u64,
    pub target: StreamTarget,
    pub was_started: bool,
}

/// What a stream tells of the area that it shows.
#[derive(Clone, Copy, Debug, PartialEq, Eq)]
pub struct StreamParameters {
    pub position: (i32, i32),
    pub size: (i32, i32),
}

impl Stream {
    /// What the compositor is asked to cast.
    pub open spec fn casts(self) -> CastTarget {
        match self.target {
            StreamTarget::Output(output) => CastTarget::Output { name: output.name },
            StreamTarget::Window { id } => CastTarget::Window { id },
        }
    }

    /// The request that starts the stream's cast.
    pub open spec fn start_request(self, cursor_mode: u32) -> ScreenCastToCompositor {
        ScreenCastToCompositor::StartCast {
            session_id: self.session_id,
            target: self.casts(),
            stream_id: self.id,
            cursor_mode,
        }
    }

    /// A stream of an output.
    pub fn new_output(id: u64, session_id: u64, output: OutputInfo) -> (r: Self)
        ensures
            r == (Stream {
                id,
                session_id,
                target: StreamTarget::Output(output),
                was_started: false,
            }),
    {
        Stream { id, session_id, target: StreamTarget::Output(output), was_started: false }
    }

    /// A stream of a window.
    pub fn new_window(id: u64, session_id: u64, window_id: u64) -> (r: Self)
        ensures
            r == (Stream {
                id,
                session_id,
                target: StreamTarget::Window { id: window_id },
                was_started: false,
            }),
    {
        Stream {
            id,
            session_id,
            target: StreamTarget::Window { id: window_id },
            was_started: false,
        }
    }

    /// Starts the stream, unless it was started before.
    pub fn start(&mut self, cursor_mode: u32) -> (r: Option<ScreenCastToCompositor>)
        ensures
            *final(self) == (Stream { was_started: true, ..*old(self) }),
            r == if old(self).was_started {
                None
            } else {
                Some(old(self).start_request(cursor_mode))
            },
    {
        if self.was_started {
            return None;
        }
        self.was_started = true;
        let target = match &self.target {
            StreamTarget::Output(output) => CastTarget::Output { name: output.name.clone() },
            StreamTarget::Window { id } => CastTarget::Window { id: *id },
        };
        Some(
            ScreenCastToCompositor::StartCast {
                session_id: self.session_id,
                target,
                stream_id: self.id,
                cursor_mode,
            },
        )
    }

    /// The area that the stream shows. A window's size changes, so that none is told.
    pub fn parameters(&self) -> (r: StreamParameters)
        ensures
            r.position == (0i32, 0i32),
            r.size == match self.target {
                StreamTarget::Output(output) => (output.width, output.height),
                StreamTarget::Window { .. } => (1i32, 1i32),
            },
    {
        match &self.target {
            StreamTarget::Output(output) => StreamParameters {
                position: (0, 0),
                size: (output.width, output.height),
            },
            StreamTarget::Window { .. } => StreamParameters { position: (0, 0), size: (1, 1) },
        }
    }
}

/// The requests that start those of the streams that were not started before.
pub open spec fn start_requests(streams: Seq<Stream>, cursor_mode: u32) -> Seq<
    ScreenCastToCompositor,
>
    decreases streams.len(),
{
    if streams.len() == 0 {
        Seq::empty()
    } else {
        let head = start_requests(streams.drop_last(), cursor_mode);
        if streams.last().was_started {
            head
        } else {
            head.push(streams.last().start_request(cursor_mode))
        }
    }
}

/// The streams, all of them started.
pub open spec fn all_started(streams: Seq<Stream>) -> Seq<Stream> {
    Seq::new(streams.len(), |i: int| Stream { was_started: true, ..streams[i] })
}

/// The numbers of the streams.
pub open spec fn stream_ids(streams: Seq<Stream>) -> Seq<u64> {
    Seq::new(streams.len(), |i: int| streams[i].id)
}

/// A session
#[derive(Debug)]
pub struct Session {
    pub id: u64,
    pub streams: Vec<Stream>,
    pub stopped: bool,
    pub cursor_mode: u32,
}

/// What stopping a session entails.
#[derive(Debug)]
pub struct SessionEnd {
    pub message: ScreenCastToCompositor,
    /// Streams whose objects are removed, before the session's own.
    pub streams: Vec<u64>,
}

/// The place of the first output with the name `connector`.
pub open spec fn first_named(outputs: Seq<OutputInfo>, connector: Seq<char>, i: int) -> bool {
    &&& 0 <= i < outputs.len()
    &&& outputs[i].name@ == connector
    &&& forall|j: int| 0 <= j < i ==> (#[trigger] outputs[j]).name@ != connector
}

impl Session {
    pub fn new(id: u64, cursor_mode: u32) -> (r: Self)
        ensures
            r.id == id,
            r.streams@ == Seq::<Stream>::empty(),
            !r.stopped,
            r.cursor_mode == cursor_mode,
    {
        Session { id, streams: Vec::new(), stopped: false, cursor_mode }
    }

    /// Starts every stream that was not started before.
    pub fn start(&mut self) -> (r: Vec<ScreenCastToCompositor>)
        ensures
            r@ == start_requests(old(self).streams@, old(self).cursor_mode),
            final(self).streams@ == all_started(old(self).streams@),
            *final(self) == (Session { streams: final(self).streams, ..*old(self) }),
    {
        let mut out: Vec<ScreenCastToCompositor> = Vec::new();
        let ghost s0 = self.streams@;
        let mut i: usize = 0;
        while i < self.streams.len()
            invariant
                i <= s0.len(),
                self.streams@.len() == s0.len(),
                *self == (Session { streams: self.streams, ..*old(self) }),
                s0 == old(self).streams@,
                forall|j: int| i <= j < s0.len() ==> #[trigger] self.streams@[j] == s0[j],
                forall|j: int|
                    0 <= j < i ==> #[trigger] self.streams@[j] == (Stream {
                        was_started: true,
                        ..s0[j]
                    }),
                out@ == start_requests(s0.take(i as int), self.cursor_mode),
            decreases s0.len() - i,
        {
            let cursor_mode = self.cursor_mode;
            let ghost before = self.streams@;
            let request = self.streams[i].start(cursor_mode);
            assert(s0.take(i + 1).drop_last() =~= s0.take(i as int));
            match request {
                Some(m) => {
                    out.push(m);
                },
                None => {},
            }
            assert(self.streams@ =~= before.update(i as int, self.streams@[i as int]));
            i = i + 1;
        }
        assert(s0.take(s0.len() as int) =~= s0);
        assert(self.streams@ =~= all_started(s0));
        out
    }

    /// Stops the session, once.
    pub fn stop(&mut self) -> (r: Option<SessionEnd>)
        ensures
            final(self).id == old(self).id,
            final(self).cursor_mode == old(self).cursor_mode,
            final(self).stopped,
            match r {
                Some(end) => {
                    &&& !old(self).stopped
                    &&& end.message == ScreenCastToCompositor::StopCast { session_id: old(self).id }
                    &&& end.streams@ == stream_ids(old(self).streams@)
                    &&& final(self).streams@ == Seq::<Stream>::empty()
                },
                None => old(self).stopped && final(self).streams == old(self).streams,
            },
    {
        if self.stopped {
            return None;
        }
        self.stopped = true;
        let mut ids: Vec<u64> = Vec::new();
        let mut i: usize = 0;
        while i < self.streams.len()
            invariant
                i <= self.streams@.len(),
                ids@ == stream_ids(self.streams@.take(i as int)),
            decreases self.streams@.len() - i,
        {
            ids.push(self.streams[i].id);
            i = i + 1;
            assert(ids@ =~= stream_ids(self.streams@.take(i as int)));
        }
        assert(self.streams@.take(self.streams@.len() as int) =~= self.streams@);
        self.streams = Vec::new();
        Some(
            SessionEnd {
                message: ScreenCastToCompositor::StopCast { session_id: self.id },
                streams: ids,
            },
        )
    }

    /// Makes a stream of the output `connector`. It belongs to the session once its object is
    /// there. A number is used up only where the output exists.
    pub fn record_monitor(
        &self,
        outputs: &Vec<OutputInfo>,
        connector: &str,
        numbers: &mut StreamNumbers,
    ) -> (r: Result<(Stream, String), ScreenCastError>)
        ensures
            match r {
                Ok((stream, path)) => {
                    &&& exists|i: int| #[trigger]
                        first_named(outputs@, connector@, i) && stream == (Stream {
                            id: old(numbers).next,
                            session_id: self.id,
                            target: StreamTarget::Output(outputs@[i]),
                            was_started: false,
                        })
                    &&& path@ == stream_path_of(old(numbers).next)
                    &&& is_object_path(path@)
                    &&& final(numbers).next == number_after(old(numbers).next)
                },
                Err(e) => {
                    &&& forall|i: int|
                        0 <= i < outputs@.len() ==> (#[trigger] outputs@[i]).name@ != connector@
                    &&& e matches ScreenCastError::OutputNotFound { connector: c } && c@
                        == connector@
                    &&& *final(numbers) == *old(numbers)
                },
            },
    {
        let mut i: usize = 0;
        while i < outputs.len()
            invariant
                i <= outputs@.len(),
                *numbers == *old(numbers),
                forall|j: int| 0 <= j < i ==> (#[trigger] outputs@[j]).name@ != connector@,
            decreases outputs@.len() - i,
        {
            if str_eq(outputs[i].name.as_str(), connector) {
                let output = outputs[i].copied();
                let id = numbers.take();
                assert(first_named(outputs@, connector@, i as int));
                return Ok((Stream::new_output(id, self.id, output), stream_path(id)));
            }
            i = i + 1;
        }
        Err(ScreenCastError::OutputNotFound { connector: connector.to_owned() })
    }

    /// Makes a stream of a window. It belongs to the session once its object is there.
    pub fn record_window(&self, window_id: u64, numbers: &mut StreamNumbers) -> (r: (
        Stream,
        String,
    ))
        ensures
            r.0 == (Stream {
                id: old(numbers).next,
                session_id: self.id,
                target: StreamTarget::Window { id: window_id },
                was_started: false,
            }),
            r.1@ == stream_path_of(old(numbers).next),
            is_object_path(r.1@),
            final(numbers).next == number_after(old(numbers).next),
    {
        let id = numbers.take();
        (Stream::new_window(id, self.id, window_id), stream_path(id))
    }

    /// Takes a stream into the session if its object could be added to the bus.
    pub fn stream_added(&mut self, stream: Stream, added: bool) -> (r: Result<(), ScreenCastError>)
        ensures
            *final(self) == (Session { streams: final(self).streams, ..*old(self) }),
            if added {
                r is Ok && final(self).streams@ == old(self).streams@.push(stream)
            } else {
                r == Err::<(), ScreenCastError>(ScreenCastError::StreamExists)
                    && final(self).streams@ == old(self).streams@
            },
    {
        if !added {
            return Err(ScreenCastError::StreamExists);
        }
        self.streams.push(stream);
        Ok(())
    }
}

/// The number that follows `n`. After the last one they start over.
pub open spec fn number_after(n: u64) -> u64 {
    if n == u64::MAX {
        0
    } else {
        (n + 1) as u64
    }
}

/// Numbers for streams, one for all sessions.
#[derive(Clone, Copy, Debug, PartialEq, Eq, Structural)]
pub struct StreamNumbers {
    pub next: u64,
}

impl StreamNumbers {
    /// Numbers from zero on.
    pub fn new() -> (r: Self)
        ensures
            r.next == 0,
    {
        StreamNumbers { next: 0 }
    }

    /// Takes the next number.
    pub fn take(&mut self) -> (r: u64)
        ensures
            r == old(self).next,
            final(self).next == number_after(old(self).next),
    {
        let id = self.next;
        self.next = if id == u64::MAX {
            0
        } else {
            id + 1
        };
        id
    }
}

/// Main ScreenCast interface
#[derive(Debug)]
pub struct ScreenCast {
    /// Numbers of the sessions that were made.
    pub sessions: Vec<u64>,
    pub next_session: u64,
}

impl ScreenCast {
    pub fn new() -> (r: Self)
        ensures
            r.sessions@ == Seq::<u64>::empty(),
            r.next_session == 0,
    {
        ScreenCast { sessions: Vec::new(), next_session: 0 }
    }

    /// Makes a session with a number of its own. Without a cursor mode the cursor is embedded.
    pub fn create_session(&mut self, cursor_mode: Option<u32>) -> (r: (Session, String))
        ensures
            r.0.id == old(self).next_session,
            r.0.streams@ == Seq::<Stream>::empty(),
            !r.0.stopped,
            r.0.cursor_mode == match cursor_mode {
                Some(m) => m,
                None => CURSOR_EMBEDDED,
            },
            r.1@ == session_path_of(old(self).next_session),
            is_object_path(r.1@),
            final(self).next_session == number_after(old(self).next_session),
            final(self).sessions == old(self).sessions,
    {
        let id = self.next_session;
        self.next_session = if id == u64::MAX {
            0
        } else {
            id + 1
        };
        let mode: u32 = match cursor_mode {
            Some(m) => m,
            None => CURSOR_EMBEDDED,
        };
        (Session::new(id, mode), session_path(id))
    }

    /// Remembers a session if its object could be added to the bus.
    pub fn session_added(&mut self, id: u64, added: bool) -> (r: Result<(), ScreenCastError>)
        ensures
            final(self).next_session == old(self).next_session,
            if added {
                r is Ok && final(self).sessions@ == old(self).sessions@.push(id)
            } else {
                r == Err::<(), ScreenCastError>(ScreenCastError::SessionExists)
                    && final(self).sessions@ == old(self).sessions@
            },
    {
        if !added {
            return Err(ScreenCastError::SessionExists);
        }
        self.sessions.push(id);
        Ok(())
    }
}

/// Different sessions have different object paths, and so have different streams.
pub proof fn law_paths_are_distinct(a: u64, b: u64)
    requires
        a != b,
    ensures
        session_path_of(a) != session_path_of(b),
        stream_path_of(a) != stream_path_of(b),
{
    if session_path_of(a) == session_path_of(b) {
        let p = "/org/gnome/Mutter/ScreenCast/Session/u"@;
        assert(decimal(a as nat) =~= session_path_of(a).skip(p.len() as int));
        assert(decimal(b as nat) =~= session_path_of(b).skip(p.len() as int));
        lemma_decimal_injective(a as nat, b as nat);
    }
    if stream_path_of(a) == stream_path_of(b) {
        let p = "/org/gnome/Mutter/ScreenCast/Stream/u"@;
        assert(decimal(a as nat) =~= stream_path_of(a).skip(p.len() as int));
        assert(decimal(b as nat) =~= stream_path_of(b).skip(p.len() as int));
        lemma_decimal_injective(a as nat, b as nat);
    }
}

/// A session that is started again asks for nothing more.
pub proof fn law_streams_start_once(streams: Seq<Stream>, cursor_mode: u32)
    ensures
        start_requests(all_started(streams), cursor_mode) == Seq::<ScreenCastToCompositor>::empty(),
    decreases streams.len(),
{
    if streams.len() > 0 {
        law_streams_start_once(streams.drop_last(), cursor_mode);
        assert(all_started(streams).drop_last() =~= all_started(streams.drop_last()));
    }
}

} // verus!
