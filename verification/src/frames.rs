//! Frames on their way through: the frame gate that caps their rate, the store that
//! holds the latest one, and the pusher that hands captured buffers on.

use vstd::prelude::*;

verus! {

/// Lets a frame through when the last one that went through is at least one
/// interval old, and drops it otherwise.
pub struct FpsGate {
    min_interval_ns: u64,
    last_allowed: Option<u64>,
}

/// What a gate remembers: its interval, and when it last let a frame through.
pub struct GateState {
    pub interval: nat,
    pub last: Option<nat>,
}

impl GateState {
    /// Whether a frame at `now` passes. A clock that ran backwards counts as no
    /// time gone by.
    pub open spec fn admits(self, now: nat) -> bool {
        match self.last {
            None => true,
            Some(t) => if now >= t {
                now - t >= self.interval
            } else {
                self.interval == 0
            },
        }
    }

    /// The state once a frame at `now` has come by.
    pub open spec fn after(self, now: nat) -> GateState {
        if self.admits(now) {
            GateState { last: Some(now), ..self }
        } else {
            self
        }
    }

    /// The state once the first `n` of the frames have come by.
    pub open spec fn after_all(self, times: Seq<nat>, n: int) -> GateState
        decreases n,
    {
        if n <= 0 {
            self
        } else {
            self.after_all(times, n - 1).after(times[n - 1])
        }
    }

    /// Whether frame `i` of the run passes.
    pub open spec fn passes(self, times: Seq<nat>, i: int) -> bool {
        self.after_all(times, i).admits(times[i])
    }
}

impl View for FpsGate {
    type V = GateState;

    closed spec fn view(&self) -> GateState {
        GateState {
            interval: self.min_interval_ns as nat,
            last: match self.last_allowed {
                Some(t) => Some(t as nat),
                None => None,
            },
        }
    }
}

impl FpsGate {
    /// A gate for frames that are at least that far apart.
    pub fn new(min_interval_ns: u64) -> (gate: FpsGate)
        ensures
            gate@ == (GateState { interval: min_interval_ns as nat, last: None }),
    {
        FpsGate { min_interval_ns, last_allowed: None }
    }

    /// Whether the frame that arrives at `now_ns` passes.
    pub fn lets_through(&mut self, now_ns: u64) -> (allow: bool)
        ensures
            allow == old(self)@.admits(now_ns as nat),
            final(self)@ == old(self)@.after(now_ns as nat),
    {
        let allow = match self.last_allowed {
            None => true,
            Some(t) => if now_ns >= t {
                now_ns - t >= self.min_interval_ns
            } else {
                self.min_interval_ns == 0
            },
        };
        if allow {
            self.last_allowed = Some(now_ns);
        }
        allow
    }
}

proof fn lemma_last_is_recent(gate: GateState, times: Seq<nat>, i: int, n: int)
    requires
        0 <= i < n <= times.len(),
        forall|a: int, b: int| 0 <= a <= b < times.len() ==> times[a] <= times[b],
        gate.passes(times, i),
    ensures
        gate.after_all(times, n).last matches Some(t) && times[i] <= t <= times[n - 1],
        gate.after_all(times, n).interval == gate.interval,
    decreases n,
{
    lemma_interval_stays(gate, times, n);
    if n - 1 > i {
        lemma_last_is_recent(gate, times, i, n - 1);
    }
}

proof fn lemma_interval_stays(gate: GateState, times: Seq<nat>, n: int)
    ensures
        gate.after_all(times, n).interval == gate.interval,
    decreases n,
{
    if n > 0 {
        lemma_interval_stays(gate, times, n - 1);
    }
}

/// Any two frames that a gate lets through are at least one interval apart.
pub proof fn law_admitted_frames_are_spaced(gate: GateState, times: Seq<nat>, i: int, j: int)
    requires
        forall|a: int, b: int| 0 <= a <= b < times.len() ==> times[a] <= times[b],
        0 <= i < j < times.len(),
        gate.passes(times, i),
        gate.passes(times, j),
    ensures
        times[j] - times[i] >= gate.interval,
{
    lemma_last_is_recent(gate, times, i, j);
}

/// A gate never gets stuck: it drops a frame only because it let one through
/// less than one interval before.
pub proof fn law_dropped_frames_follow_an_admitted_one(gate: GateState, times: Seq<nat>, i: int)
    requires
        gate.last is None,
        forall|a: int, b: int| 0 <= a <= b < times.len() ==> times[a] <= times[b],
        0 <= i < times.len(),
        !gate.passes(times, i),
    ensures
        exists|k: int|
            0 <= k < i && #[trigger] gate.passes(times, k) && times[i] - times[k] < gate.interval,
{
    lemma_interval_stays(gate, times, i);
    let t = gate.after_all(times, i).last->Some_0;
    lemma_last_was_admitted(gate, times, i);
    let k = choose|k: int| 0 <= k < i && #[trigger] gate.passes(times, k) && times[k] == t;
    assert(times[k] <= times[i]);
}

proof fn lemma_last_was_admitted(gate: GateState, times: Seq<nat>, n: int)
    requires
        gate.last is None,
        0 <= n <= times.len(),
        gate.after_all(times, n).last is Some,
    ensures
        exists|k: int|
            0 <= k < n && #[trigger] gate.passes(times, k) && times[k] == gate.after_all(
                times,
                n,
            ).last->Some_0,
    decreases n,
{
    if n > 0 {
        if gate.passes(times, n - 1) {
            assert(gate.passes(times, n - 1) && times[n - 1] == gate.after_all(
                times,
                n,
            ).last->Some_0);
        } else {
            lemma_last_was_admitted(gate, times, n - 1);
            let k = choose|k: int|
                0 <= k < n - 1 && #[trigger] gate.passes(times, k) && times[k] == gate.after_all(
                    times,
                    n - 1,
                ).last->Some_0;
            assert(gate.passes(times, k));
        }
    }
}

/// A frame that seems to come before the last one that passed is treated as one
/// that comes with it; and a frame passes exactly where none has yet, or where the
/// last one that did is an interval old, and is then the one that the next is
/// measured against.
pub proof fn law_frames_are_measured_against_the_last_one_let_through(
    gate: GateState,
    t: nat,
    now: nat,
)
    requires
        gate.last == Some(t),
    ensures
        now < t ==> gate.admits(now) == gate.admits(t),
        now >= t ==> (gate.admits(now) <==> t + gate.interval <= now),
        gate.after(now).last == Some(
            if gate.admits(now) {
                now
            } else {
                t
            },
        ),
        gate.after(now).interval == gate.interval,
        (GateState { last: None, ..gate }).admits(now),
{
}

/// A picture, four bytes to the pixel.
#[derive(Debug)]
pub struct Frame {
    pub width: u32,
    pub height: u32,
    pub data: Vec<u8>,
}

/// Holds the latest frame.
pub struct FrameStore {
    pub latest: Option<Frame>,
}

impl FrameStore {
    pub fn new() -> (store: FrameStore)
        ensures
            store.latest is None,
    {
        FrameStore { latest: None }
    }

    /// Puts a frame in the place of the one before, and says whether its size is
    /// new: the first frame's always is.
    pub fn put(&mut self, frame: Frame) -> (changed: bool)
        ensures
            final(self).latest == Some(frame),
            changed == match old(self).latest {
                Some(f) => f.width != frame.width || f.height != frame.height,
                None => true,
            },
    {
        let changed = match &self.latest {
            Some(f) => f.width != frame.width || f.height != frame.height,
            None => true,
        };
        self.latest = Some(frame);
        changed
    }
}

/// The pixel formats that capture negotiates.
#[derive(Clone, Copy, Debug, PartialEq, Eq, Structural)]
pub enum PixelFormat {
    Bgrx,
    Bgra,
}

/// The pixel format behind a SPA video format number.
pub open spec fn pixel_format(format: u32) -> Option<PixelFormat> {
    if format == 8 {
        Some(PixelFormat::Bgrx)
    } else if format == 12 {
        Some(PixelFormat::Bgra)
    } else {
        None
    }
}

/// The pixel format behind a SPA video format number; capture negotiates no
/// other than these two.
pub fn spa_video_format_to_gst(format: u32) -> (r: Option<PixelFormat>)
    ensures
        r == pixel_format(format),
{
    match format {
        8 => Some(PixelFormat::Bgrx),
        12 => Some(PixelFormat::Bgra),
        _ => None,
    }
}

/// What is known of a captured frame besides its file descriptor.
#[derive(Clone, Copy, Debug)]
pub struct CapturedFrame {
    pub format: u32,
    pub width: u32,
    pub height: u32,
    pub stride: i32,
    pub modifier: u64,
    pub is_dma_buf: bool,
    /// Which of the capture's recycled buffers the frame is in.
    pub buffer_identity: i64,
}

/// What a pipeline has to be told when it changes.
#[derive(Clone, Copy, PartialEq, Eq, Structural)]
pub struct CapsKey {
    pub format: u32,
    pub width: u32,
    pub height: u32,
    pub modifier: u64,
    pub is_dma_buf: bool,
}

/// The value of a machine word read as unsigned.
pub open spec fn unsigned(i: i32) -> int {
    if i >= 0 {
        i as int
    } else {
        i + 0x1_0000_0000
    }
}

/// A machine word read as unsigned.
pub(crate) fn as_unsigned(i: i32) -> (r: u32)
    ensures
        r == unsigned(i),
{
    if i >= 0 {
        i as u32
    } else {
        (i as i64 + 0x1_0000_0000) as u32
    }
}

impl CapturedFrame {
    pub open spec fn key(self) -> CapsKey {
        CapsKey {
            format: self.format,
            width: self.width,
            height: self.height,
            modifier: self.modifier,
            is_dma_buf: self.is_dma_buf,
        }
    }

    /// How many bytes the frame takes.
    pub open spec fn size(self) -> int {
        unsigned(self.stride) * self.height
    }
}

/// How to get the buffer to push.
#[derive(Clone, Copy, Debug, PartialEq, Eq, Structural)]
pub enum BufferPlan {
    /// Push the buffer that was wrapped for this identity before, and close the
    /// frame's descriptor.
    Reuse,
    /// Wrap the frame's descriptor, which then owns it, as that many bytes.
    Wrap { size: u32 },
    /// Map that many bytes, copy them into a fresh buffer, and close the
    /// descriptor.
    Copy { size: u32 },
}

/// What becomes of a captured frame's descriptor.
#[derive(Clone, Copy, Debug, PartialEq, Eq, Structural)]
pub enum Descriptor {
    /// It is closed.
    Close,
    /// The memory that is wrapped around it owns it.
    HandOver,
}

impl BufferPlan {
    pub open spec fn fate(self) -> Descriptor {
        if self is Wrap {
            Descriptor::HandOver
        } else {
            Descriptor::Close
        }
    }

    /// What becomes of the frame's descriptor, whether or not the buffer can be
    /// had.
    pub fn descriptor(&self) -> (d: Descriptor)
        ensures
            d == self.fate(),
    {
        match self {
            BufferPlan::Wrap { .. } => Descriptor::HandOver,
            _ => Descriptor::Close,
        }
    }
}

/// What to do with a captured frame.
#[derive(Clone, Copy, Debug, PartialEq, Eq, Structural)]
pub struct PushPlan {
    /// The format to announce first, where it is new.
    pub announce: Option<PixelFormat>,
    pub buffer: BufferPlan,
}

/// What the pusher of captured frames remembers.
#[verifier::ext_equal]
pub struct PusherState {
    /// The format that the pipeline was last told of.
    pub caps: Option<CapsKey>,
    /// The identities whose buffers were wrapped under that format.
    pub wrapped: Set<i64>,
}

impl PusherState {
    pub open spec fn start() -> PusherState {
        PusherState { caps: None, wrapped: Set::empty() }
    }

    /// The state in which a frame is pushed. A change of format, size, modifier or
    /// kind of memory makes every wrapped buffer stale.
    pub open spec fn told(self, frame: CapturedFrame) -> PusherState {
        if self.caps == Some(frame.key()) {
            self
        } else {
            PusherState { caps: Some(frame.key()), wrapped: Set::empty() }
        }
    }

    /// What to do with the next frame.
    pub open spec fn plan(self, frame: CapturedFrame) -> PushPlan {
        PushPlan {
            announce: if self.caps == Some(frame.key()) {
                None
            } else {
                pixel_format(frame.format)
            },
            buffer: if !frame.is_dma_buf {
                BufferPlan::Copy { size: frame.size() as u32 }
            } else if self.told(frame).wrapped.contains(frame.buffer_identity) {
                BufferPlan::Reuse
            } else {
                BufferPlan::Wrap { size: frame.size() as u32 }
            },
        }
    }

    /// The state behind a frame. `worked` says whether its buffer could be
    /// wrapped, where it had to be.
    pub open spec fn after(self, frame: CapturedFrame, worked: bool) -> PusherState {
        if self.plan(frame).buffer is Wrap && worked {
            PusherState {
                wrapped: self.told(frame).wrapped.insert(frame.buffer_identity),
                ..self.told(frame)
            }
        } else {
            self.told(frame)
        }
    }

    /// The state behind the first `n` frames.
    pub open spec fn after_all(frames: Seq<CapturedFrame>, worked: Seq<bool>, n: int) -> PusherState
        decreases n,
    {
        if n <= 0 {
            PusherState::start()
        } else {
            PusherState::after_all(frames, worked, n - 1).after(frames[n - 1], worked[n - 1])
        }
    }

    /// What is done with frame `i`.
    pub open spec fn plan_at(frames: Seq<CapturedFrame>, worked: Seq<bool>, i: int) -> PushPlan {
        PusherState::after_all(frames, worked, i).plan(frames[i])
    }

    /// Whether the buffer of frame `j` was wrapped, and no frame between it and
    /// frame `n` was announced.
    pub open spec fn held(frames: Seq<CapturedFrame>, worked: Seq<bool>, j: int, n: int) -> bool {
        &&& 0 <= j < n
        &&& PusherState::plan_at(frames, worked, j).buffer is Wrap
        &&& worked[j]
        &&& forall|k: int|
            j < k < n ==> (#[trigger] PusherState::plan_at(frames, worked, k)).announce is None
    }
}

proof fn lemma_caps_are_the_last(frames: Seq<CapturedFrame>, worked: Seq<bool>, n: int)
    requires
        0 <= n <= frames.len(),
    ensures
        PusherState::after_all(frames, worked, n).caps == if n == 0 {
            None
        } else {
            Some(frames[n - 1].key())
        },
{
}

proof fn lemma_wrapped_are_held(frames: Seq<CapturedFrame>, worked: Seq<bool>, n: int)
    requires
        0 <= n <= frames.len(),
        frames.len() == worked.len(),
        forall|i: int|
            0 <= i < frames.len() ==> pixel_format((#[trigger] frames[i]).format) is Some,
    ensures
        forall|x: i64| #[trigger]
            PusherState::after_all(frames, worked, n).wrapped.contains(x) <==> exists|j: int|
                #[trigger] PusherState::held(frames, worked, j, n) && frames[j].buffer_identity
                    == x,
    decreases n,
{
    if n > 0 {
        let m = n - 1;
        lemma_wrapped_are_held(frames, worked, m);
        let before = PusherState::after_all(frames, worked, m);
        let f = frames[m];
        let announced = before.plan(f).announce is Some;
        assert(PusherState::plan_at(frames, worked, m) == before.plan(f));
        assert(announced <==> before.caps != Some(f.key()));
        let wraps = before.plan(f).buffer is Wrap && worked[m];
        assert forall|j: int| #[trigger] PusherState::held(frames, worked, j, n) <==> (if j == m {
            wraps
        } else {
            !announced && PusherState::held(frames, worked, j, m)
        }) by {}
        assert forall|x: i64| #[trigger]
            PusherState::after_all(frames, worked, n).wrapped.contains(x) <==> exists|j: int|
                #[trigger] PusherState::held(frames, worked, j, n) && frames[j].buffer_identity
                    == x by {
            if PusherState::after_all(frames, worked, n).wrapped.contains(x) {
                if wraps && x == f.buffer_identity {
                    assert(PusherState::held(frames, worked, m, n));
                } else {
                    assert(before.wrapped.contains(x));
                    let j = choose|j: int| #[trigger]
                        PusherState::held(frames, worked, j, m) && frames[j].buffer_identity == x;
                    assert(PusherState::held(frames, worked, j, n));
                }
            }
            if exists|j: int| #[trigger]
                PusherState::held(frames, worked, j, n) && frames[j].buffer_identity == x {
                let j = choose|j: int| #[trigger]
                    PusherState::held(frames, worked, j, n) && frames[j].buffer_identity == x;
                if j != m {
                    assert(PusherState::held(frames, worked, j, m));
                    assert(before.wrapped.contains(x));
                }
            }
        }
    }
}

/// The format is announced before the first frame, and before another one exactly
/// where it differs from the one before it.
pub proof fn law_formats_are_announced_when_they_change(
    frames: Seq<CapturedFrame>,
    worked: Seq<bool>,
    i: int,
)
    requires
        0 <= i < frames.len(),
        frames.len() == worked.len(),
        pixel_format(frames[i].format) is Some,
    ensures
        PusherState::plan_at(frames, worked, i).announce == if i == 0 || frames[i].key()
            != frames[i - 1].key() {
            pixel_format(frames[i].format)
        } else {
            None
        },
{
    lemma_caps_are_the_last(frames, worked, i);
}

/// A frame in a DMA-BUF is pushed in the buffer that was wrapped for its identity
/// since the last announcement, where one was, and there is one such buffer at
/// most. Its descriptor is handed over where its own buffer is wrapped, and closed
/// everywhere else.
pub proof fn law_wrapped_buffers_are_reused(
    frames: Seq<CapturedFrame>,
    worked: Seq<bool>,
    i: int,
)
    requires
        0 <= i < frames.len(),
        frames.len() == worked.len(),
        forall|k: int|
            0 <= k < frames.len() ==> pixel_format((#[trigger] frames[k]).format) is Some,
    ensures
        PusherState::plan_at(frames, worked, i).buffer is Reuse <==> frames[i].is_dma_buf && exists|
            j: int,
        |
            j < i && #[trigger] PusherState::held(frames, worked, j, i + 1)
                && frames[j].buffer_identity == frames[i].buffer_identity,
        forall|a: int, b: int|
            #![trigger PusherState::held(frames, worked, a, i + 1), PusherState::held(frames, worked, b, i + 1)]
            PusherState::held(frames, worked, a, i + 1) && PusherState::held(
                frames,
                worked,
                b,
                i + 1,
            ) && frames[a].buffer_identity == frames[b].buffer_identity ==> a == b,
        PusherState::plan_at(frames, worked, i).buffer.fate() == if frames[i].is_dma_buf && !(
        PusherState::plan_at(frames, worked, i).buffer is Reuse) {
            Descriptor::HandOver
        } else {
            Descriptor::Close
        },
{
    lemma_wrapped_are_held(frames, worked, i);
    let now = PusherState::after_all(frames, worked, i);
    let f = frames[i];
    let plan = PusherState::plan_at(frames, worked, i);
    assert(plan.announce is None <==> now.caps == Some(f.key()));
    assert forall|j: int| j < i implies (#[trigger] PusherState::held(frames, worked, j, i + 1)
        <==> plan.announce is None && PusherState::held(frames, worked, j, i)) by {}
    if f.is_dma_buf {
        if plan.buffer is Reuse {
            assert(now.wrapped.contains(f.buffer_identity));
            let j = choose|j: int| #[trigger]
                PusherState::held(frames, worked, j, i) && frames[j].buffer_identity
                    == f.buffer_identity;
            assert(PusherState::held(frames, worked, j, i + 1));
        }
        if exists|j: int|
            j < i && #[trigger] PusherState::held(frames, worked, j, i + 1)
                && frames[j].buffer_identity == f.buffer_identity {
            let j = choose|j: int|
                j < i && #[trigger] PusherState::held(frames, worked, j, i + 1)
                    && frames[j].buffer_identity == f.buffer_identity;
            assert(PusherState::held(frames, worked, j, i));
            assert(now.wrapped.contains(f.buffer_identity));
        }
    }
    assert forall|a: int, b: int|
        #![trigger PusherState::held(frames, worked, a, i + 1), PusherState::held(frames, worked, b, i + 1)]
        PusherState::held(frames, worked, a, i + 1) && PusherState::held(frames, worked, b, i + 1)
            && frames[a].buffer_identity == frames[b].buffer_identity implies a == b by {
        if a < b {
            lemma_wrapped_once(frames, worked, a, b, i + 1);
        } else if b < a {
            lemma_wrapped_once(frames, worked, b, a, i + 1);
        }
    }
}

proof fn lemma_wrapped_once(
    frames: Seq<CapturedFrame>,
    worked: Seq<bool>,
    a: int,
    b: int,
    n: int,
)
    requires
        0 <= n <= frames.len(),
        frames.len() == worked.len(),
        forall|k: int|
            0 <= k < frames.len() ==> pixel_format((#[trigger] frames[k]).format) is Some,
        PusherState::held(frames, worked, a, n),
        PusherState::held(frames, worked, b, n),
        a < b,
    ensures
        frames[a].buffer_identity != frames[b].buffer_identity,
{
    lemma_wrapped_are_held(frames, worked, b);
    assert(PusherState::plan_at(frames, worked, b).announce is None);
    assert(PusherState::held(frames, worked, a, b));
    assert(PusherState::after_all(frames, worked, b).wrapped.contains(frames[a].buffer_identity));
}

/// A frame is announced exactly where it is the first, or where its format, its
/// width, its height, its modifier or its kind of memory is not that of the frame
/// before; what is announced is the format that the frame's number stands for.
pub proof fn law_frames_are_announced_by_what_they_are(
    frames: Seq<CapturedFrame>,
    worked: Seq<bool>,
    i: int,
)
    requires
        0 <= i < frames.len(),
        frames.len() == worked.len(),
        frames[i].format == 8 || frames[i].format == 12,
    ensures
        PusherState::plan_at(frames, worked, i).announce is Some <==> i == 0 || frames[i].format
            != frames[i - 1].format || frames[i].width != frames[i - 1].width || frames[i].height
            != frames[i - 1].height || frames[i].modifier != frames[i - 1].modifier
            || frames[i].is_dma_buf != frames[i - 1].is_dma_buf,
        PusherState::plan_at(frames, worked, i).announce matches Some(f) ==> f == (
        if frames[i].format == 8 {
            PixelFormat::Bgrx
        } else {
            PixelFormat::Bgra
        }),
{
    lemma_caps_are_the_last(frames, worked, i);
}

/// Two frames that agree in everything that is announced.
spec fn alike(a: CapturedFrame, b: CapturedFrame) -> bool {
    &&& a.format == b.format
    &&& a.width == b.width
    &&& a.height == b.height
    &&& a.modifier == b.modifier
    &&& a.is_dma_buf == b.is_dma_buf
}

proof fn lemma_unannounced_frames_are_alike(
    frames: Seq<CapturedFrame>,
    worked: Seq<bool>,
    j: int,
    i: int,
)
    requires
        0 <= j <= i < frames.len(),
        frames.len() == worked.len(),
        forall|k: int|
            0 <= k < frames.len() ==> (#[trigger] frames[k]).format == 8 || frames[k].format == 12,
        forall|k: int|
            j < k <= i ==> (#[trigger] PusherState::plan_at(frames, worked, k)).announce is None,
    ensures
        alike(frames[j], frames[i]),
    decreases i - j,
{
    if j < i {
        lemma_unannounced_frames_are_alike(frames, worked, j, i - 1);
        assert(frames[i].format == 8 || frames[i].format == 12);
        assert(PusherState::plan_at(frames, worked, i).announce is None);
        law_frames_are_announced_by_what_they_are(frames, worked, i);
    }
}

/// A buffer is pushed again only where it was wrapped for an earlier frame of the
/// same identity whose format, width, height, modifier and kind of memory were
/// all the same, and where it was wrapped so and every frame since was like it,
/// it is pushed again.
pub proof fn law_buffers_are_reused_for_frames_like_theirs(
    frames: Seq<CapturedFrame>,
    worked: Seq<bool>,
    i: int,
)
    requires
        0 <= i < frames.len(),
        frames.len() == worked.len(),
        forall|k: int|
            0 <= k < frames.len() ==> (#[trigger] frames[k]).format == 8 || frames[k].format == 12,
    ensures
        PusherState::plan_at(frames, worked, i).buffer is Reuse ==> frames[i].is_dma_buf && exists|
            j: int,
        |
            0 <= j < i && (#[trigger] PusherState::plan_at(frames, worked, j)).buffer is Wrap
                && worked[j] && frames[j].buffer_identity == frames[i].buffer_identity
                && frames[j].format == frames[i].format && frames[j].width == frames[i].width
                && frames[j].height == frames[i].height && frames[j].modifier
                == frames[i].modifier && frames[j].is_dma_buf == frames[i].is_dma_buf,
        forall|j: int|
            0 <= j < i && (#[trigger] PusherState::plan_at(frames, worked, j)).buffer is Wrap
                && worked[j] && frames[j].buffer_identity == frames[i].buffer_identity && (forall|
                k: int,
            |
                j < k <= i ==> (#[trigger] frames[k]).format == frames[j].format && frames[k].width
                    == frames[j].width && frames[k].height == frames[j].height
                    && frames[k].modifier == frames[j].modifier && frames[k].is_dma_buf
                    == frames[j].is_dma_buf) ==> PusherState::plan_at(
                frames,
                worked,
                i,
            ).buffer is Reuse,
{
    assert forall|k: int| 0 <= k < frames.len() implies pixel_format(
        (#[trigger] frames[k]).format,
    ) is Some by {
        assert(frames[k].format == 8 || frames[k].format == 12);
    }
    law_wrapped_buffers_are_reused(frames, worked, i);
    if PusherState::plan_at(frames, worked, i).buffer is Reuse {
        let j = choose|j: int|
            j < i && #[trigger] PusherState::held(frames, worked, j, i + 1)
                && frames[j].buffer_identity == frames[i].buffer_identity;
        lemma_unannounced_frames_are_alike(frames, worked, j, i);
        assert(PusherState::plan_at(frames, worked, j).buffer is Wrap);
    }
    assert forall|j: int|
        0 <= j < i && (#[trigger] PusherState::plan_at(frames, worked, j)).buffer is Wrap
            && worked[j] && frames[j].buffer_identity == frames[i].buffer_identity && (forall|
            k: int,
        |
            j < k <= i ==> (#[trigger] frames[k]).format == frames[j].format && frames[k].width
                == frames[j].width && frames[k].height == frames[j].height && frames[k].modifier
                == frames[j].modifier && frames[k].is_dma_buf == frames[j].is_dma_buf) implies PusherState::plan_at(
        frames,
        worked,
        i,
    ).buffer is Reuse by {
        assert(frames[i].is_dma_buf) by {
            assert(frames[j].is_dma_buf);
            assert(frames[i].is_dma_buf == frames[j].is_dma_buf);
        }
        assert forall|k: int| j < k < i + 1 implies (#[trigger] PusherState::plan_at(
            frames,
            worked,
            k,
        )).announce is None by {
            assert(frames[k].format == 8 || frames[k].format == 12);
            assert(alike(frames[k], frames[j]));
            assert(alike(frames[k - 1], frames[j])) by {
                if k - 1 > j {
                    assert(frames[k - 1].format == frames[j].format);
                }
            }
            law_frames_are_announced_by_what_they_are(frames, worked, k);
        }
        assert(PusherState::held(frames, worked, j, i + 1));
    }
}

/// A frame that is not in a DMA-BUF is copied, one that is never is; and what is
/// wrapped or copied is as many bytes as the frame's lines take together.
pub proof fn law_whole_frames_are_pushed(frames: Seq<CapturedFrame>, worked: Seq<bool>, i: int)
    requires
        0 <= i < frames.len(),
        frames.len() == worked.len(),
        frames[i].stride >= 0,
        frames[i].stride * frames[i].height <= u32::MAX,
    ensures
        PusherState::plan_at(frames, worked, i).buffer is Copy <==> !frames[i].is_dma_buf,
        match PusherState::plan_at(frames, worked, i).buffer {
            BufferPlan::Reuse => true,
            BufferPlan::Wrap { size } => size == frames[i].stride * frames[i].height,
            BufferPlan::Copy { size } => size == frames[i].stride * frames[i].height,
        },
{
    assert(0 <= frames[i].stride * frames[i].height) by (nonlinear_arith)
        requires
            frames[i].stride >= 0,
    ;
}

/// Decides, frame by frame, what the pusher of captured frames does.
pub struct NativePusher {
    caps: Option<CapsKey>,
    wrapped: Vec<i64>,
}

impl NativePusher {
    /// The format that the pipeline was last told of.
    pub closed spec fn caps(self) -> Option<CapsKey> {
        self.caps
    }

    /// The identities whose buffers were wrapped under that format.
    pub closed spec fn wrapped(self) -> Set<i64> {
        self.wrapped@.to_set()
    }

    pub open spec fn state(self) -> PusherState {
        PusherState { caps: self.caps(), wrapped: self.wrapped() }
    }

    /// A format that was announced is one that capture negotiates.
    pub closed spec fn wf(self) -> bool {
        self.caps matches Some(k) ==> pixel_format(k.format) is Some
    }

    pub fn new() -> (out: NativePusher)
        ensures
            out.wf(),
            out.state() == PusherState::start(),
    {
        let out = NativePusher { caps: None, wrapped: Vec::new() };
        assert(out.wrapped() =~= Set::<i64>::empty());
        out
    }

    /// What to do with the next frame. A change of format, size, modifier or
    /// kind of memory is announced, and makes every wrapped buffer stale.
    pub fn on_frame(&mut self, frame: &CapturedFrame) -> (plan: PushPlan)
        requires
            old(self).wf(),
            pixel_format(frame.format) is Some || old(self).caps() == Some(frame.key()),
            frame.size() <= u32::MAX || (frame.is_dma_buf && old(self).caps() == Some(frame.key())
                && old(self).wrapped().contains(frame.buffer_identity)),
        ensures
            final(self).wf(),
            plan == old(self).state().plan(*frame),
            final(self).state() == old(self).state().told(*frame),
    {
        let key = CapsKey {
            format: frame.format,
            width: frame.width,
            height: frame.height,
            modifier: frame.modifier,
            is_dma_buf: frame.is_dma_buf,
        };
        let known = match self.caps {
            Some(k) => k == key,
            None => false,
        };
        let mut announce = None;
        if !known {
            announce = spa_video_format_to_gst(frame.format);
            self.caps = Some(key);
            self.wrapped = Vec::new();
            assert(self.wrapped() =~= Set::<i64>::empty());
        }
        let buffer = if frame.is_dma_buf && self.is_wrapped(frame.buffer_identity) {
            BufferPlan::Reuse
        } else {
            let stride: u64 = as_unsigned(frame.stride) as u64;
            assert(0 <= stride * frame.height <= u32::MAX) by (nonlinear_arith)
                requires
                    stride == unsigned(frame.stride),
                    unsigned(frame.stride) * frame.height <= u32::MAX,
                    stride >= 0,
            ;
            let size: u32 = (stride * frame.height as u64) as u32;
            if frame.is_dma_buf {
                BufferPlan::Wrap { size }
            } else {
                BufferPlan::Copy { size }
            }
        };
        PushPlan { announce, buffer }
    }

    /// Notes that the buffer of an identity was wrapped.
    pub fn wrap_succeeded(&mut self, identity: i64)
        requires
            old(self).wf(),
        ensures
            final(self).wf(),
            final(self).state() == (PusherState {
                wrapped: old(self).state().wrapped.insert(identity),
                ..old(self).state()
            }),
    {
        self.wrapped.push(identity);
        proof {
            let before = old(self).wrapped@;
            assert forall|x: i64| before.push(identity).contains(x) == before.to_set().insert(
                identity,
            ).contains(x) by {
                if x == identity {
                    assert(before.push(identity)[before.len() as int] == x);
                } else if before.contains(x) {
                    let j = choose|j: int| 0 <= j < before.len() && before[j] == x;
                    assert(before.push(identity)[j] == x);
                }
            }
            assert(self.wrapped() =~= old(self).wrapped().insert(identity));
        }
    }

    fn is_wrapped(&self, identity: i64) -> (r: bool)
        ensures
            r == self.wrapped().contains(identity),
    {
        let mut i: usize = 0;
        while i < self.wrapped.len()
            invariant
                i <= self.wrapped@.len(),
                forall|j: int| 0 <= j < i ==> self.wrapped@[j] != identity,
            decreases self.wrapped@.len() - i,
        {
            if self.wrapped[i] == identity {
                assert(self.wrapped@[i as int] == identity);
                return true;
            }
            i += 1;
        }
        false
    }
}

/// A machine word read as unsigned keeps its bits: it is the same number, or larger by
/// two to the power of 32 where it was negative.
pub proof fn law_unsigned_keeps_the_bits(i: i32)
    ensures
        0 <= unsigned(i) <= u32::MAX,
        i >= 0 ==> unsigned(i) == i,
        i < 0 ==> unsigned(i) == i + 0x1_0000_0000,
{
}

/// The numbers 8 and 12 stand for BGRx and BGRA, and no other number for anything.
pub proof fn law_two_formats_are_known(format: u32)
    ensures
        pixel_format(format) == Some(PixelFormat::Bgrx) <==> format == 8,
        pixel_format(format) == Some(PixelFormat::Bgra) <==> format == 12,
{
}

} // verus!
