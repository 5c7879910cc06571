//! The virtual output that a compositor streams: what the compositor says of
//! it, and how it is brought to a size.
//!
//! The compositor's objects are known here by numbers.

use vstd::prelude::*;

use crate::frames::{as_unsigned, unsigned};
use crate::numbers::{
    is_digit, law_decimal_reads_back, lemma_decimal, lemma_signed_decimal_is_digits, parse_i32,
    read_integer, signed_decimal,
};
use crate::paths::{join_path, joined, value_or};
use crate::text::{
    begins_with, chars_of, contains_text, has_prefix, holds_text, is_space, lemma_run_before,
    run_before, string_of, trim, trimmed,
};

verus! {

/// A mode of an output: its object, and its size once that is known.
#[derive(Clone, Copy, Debug, PartialEq, Eq, Structural)]
pub struct Mode {
    pub id: u64,
    pub width: i32,
    pub height: i32,
}

/// Something that the compositor said.
pub enum CaptureEvent {
    /// The stream runs, as this PipeWire node.
    StreamCreated { node: u32 },
    StreamFailed,
    /// A device has this name.
    DeviceName { device: u64, name: String },
    /// A device has a mode, whose size will follow.
    DeviceMode { mode: u64 },
    DeviceCurrentMode { mode: u64 },
    /// Everything about a device has been said.
    DeviceDone { device: u64 },
    ModeSize { mode: u64, width: i32, height: i32 },
    ModeRemoved { mode: u64 },
    /// A configuration was applied, or was refused.
    ConfigurationDone,
}

/// What is known of the output.
pub struct CaptureState {
    pub our_output_name: String,
    pub node_id: Option<u32>,
    pub stream_done: bool,
    pub our_device: Option<u64>,
    pub has_management: bool,
    modes: Vec<Mode>,
    pub current_mode: Option<u64>,
    pub device_done: bool,
    pub config_done: bool,
}

/// A [`CaptureState`], with its modes by their objects.
#[verifier::ext_equal]
pub struct OutputView {
    pub name: Seq<char>,
    pub node_id: Option<u32>,
    pub stream_done: bool,
    pub our_device: Option<u64>,
    pub has_management: bool,
    pub modes: Map<u64, (i32, i32)>,
    pub current_mode: Option<u64>,
    pub device_done: bool,
    pub config_done: bool,
}

/// How far a size may be off and still count as the wanted one.
pub const TOLERANCE: i64 = 8;

/// How far apart two lengths are.
pub open spec fn apart(a: i32, b: i32) -> int {
    if a >= b {
        a - b
    } else {
        b - a
    }
}

fn distance(a: i32, b: i32) -> (r: i64)
    ensures
        r == apart(a, b),
{
    if a >= b {
        a as i64 - b as i64
    } else {
        b as i64 - a as i64
    }
}

/// Whether a size is as good as the wanted one.
pub open spec fn near(size: (i32, i32), w: i32, h: i32) -> bool {
    apart(size.0, w) <= TOLERANCE && apart(size.1, h) <= TOLERANCE
}

/// Whether a size is known, and is one.
pub open spec fn is_size(size: (i32, i32)) -> bool {
    size.0 > 0 && size.1 > 0
}

/// How far a size is from the wanted one.
pub open spec fn off_by(size: (i32, i32), w: i32, h: i32) -> int {
    apart(size.0, w) + apart(size.1, h)
}

/// What to do to bring the output to a size.
#[derive(Clone, Copy, Debug, PartialEq, Eq, Structural)]
pub enum ModeStep {
    /// There is no output to bring to it.
    NoOutput,
    /// It has the size already.
    Already,
    /// Apply this mode, and wait until that is done.
    Apply { mode: u64 },
    /// Ask for a mode of that size and refresh rate, in millihertz; wait until
    /// that is done, and see what [`CaptureState::mode_after_custom`] says.
    Ask { width: u32, height: u32, refresh: u32 },
}

impl OutputView {
    /// A mode of about that size.
    pub open spec fn has_near(self, w: i32, h: i32) -> bool {
        exists|m: u64| #[trigger] self.is_near(m, w, h)
    }

    pub open spec fn is_near(self, m: u64, w: i32, h: i32) -> bool {
        self.modes.dom().contains(m) && is_size(self.modes[m]) && near(self.modes[m], w, h)
    }

    /// A mode that no other is nearer than.
    pub open spec fn is_nearest(self, m: u64, w: i32, h: i32) -> bool {
        &&& self.is_usable(m)
        &&& forall|o: u64| #[trigger]
            self.is_usable(o) ==> off_by(self.modes[m], w, h) <= off_by(self.modes[o], w, h)
    }

    pub open spec fn is_usable(self, m: u64) -> bool {
        self.modes.dom().contains(m) && is_size(self.modes[m])
    }

    /// Whether the current mode is known and of about that size.
    pub open spec fn is_at(self, w: i32, h: i32) -> bool {
        self.current_mode matches Some(m) && self.modes.dom().contains(m) && near(
            self.modes[m],
            w,
            h,
        )
    }

    /// Whether that is what to do to bring the output to a size.
    pub open spec fn leads_to(self, w: i32, h: i32, step: ModeStep) -> bool {
        match step {
            ModeStep::NoOutput => self.our_device is None || !self.has_management,
            ModeStep::Already => self.our_device is Some && self.has_management && self.is_at(w, h),
            ModeStep::Apply { mode } => {
                &&& self.our_device is Some && self.has_management && !self.is_at(w, h)
                &&& self.is_near(mode, w, h)
            },
            ModeStep::Ask { width, height, refresh } => {
                &&& self.our_device is Some && self.has_management && !self.is_at(w, h)
                &&& !self.has_near(w, h)
                &&& width == unsigned(w) && height == unsigned(h) && refresh == 60_000
            },
        }
    }

    /// Whether that is the mode to apply once a mode of that size was asked for.
    pub open spec fn settles_on(self, w: i32, h: i32, mode: Option<u64>) -> bool {
        match mode {
            Some(m) => if self.has_near(w, h) {
                self.is_near(m, w, h)
            } else {
                self.is_nearest(m, w, h)
            },
            None => forall|m: u64| !(#[trigger] self.is_usable(m)),
        }
    }

    /// The output once the compositor has said `event`.
    pub open spec fn after(self, event: CaptureEvent) -> OutputView {
        match event {
            CaptureEvent::StreamCreated { node } => OutputView {
                node_id: Some(node),
                stream_done: true,
                ..self
            },
            CaptureEvent::StreamFailed => OutputView { stream_done: true, ..self },
            CaptureEvent::DeviceName { device, name } => if contains_text(name@, self.name) {
                OutputView { our_device: Some(device), ..self }
            } else {
                self
            },
            CaptureEvent::DeviceMode { mode } => OutputView {
                modes: self.modes.insert(mode, (0, 0)),
                ..self
            },
            CaptureEvent::DeviceCurrentMode { mode } => OutputView {
                current_mode: Some(mode),
                ..self
            },
            CaptureEvent::DeviceDone { device } => if self.our_device == Some(device) {
                OutputView { device_done: true, ..self }
            } else {
                self
            },
            CaptureEvent::ModeSize { mode, width, height } => if self.modes.dom().contains(mode) {
                OutputView { modes: self.modes.insert(mode, (width, height)), ..self }
            } else {
                self
            },
            CaptureEvent::ModeRemoved { mode } => OutputView {
                modes: self.modes.remove(mode),
                current_mode: if self.current_mode == Some(mode) {
                    None
                } else {
                    self.current_mode
                },
                ..self
            },
            CaptureEvent::ConfigurationDone => OutputView { config_done: true, ..self },
        }
    }

    /// Whether the stream and its device are both there.
    pub open spec fn ready(self) -> bool {
        self.stream_done && self.our_device is Some && self.device_done
    }
}

spec fn held(modes: Seq<Mode>, id: u64, i: int) -> bool {
    0 <= i < modes.len() && modes[i].id == id
}

spec fn by_object(modes: Seq<Mode>) -> Map<u64, (i32, i32)> {
    Map::new(
        |id: u64| exists|i: int| held(modes, id, i),
        |id: u64|
            {
                let m = modes[choose|i: int| held(modes, id, i)];
                (m.width, m.height)
            },
    )
}

spec fn distinct(modes: Seq<Mode>) -> bool {
    forall|i: int, j: int|
        0 <= i < j < modes.len() ==> (#[trigger] modes[i]).id != (#[trigger] modes[j]).id
}

proof fn lemma_held(modes: Seq<Mode>, i: int)
    requires
        distinct(modes),
        0 <= i < modes.len(),
    ensures
        by_object(modes).dom().contains(modes[i].id),
        by_object(modes)[modes[i].id] == (modes[i].width, modes[i].height),
{
    let id = modes[i].id;
    assert(held(modes, id, i));
    let k = choose|k: int| held(modes, id, k);
    if k < i {
        assert(modes[k].id != modes[i].id);
    } else if i < k {
        assert(modes[i].id != modes[k].id);
    }
}

/// Two lists of modes say the same where every mode of each is in the other.
proof fn lemma_by_object(modes: Seq<Mode>, map: Map<u64, (i32, i32)>)
    requires
        distinct(modes),
        forall|i: int|
            0 <= i < modes.len() ==> map.dom().contains((#[trigger] modes[i]).id) && map[modes[i].id]
                == (modes[i].width, modes[i].height),
        forall|id: u64| #[trigger] map.dom().contains(id) ==> exists|i: int| held(modes, id, i),
    ensures
        by_object(modes) == map,
{
    assert forall|id: u64| by_object(modes).dom().contains(id) == map.dom().contains(id) by {
        if by_object(modes).dom().contains(id) {
            let i = choose|i: int| held(modes, id, i);
            assert(map.dom().contains(modes[i].id));
        }
    }
    assert forall|id: u64| by_object(modes).dom().contains(id) implies by_object(modes)[id]
        == map[id] by {
        let i = choose|i: int| held(modes, id, i);
        lemma_held(modes, i);
    }
    assert(by_object(modes) =~= map);
}

impl View for CaptureState {
    type V = OutputView;

    closed spec fn view(&self) -> OutputView {
        OutputView {
            name: self.our_output_name@,
            node_id: self.node_id,
            stream_done: self.stream_done,
            our_device: self.our_device,
            has_management: self.has_management,
            modes: by_object(self.modes@),
            current_mode: self.current_mode,
            device_done: self.device_done,
            config_done: self.config_done,
        }
    }
}

impl CaptureState {
    /// No mode is held twice.
    pub closed spec fn wf(self) -> bool {
        distinct(self.modes@)
    }

    pub fn new(name: &str) -> (s: CaptureState)
        ensures
            s.wf(),
            s@ == (OutputView {
                name: name@,
                node_id: None,
                stream_done: false,
                our_device: None,
                has_management: false,
                modes: Map::empty(),
                current_mode: None,
                device_done: false,
                config_done: false,
            }),
    {
        let s = CaptureState {
            our_output_name: name.to_string(),
            node_id: None,
            stream_done: false,
            our_device: None,
            has_management: false,
            modes: Vec::new(),
            current_mode: None,
            device_done: false,
            config_done: false,
        };
        proof {
            lemma_by_object(s.modes@, Map::empty());
        }
        s
    }

    fn find(&self, id: u64) -> (r: Option<usize>)
        requires
            self.wf(),
        ensures
            match r {
                Some(i) => i < self.modes@.len() && self.modes@[i as int].id == id
                    && self@.modes.dom().contains(id) && self@.modes[id] == (
                    self.modes@[i as int].width,
                    self.modes@[i as int].height,
                ),
                None => !self@.modes.dom().contains(id),
            },
    {
        let mut i: usize = 0;
        while i < self.modes.len()
            invariant
                self.wf(),
                i <= self.modes@.len(),
                forall|j: int| 0 <= j < i ==> (#[trigger] self.modes@[j]).id != id,
            decreases self.modes@.len() - i,
        {
            if self.modes[i].id == id {
                proof {
                    lemma_held(self.modes@, i as int);
                }
                return Some(i);
            }
            i += 1;
        }
        None
    }

    fn put_mode(&mut self, mode: Mode)
        requires
            old(self).wf(),
        ensures
            final(self).wf(),
            final(self)@ == (OutputView {
                modes: old(self)@.modes.insert(mode.id, (mode.width, mode.height)),
                ..old(self)@
            }),
    {
        let ghost before = self.modes@;
        let ghost map = self@.modes.insert(mode.id, (mode.width, mode.height));
        match self.find(mode.id) {
            Some(i) => {
                self.modes.set(i, mode);
                proof {
                    let now = self.modes@;
                    assert(now =~= before.update(i as int, mode));
                    assert forall|a: int, b: int| 0 <= a < b < now.len() implies (
                    #[trigger] now[a]).id != (#[trigger] now[b]).id by {
                        assert(now[a].id == before[a].id && now[b].id == before[b].id);
                        assert(before[a].id != before[b].id);
                    }
                    assert forall|k: int| 0 <= k < now.len() implies map.dom().contains(
                        (#[trigger] now[k]).id,
                    ) && map[now[k].id] == (now[k].width, now[k].height) by {
                        lemma_held(before, k);
                        if k < i {
                            assert(before[k].id != before[i as int].id);
                        } else if k > i {
                            assert(before[i as int].id != before[k].id);
                        }
                    }
                    assert forall|id: u64| #[trigger] map.dom().contains(id) implies exists|k: int|
                        held(now, id, k) by {
                        if id == mode.id {
                            assert(held(now, id, i as int));
                        } else {
                            let k = choose|k: int| held(before, id, k);
                            assert(held(now, id, k));
                        }
                    }
                    lemma_by_object(now, map);
                }
            },
            None => {
                self.modes.push(mode);
                proof {
                    let now = self.modes@;
                    assert forall|a: int, b: int| 0 <= a < b < now.len() implies (
                    #[trigger] now[a]).id != (#[trigger] now[b]).id by {
                        assert(now[a] == before[a]);
                        if b == before.len() {
                            assert(held(before, now[a].id, a));
                        } else {
                            assert(now[b] == before[b]);
                        }
                    }
                    assert forall|k: int| 0 <= k < now.len() implies map.dom().contains(
                        (#[trigger] now[k]).id,
                    ) && map[now[k].id] == (now[k].width, now[k].height) by {
                        if k < before.len() {
                            assert(now[k] == before[k]);
                            lemma_held(before, k);
                        }
                    }
                    assert forall|id: u64| #[trigger] map.dom().contains(id) implies exists|k: int|
                        held(now, id, k) by {
                        if id == mode.id {
                            assert(held(now, id, before.len() as int));
                        } else {
                            let k = choose|k: int| held(before, id, k);
                            assert(held(now, id, k));
                        }
                    }
                    lemma_by_object(now, map);
                }
            },
        }
    }

    fn drop_mode(&mut self, id: u64)
        requires
            old(self).wf(),
        ensures
            final(self).wf(),
            final(self)@ == (OutputView { modes: old(self)@.modes.remove(id), ..old(self)@ }),
    {
        let ghost before = self.modes@;
        let ghost map = self@.modes.remove(id);
        match self.find(id) {
            Some(i) => {
                let _ = self.modes.remove(i);
                proof {
                    let now = self.modes@;
                    assert forall|a: int, b: int| 0 <= a < b < now.len() implies (
                    #[trigger] now[a]).id != (#[trigger] now[b]).id by {
                        let x = if a < i {
                            a
                        } else {
                            a + 1
                        };
                        let y = if b < i {
                            b
                        } else {
                            b + 1
                        };
                        assert(now[a] == before[x] && now[b] == before[y]);
                        assert(before[x].id != before[y].id);
                    }
                    assert forall|k: int| 0 <= k < now.len() implies map.dom().contains(
                        (#[trigger] now[k]).id,
                    ) && map[now[k].id] == (now[k].width, now[k].height) by {
                        let x = if k < i {
                            k
                        } else {
                            k + 1
                        };
                        assert(now[k] == before[x]);
                        lemma_held(before, x);
                        if x < i {
                            assert(before[x].id != before[i as int].id);
                        } else {
                            assert(before[i as int].id != before[x].id);
                        }
                    }
                    assert forall|o: u64| #[trigger] map.dom().contains(o) implies exists|k: int|
                        held(now, o, k) by {
                        let k = choose|k: int| held(before, o, k);
                        let x = if k < i {
                            k
                        } else {
                            k - 1
                        };
                        assert(now[x] == before[k]);
                        assert(held(now, o, x));
                    }
                    lemma_by_object(now, map);
                }
            },
            None => {
                assert(self@.modes =~= map);
            },
        }
    }

    /// Takes in what the compositor said.
    pub fn event(&mut self, event: CaptureEvent)
        requires
            old(self).wf(),
        ensures
            final(self).wf(),
            final(self)@ == old(self)@.after(event),
    {
        match event {
            CaptureEvent::StreamCreated { node } => {
                self.node_id = Some(node);
                self.stream_done = true;
            },
            CaptureEvent::StreamFailed => {
                self.stream_done = true;
            },
            CaptureEvent::DeviceName { device, name } => {
                if holds_text(name.as_str(), self.our_output_name.as_str()) {
                    self.our_device = Some(device);
                }
            },
            CaptureEvent::DeviceMode { mode } => {
                self.put_mode(Mode { id: mode, width: 0, height: 0 });
            },
            CaptureEvent::DeviceCurrentMode { mode } => {
                self.current_mode = Some(mode);
            },
            CaptureEvent::DeviceDone { device } => {
                let ours = match self.our_device {
                    Some(d) => d == device,
                    None => false,
                };
                if ours {
                    self.device_done = true;
                }
            },
            CaptureEvent::ModeSize { mode, width, height } => {
                if self.find(mode).is_some() {
                    self.put_mode(Mode { id: mode, width, height });
                }
            },
            CaptureEvent::ModeRemoved { mode } => {
                self.drop_mode(mode);
                let current = match self.current_mode {
                    Some(m) => m == mode,
                    None => false,
                };
                if current {
                    self.current_mode = None;
                }
            },
            CaptureEvent::ConfigurationDone => {
                self.config_done = true;
            },
        }
    }

    /// Forgets what belonged to the stream before, before the next is asked for.
    pub fn begin_stream(&mut self)
        requires
            old(self).wf(),
        ensures
            final(self).wf(),
            final(self)@ == (OutputView {
                node_id: None,
                stream_done: false,
                our_device: None,
                device_done: false,
                current_mode: None,
                ..old(self)@
            }),
    {
        self.node_id = None;
        self.stream_done = false;
        self.our_device = None;
        self.device_done = false;
        self.current_mode = None;
    }

    /// Whether the stream and its device are both there.
    pub fn is_ready(&self) -> (r: bool)
        ensures
            r == self@.ready(),
    {
        self.stream_done && self.our_device.is_some() && self.device_done
    }

    /// The stream's node. A stream that failed has none.
    pub fn stream_node(&self) -> (r: Result<u32, String>)
        ensures
            match r {
                Ok(n) => self@.node_id == Some(n),
                Err(m) => self@.node_id is None && m@ == "virtual output stream failed"@,
            },
    {
        match self.node_id {
            Some(n) => Ok(n),
            None => Err("virtual output stream failed".to_string()),
        }
    }

    /// Notes that a configuration was sent off, before its outcome is waited for.
    pub fn begin_configuration(&mut self)
        requires
            old(self).wf(),
        ensures
            final(self).wf(),
            final(self)@ == (OutputView { config_done: false, ..old(self)@ }),
    {
        self.config_done = false;
    }

    /// A mode of about that size, where there is one.
    pub fn find_mode(&self, w: i32, h: i32) -> (r: Option<u64>)
        requires
            self.wf(),
        ensures
            match r {
                Some(m) => self@.is_near(m, w, h),
                None => !self@.has_near(w, h),
            },
    {
        let mut i: usize = 0;
        while i < self.modes.len()
            invariant
                self.wf(),
                i <= self.modes@.len(),
                forall|j: int|
                    0 <= j < i ==> !self@.is_near((#[trigger] self.modes@[j]).id, w, h),
            decreases self.modes@.len() - i,
        {
            let m = self.modes[i];
            proof {
                lemma_held(self.modes@, i as int);
            }
            if m.width > 0 && m.height > 0 && distance(m.width, w) <= TOLERANCE && distance(
                m.height,
                h,
            ) <= TOLERANCE {
                return Some(m.id);
            }
            i += 1;
        }
        proof {
            assert forall|m: u64| !(#[trigger] self@.is_near(m, w, h)) by {
                if self@.is_near(m, w, h) {
                    let k = choose|k: int| held(self.modes@, m, k);
                    assert(self.modes@[k].id == m);
                }
            }
        }
        None
    }

    /// A mode that no other is nearer than, where there is any.
    pub fn nearest_mode(&self, w: i32, h: i32) -> (r: Option<u64>)
        requires
            self.wf(),
        ensures
            match r {
                Some(m) => self@.is_nearest(m, w, h),
                None => forall|m: u64| !(#[trigger] self@.is_usable(m)),
            },
    {
        let mut best: Option<usize> = None;
        let mut i: usize = 0;
        while i < self.modes.len()
            invariant
                self.wf(),
                i <= self.modes@.len(),
                match best {
                    None => forall|j: int|
                        0 <= j < i ==> !is_size(
                            ((#[trigger] self.modes@[j]).width, self.modes@[j].height),
                        ),
                    Some(b) => {
                        &&& b < i
                        &&& is_size((self.modes@[b as int].width, self.modes@[b as int].height))
                        &&& forall|j: int|
                            0 <= j < i && is_size(
                                ((#[trigger] self.modes@[j]).width, self.modes@[j].height),
                            ) ==> off_by(
                                (self.modes@[b as int].width, self.modes@[b as int].height),
                                w,
                                h,
                            ) <= off_by((self.modes@[j].width, self.modes@[j].height), w, h)
                    },
                },
            decreases self.modes@.len() - i,
        {
            let m = self.modes[i];
            if m.width > 0 && m.height > 0 {
                match best {
                    None => {
                        best = Some(i);
                    },
                    Some(b) => {
                        let n = self.modes[b];
                        if distance(m.width, w) + distance(m.height, h) < distance(n.width, w)
                            + distance(n.height, h) {
                            best = Some(i);
                        }
                    },
                }
            }
            i += 1;
        }
        proof {
            assert forall|o: u64| #[trigger] self@.is_usable(o) implies exists|k: int|
                held(self.modes@, o, k) && self@.modes[o] == (
                    self.modes@[k].width,
                    self.modes@[k].height,
                ) by {
                let k = choose|k: int| held(self.modes@, o, k);
                lemma_held(self.modes@, k);
            }
        }
        match best {
            None => {
                proof {
                    assert forall|o: u64| !(#[trigger] self@.is_usable(o)) by {
                        if self@.is_usable(o) {
                            let k = choose|k: int|
                                held(self.modes@, o, k) && self@.modes[o] == (
                                    self.modes@[k].width,
                                    self.modes@[k].height,
                                );
                            assert(!is_size((self.modes@[k].width, self.modes@[k].height)));
                        }
                    }
                }
                None
            },
            Some(b) => {
                proof {
                    lemma_held(self.modes@, b as int);
                    let m = self.modes@[b as int].id;
                    assert forall|o: u64| #[trigger] self@.is_usable(o) implies off_by(
                        self@.modes[m],
                        w,
                        h,
                    ) <= off_by(self@.modes[o], w, h) by {
                        let k = choose|k: int|
                            held(self.modes@, o, k) && self@.modes[o] == (
                                self.modes@[k].width,
                                self.modes@[k].height,
                            );
                        assert(is_size((self.modes@[k].width, self.modes@[k].height)));
                    }
                }
                Some(self.modes[b].id)
            },
        }
    }

    /// What to do to bring the output to a size.
    pub fn set_output_mode(&self, w: i32, h: i32) -> (step: ModeStep)
        requires
            self.wf(),
        ensures
            match step {
                ModeStep::NoOutput => self@.our_device is None || !self@.has_management,
                ModeStep::Already => self@.our_device is Some && self@.has_management && self@.is_at(
                    w,
                    h,
                ),
                ModeStep::Apply { mode } => {
                    &&& self@.our_device is Some && self@.has_management && !self@.is_at(w, h)
                    &&& self@.is_near(mode, w, h)
                },
                ModeStep::Ask { width, height, refresh } => {
                    &&& self@.our_device is Some && self@.has_management && !self@.is_at(w, h)
                    &&& !self@.has_near(w, h)
                    &&& width == unsigned(w) && height == unsigned(h) && refresh == 60_000
                },
            },
            self@.leads_to(w, h, step),
    {
        if self.our_device.is_none() || !self.has_management {
            return ModeStep::NoOutput;
        }
        if let Some(id) = self.current_mode {
            if let Some(i) = self.find(id) {
                let m = self.modes[i];
                if distance(m.width, w) <= TOLERANCE && distance(m.height, h) <= TOLERANCE {
                    return ModeStep::Already;
                }
            }
        }
        match self.find_mode(w, h) {
            Some(mode) => ModeStep::Apply { mode },
            None => ModeStep::Ask {
                width: as_unsigned(w),
                height: as_unsigned(h),
                refresh: 60_000,
            },
        }
    }

    /// The mode to apply once a mode of that size was asked for: one of about
    /// that size, or else the nearest there is.
    pub fn mode_after_custom(&self, w: i32, h: i32) -> (r: Option<u64>)
        requires
            self.wf(),
        ensures
            match r {
                Some(m) => if self@.has_near(w, h) {
                    self@.is_near(m, w, h)
                } else {
                    self@.is_nearest(m, w, h)
                },
                None => forall|m: u64| !(#[trigger] self@.is_usable(m)),
            },
            self@.settles_on(w, h, r),
    {
        match self.find_mode(w, h) {
            Some(m) => Some(m),
            None => self.nearest_mode(w, h),
        }
    }
}

/// A mode that was removed is not the current one any more, and is not found
/// again.
pub proof fn law_removed_modes_are_gone(output: OutputView, mode: u64, w: i32, h: i32)
    ensures
        output.after(CaptureEvent::ModeRemoved { mode }).current_mode != Some(mode),
        !output.after(CaptureEvent::ModeRemoved { mode }).is_near(mode, w, h),
        !output.after(CaptureEvent::ModeRemoved { mode }).is_usable(mode),
{
}

/// Once a mode of about the wanted size is the current one, nothing more is done
/// for that size.
pub proof fn law_reaching_a_size_is_stable(output: OutputView, mode: u64, w: i32, h: i32)
    requires
        output.is_near(mode, w, h),
    ensures
        output.after(CaptureEvent::DeviceCurrentMode { mode }).is_at(w, h),
{
}

/// Where nothing is to be done, the current mode's width is within eight pixels of
/// the wanted one and so is its height; where a mode is to be applied, both hold
/// of that mode, and do not both hold of the current one; and a mode is asked for
/// only where both hold of none, by the size that is wanted. Without an output
/// that can be configured, and only then, there is nothing that could be done.
pub proof fn law_sizes_are_reached_within_eight_pixels(
    output: OutputView,
    w: i32,
    h: i32,
    step: ModeStep,
)
    requires
        output.leads_to(w, h, step),
    ensures
        step is NoOutput <==> output.our_device is None || !output.has_management,
        step is Already ==> exists|m: u64| #[trigger]
            output.modes.dom().contains(m) && output.current_mode == Some(m) && -8
                <= output.modes[m].0 - w <= 8 && -8 <= output.modes[m].1 - h <= 8,
        !(step is NoOutput) && !(step is Already) ==> forall|m: u64| #[trigger]
            output.modes.dom().contains(m) && output.current_mode == Some(m) ==> !(-8
                <= output.modes[m].0 - w <= 8 && -8 <= output.modes[m].1 - h <= 8),
        step matches ModeStep::Apply { mode } ==> output.modes.dom().contains(mode)
            && output.modes[mode].0 > 0 && output.modes[mode].1 > 0 && -8 <= output.modes[mode].0
            - w <= 8 && -8 <= output.modes[mode].1 - h <= 8,
        step is Ask ==> forall|m: u64| #[trigger]
            output.modes.dom().contains(m) ==> output.modes[m].0 <= 0 || output.modes[m].1 <= 0
                || output.modes[m].0 < w - 8 || output.modes[m].0 > w + 8 || output.modes[m].1 < h
                - 8 || output.modes[m].1 > h + 8,
        (step matches ModeStep::Ask { width, height, refresh } ==> refresh == 60_000 && (w >= 0
            ==> width == w) && (h >= 0 ==> height == h)),
{
    if step is Ask {
        assert forall|m: u64| #[trigger] output.modes.dom().contains(m) implies output.modes[m].0
            <= 0 || output.modes[m].1 <= 0 || output.modes[m].0 < w - 8 || output.modes[m].0 > w + 8
            || output.modes[m].1 < h - 8 || output.modes[m].1 > h + 8 by {
            assert(!output.is_near(m, w, h));
        }
    }
}

/// The mode that is settled on has a size. Its width and its height are both within
/// eight pixels of the wanted ones wherever a mode has such a size, and otherwise
/// what both are off by together is as little as for any mode. None is settled on
/// exactly where no mode has a size.
pub proof fn law_the_nearest_mode_is_settled_on(
    output: OutputView,
    w: i32,
    h: i32,
    mode: Option<u64>,
)
    requires
        output.settles_on(w, h, mode),
    ensures
        mode is None <==> forall|m: u64| #[trigger]
            output.modes.dom().contains(m) ==> output.modes[m].0 <= 0 || output.modes[m].1 <= 0,
        mode matches Some(m) ==> {
            &&& output.modes.dom().contains(m)
            &&& output.modes[m].0 > 0 && output.modes[m].1 > 0
            &&& {
                ||| -8 <= output.modes[m].0 - w <= 8 && -8 <= output.modes[m].1 - h <= 8
                ||| forall|o: u64| #[trigger]
                    output.modes.dom().contains(o) && output.modes[o].0 > 0 && output.modes[o].1
                        > 0 ==> vstd::math::abs(output.modes[m].0 - w) + vstd::math::abs(
                        output.modes[m].1 - h,
                    ) <= vstd::math::abs(output.modes[o].0 - w) + vstd::math::abs(
                        output.modes[o].1 - h,
                    )
            }
        },
        (exists|o: u64| #[trigger]
            output.modes.dom().contains(o) && output.modes[o].0 > 0 && output.modes[o].1 > 0 && -8
                <= output.modes[o].0 - w <= 8 && -8 <= output.modes[o].1 - h <= 8) ==> (mode matches Some(m)
            && -8 <= output.modes[m].0 - w <= 8 && -8 <= output.modes[m].1 - h <= 8),
{
    match mode {
        None => {
            assert forall|m: u64| #[trigger] output.modes.dom().contains(m) implies output.modes[m].0
                <= 0 || output.modes[m].1 <= 0 by {
                assert(!output.is_usable(m));
            }
        },
        Some(m) => {
            if !output.has_near(w, h) {
                assert forall|o: u64| #[trigger]
                    output.modes.dom().contains(o) && output.modes[o].0 > 0 && output.modes[o].1
                        > 0 implies vstd::math::abs(output.modes[m].0 - w) + vstd::math::abs(
                    output.modes[m].1 - h,
                ) <= vstd::math::abs(output.modes[o].0 - w) + vstd::math::abs(
                    output.modes[o].1 - h,
                ) by {
                    assert(output.is_usable(o));
                }
                assert forall|o: u64| #[trigger]
                    output.modes.dom().contains(o) && output.modes[o].0 > 0 && output.modes[o].1
                        > 0 implies !(-8 <= output.modes[o].0 - w <= 8 && -8 <= output.modes[o].1
                    - h <= 8) by {
                    assert(!output.is_near(o, w, h));
                }
            }
        },
    }
}

/// A mode has the size that was last told of it, and telling one mode's size
/// changes no other; a size that is told of a mode that is not there is not
/// kept.
pub proof fn law_modes_have_the_size_they_were_told(
    output: OutputView,
    mode: u64,
    width: i32,
    height: i32,
    other: u64,
)
    requires
        other != mode,
    ensures
        output.after(CaptureEvent::DeviceMode { mode }).modes.dom().contains(mode),
        ({
            let sized = output.after(CaptureEvent::DeviceMode { mode }).after(
                CaptureEvent::ModeSize { mode, width, height },
            );
            &&& sized.modes.dom().contains(mode)
            &&& sized.modes[mode].0 == width
            &&& sized.modes[mode].1 == height
            &&& sized.modes.dom().contains(other) == output.modes.dom().contains(other)
            &&& output.modes.dom().contains(other) ==> sized.modes[other] == output.modes[other]
            &&& sized.current_mode == output.current_mode
        }),
        !output.modes.dom().contains(mode) ==> !output.after(
            CaptureEvent::ModeSize { mode, width, height },
        ).modes.dom().contains(mode),
        output.after(CaptureEvent::DeviceCurrentMode { mode: other }).current_mode == Some(other),
        output.current_mode == Some(other) ==> output.after(
            CaptureEvent::ModeRemoved { mode },
        ).current_mode == Some(other),
        output.modes.dom().contains(other) ==> output.after(
            CaptureEvent::ModeRemoved { mode },
        ).modes[other] == output.modes[other],
{
}

/// A stream is ready once it was created, or was refused, and once all was said of
/// a device whose name holds the output's; what is said of other devices makes no
/// difference.
pub proof fn law_the_stream_waits_for_its_own_device(
    output: OutputView,
    node: u32,
    device: u64,
    other: u64,
    name: String,
    foreign: String,
)
    requires
        contains_text(name@, output.name),
        !contains_text(foreign@, output.name),
        other != device,
        output.our_device is None,
        !output.device_done,
        !output.stream_done,
    ensures
        !output.ready(),
        ({
            let created = output.after(CaptureEvent::StreamCreated { node });
            let named = created.after(CaptureEvent::DeviceName { device, name });
            &&& created.node_id == Some(node)
            &&& !created.ready() && !named.ready()
            &&& named.our_device == Some(device)
            &&& named.after(CaptureEvent::DeviceDone { device }).ready()
            &&& named.after(CaptureEvent::DeviceDone { device }).node_id == Some(node)
            &&& !named.after(CaptureEvent::DeviceDone { device: other }).ready()
            &&& named.after(CaptureEvent::DeviceName { device: other, name: foreign }) == named
        }),
        output.after(CaptureEvent::StreamFailed).stream_done,
        output.after(CaptureEvent::StreamFailed).node_id == output.node_id,
        output.after(CaptureEvent::ConfigurationDone).config_done,
{
}

/// What is bound is never newer than what the compositor has, nor than the fourth
/// version of the screencast, the eighteenth of the output management and the
/// twenty-first of the device registry; and it is the compositor's version
/// wherever that is no newer.
pub proof fn law_interfaces_are_bound_as_new_as_both_sides_know(interface: Interface)
    ensures
        interface is Screencast ==> newest(interface) == 4 && interface.wire_name()
            == "zkde_screencast_unstable_v1"@,
        interface is OutputManagement ==> newest(interface) == 18 && interface.wire_name()
            == "kde_output_management_v2"@,
        interface is OutputDeviceRegistry ==> newest(interface) == 21 && interface.wire_name()
            == "kde_output_device_registry_v2"@,
{
}

/// The version of an interface to bind, where it is one that is used: the
/// compositor's, but no newer than is understood here.
pub fn bind_version(interface: Interface, version: u32) -> (v: u32)
    ensures
        v == if version <= newest(interface) {
            version
        } else {
            newest(interface)
        },
{
    let limit: u32 = match interface {
        Interface::Screencast => 4,
        Interface::OutputManagement => 18,
        Interface::OutputDeviceRegistry => 21,
    };
    if version <= limit {
        version
    } else {
        limit
    }
}

/// An interface of the compositor's that is used.
#[derive(Clone, Copy, Debug, PartialEq, Eq, Structural)]
pub enum Interface {
    Screencast,
    OutputManagement,
    OutputDeviceRegistry,
}

/// The newest version of an interface that is understood here.
pub open spec fn newest(interface: Interface) -> u32 {
    match interface {
        Interface::Screencast => 4,
        Interface::OutputManagement => 18,
        Interface::OutputDeviceRegistry => 21,
    }
}

impl Interface {
    pub open spec fn wire_name(self) -> Seq<char> {
        match self {
            Interface::Screencast => "zkde_screencast_unstable_v1"@,
            Interface::OutputManagement => "kde_output_management_v2"@,
            Interface::OutputDeviceRegistry => "kde_output_device_registry_v2"@,
        }
    }

    /// The interface of that name, where it is one that is used.
    pub fn named(name: &str) -> (r: Option<Interface>)
        ensures
            match r {
                Some(i) => i.wire_name() == name@,
                None => forall|i: Interface| #[trigger] i.wire_name() != name@,
            },
    {
        if crate::text::same_text(name, "zkde_screencast_unstable_v1") {
            Some(Interface::Screencast)
        } else if crate::text::same_text(name, "kde_output_management_v2") {
            Some(Interface::OutputManagement)
        } else if crate::text::same_text(name, "kde_output_device_registry_v2") {
            Some(Interface::OutputDeviceRegistry)
        } else {
            None
        }
    }
}

/// The size in a line that reads `resize <width>x<height>`.
pub open spec fn resize_in(line: Seq<char>) -> Option<(int, int)> {
    let t = trimmed(line);
    let dims = t.skip(7);
    let at = run_before(dims, 'x') as int;
    let w = read_integer(trimmed(dims.take(at)), i32::MIN as int, i32::MAX as int);
    let h = read_integer(trimmed(dims.skip(at + 1)), i32::MIN as int, i32::MAX as int);
    if has_prefix(t, "resize "@) && at < dims.len() {
        match (w, h) {
            (Ok(w), Ok(h)) => Some((w, h)),
            _ => None,
        }
    } else {
        None
    }
}

/// The size in a line that reads `resize <width>x<height>`; any other line holds
/// none.
pub fn parse_resize(line: &str) -> (r: Option<(i32, i32)>)
    ensures
        match r {
            Some((w, h)) => resize_in(line@) == Some((w as int, h as int)),
            None => resize_in(line@) is None,
        },
{
    let t = trim(line);
    if !begins_with(t.as_str(), "resize ") {
        return None;
    }
    assert("resize "@.len() == 7) by {
        reveal_strlit("resize ");
    }
    let chars = chars_of(t.as_str());
    let ghost dims = t@.skip(7);
    let mut at: usize = 7;
    while at < chars.len() && chars[at] != 'x'
        invariant
            7 <= at <= chars@.len(),
            forall|j: int| 7 <= j < at ==> chars@[j] != 'x',
        decreases chars@.len() - at,
    {
        at += 1;
    }
    proof {
        assert forall|j: int| 0 <= j < at - 7 implies dims[j] != 'x' by {
            assert(dims[j] == chars@[j + 7]);
        }
        if at < chars@.len() {
            assert(dims[at - 7] == chars@[at as int]);
        }
        lemma_run_before(dims, 'x', at - 7);
    }
    if at == chars.len() {
        return None;
    }
    let ws = string_of(&chars, 7, at);
    let hs = string_of(&chars, at + 1, chars.len());
    assert(ws@ =~= dims.take(at - 7));
    assert(hs@ =~= dims.skip(at - 7 + 1));
    match (parse_i32(trim(ws.as_str()).as_str()), parse_i32(trim(hs.as_str()).as_str())) {
        (Ok(w), Ok(h)) => Some((w, h)),
        _ => None,
    }
}

proof fn lemma_signed_is_trimmed(i: int)
    ensures
        signed_decimal(i).len() > 0,
        !is_space(signed_decimal(i)[0]),
        !is_space(signed_decimal(i).last()),
        forall|j: int| 0 <= j < signed_decimal(i).len() ==> signed_decimal(i)[j] != 'x',
        trimmed(signed_decimal(i)) == signed_decimal(i),
{
    lemma_signed_decimal_is_digits(i);
    lemma_decimal(
        if i < 0 {
            (-i) as nat
        } else {
            i as nat
        },
    );
    let s = signed_decimal(i);
    assert(is_digit(s[0]) || s[0] == '-');
    assert(is_digit(s[s.len() - 1]) || s[s.len() - 1] == '-');
}

/// A line that asks for a size holds that size, whatever the size is.
pub proof fn law_resize_lines_read_as_their_size(w: int, h: int)
    requires
        i32::MIN <= w <= i32::MAX,
        i32::MIN <= h <= i32::MAX,
    ensures
        resize_in("resize "@ + signed_decimal(w) + "x"@ + signed_decimal(h)) == Some((w, h)),
{
    reveal_strlit("resize ");
    reveal_strlit("x");
    lemma_signed_is_trimmed(w);
    lemma_signed_is_trimmed(h);
    let ws = signed_decimal(w);
    let hs = signed_decimal(h);
    let line = "resize "@ + ws + "x"@ + hs;
    assert(line[0] == 'r');
    assert(line.last() == hs.last());
    assert(trimmed(line) == line);
    assert(line.subrange(0, 7) =~= "resize "@);
    let dims = line.skip(7);
    assert(dims =~= ws + "x"@ + hs);
    assert forall|j: int| 0 <= j < ws.len() implies dims[j] != 'x' by {
        assert(dims[j] == ws[j]);
    }
    lemma_run_before(dims, 'x', ws.len() as int);
    assert(dims.take(ws.len() as int) =~= ws);
    assert(dims.skip(ws.len() as int + 1) =~= hs);
    law_decimal_reads_back(w, i32::MIN as int, i32::MAX as int);
    law_decimal_reads_back(h, i32::MIN as int, i32::MAX as int);
}

/// A number from the environment, or a default where there is none to read.
pub fn env_i32(value: Option<&str>, default: i32) -> (r: i32)
    ensures
        match value {
            Some(v) => match read_integer(v@, i32::MIN as int, i32::MAX as int) {
                Ok(n) => r == n,
                Err(_) => r == default,
            },
            None => r == default,
        },
{
    match value {
        Some(v) => match parse_i32(v) {
            Ok(n) => n,
            Err(_) => default,
        },
        None => default,
    }
}

/// The socket of the compositor that `WAYLAND_DISPLAY` names, which is looked
/// for in the runtime directory unless its path is absolute.
pub fn wayland_socket(display: Option<String>, runtime: &str) -> (path: String)
    ensures
        path@ == joined(
            runtime@,
            match display {
                Some(d) => d@,
                None => "wayland-0"@,
            },
        ),
{
    let name = value_or(display, "wayland-0");
    join_path(runtime, name.as_str())
}

/// A line that does not begin with the word, or that has no `x` between its two numbers,
/// asks for no size.
pub proof fn law_other_lines_ask_for_no_size(line: Seq<char>)
    ensures
        !has_prefix(trimmed(line), "resize "@) ==> resize_in(line) is None,
        (forall|i: int| 7 <= i < trimmed(line).len() ==> trimmed(line)[i] != 'x') ==> resize_in(
            line,
        ) is None,
{
    let t = trimmed(line);
    reveal_strlit("resize ");
    if has_prefix(t, "resize "@) && (forall|i: int| 7 <= i < t.len() ==> t[i] != 'x') {
        let dims = t.skip(7);
        assert forall|j: int| 0 <= j < dims.len() implies dims[j] != 'x' by {
            assert(dims[j] == t[j + 7]);
        }
        lemma_run_before(dims, 'x', dims.len() as int);
    }
}

} // verus!
