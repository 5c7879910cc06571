//! Direct encoding of captured frames: which frames are encoded, which of them
//! stand alone, and when the encoder is rebuilt.

use vstd::prelude::*;

use crate::frames::CapturedFrame;

verus! {

/// How many pictures there are from one that has to stand alone to the next.
pub const GOP_LENGTH: u32 = 300;

/// What the stream is encoded as.
#[derive(Clone, Copy, Debug, PartialEq, Eq, Structural)]
pub enum VideoCodec {
    H264,
    Hevc,
}

impl Default for VideoCodec {
    fn default() -> (c: Self)
        ensures
            c == VideoCodec::H264,
    {
        VideoCodec::H264
    }
}

impl VideoCodec {
    /// The name that errors call the codec by.
    pub open spec fn shown(self) -> Seq<char> {
        match self {
            VideoCodec::H264 => "H264"@,
            VideoCodec::Hevc => "Hevc"@,
        }
    }

    fn show(&self) -> (r: &'static str)
        ensures
            r@ == self.shown(),
    {
        match self {
            VideoCodec::H264 => "H264",
            VideoCodec::Hevc => "Hevc",
        }
    }
}

/// What the encoder is to be rebuilt with.
#[derive(Clone, Copy, Debug, PartialEq, Eq, Structural)]
pub struct PendingReconfig {
    pub fps: u32,
    pub bitrate_kbps: u32,
    pub codec: VideoCodec,
}

/// What to do before the next frame is waited for.
#[derive(Clone, Copy, Debug, PartialEq, Eq, Structural)]
pub enum EncoderOutcome {
    /// Wait for the next frame.
    Continue,
    /// End the session.
    Shutdown,
    /// End this encoder, and start one with these settings.
    Reconfigure(PendingReconfig),
}

/// What a running encoder has been asked to do, and has not done yet.
pub struct CudaDirectEncoderSession {
    pub shutdown: bool,
    pub force_keyframe: bool,
    /// The latest request to rebuild the encoder, until it is acted on.
    pub reconfig: Option<PendingReconfig>,
}

impl CudaDirectEncoderSession {
    pub fn new() -> (s: CudaDirectEncoderSession)
        ensures
            !s.shutdown,
            !s.force_keyframe,
            s.reconfig is None,
    {
        CudaDirectEncoderSession { shutdown: false, force_keyframe: false, reconfig: None }
    }

    /// Asks for a picture that stands alone.
    pub fn request_keyframe(&mut self)
        ensures
            *final(self) == (CudaDirectEncoderSession { force_keyframe: true, ..*old(self) }),
    {
        self.force_keyframe = true;
    }

    /// Asks for a rebuild. It takes the place of one that was not acted on yet.
    pub fn reconfigure(&mut self, fps: u32, bitrate_kbps: u32, codec: VideoCodec)
        ensures
            *final(self) == (CudaDirectEncoderSession {
                reconfig: Some(PendingReconfig { fps, bitrate_kbps, codec }),
                ..*old(self)
            }),
    {
        self.reconfig = Some(PendingReconfig { fps, bitrate_kbps, codec });
    }

    /// Asks for the end.
    pub fn end(&mut self)
        ensures
            *final(self) == (CudaDirectEncoderSession { shutdown: true, ..*old(self) }),
    {
        self.shutdown = true;
    }

    /// What to do before the next frame is waited for. Ending comes first: a
    /// request to rebuild is left as it is then. One that is handed out is handed
    /// out once.
    pub fn poll(&mut self) -> (r: EncoderOutcome)
        ensures
            old(self).shutdown ==> r == EncoderOutcome::Shutdown && *final(self) == *old(self),
            !old(self).shutdown ==> {
                &&& *final(self) == (CudaDirectEncoderSession { reconfig: None, ..*old(self) })
                &&& r == match old(self).reconfig {
                    Some(new) => EncoderOutcome::Reconfigure(new),
                    None => EncoderOutcome::Continue,
                }
            },
    {
        if self.shutdown {
            return EncoderOutcome::Shutdown;
        }
        match self.reconfig {
            Some(new) => {
                self.reconfig = None;
                EncoderOutcome::Reconfigure(new)
            },
            None => EncoderOutcome::Continue,
        }
    }

    /// What is still asked for once the next picture was encoded. The picture
    /// answers a request whether or not it was time for it to stand alone.
    pub open spec fn after_picture(self) -> CudaDirectEncoderSession {
        CudaDirectEncoderSession { force_keyframe: false, ..self }
    }

    /// Whether the next picture stands alone: because it is time for one, or
    /// because one was asked for.
    pub fn wants_keyframe(&mut self, periodic: bool) -> (r: bool)
        ensures
            r == (periodic || old(self).force_keyframe),
            *final(self) == old(self).after_picture(),
    {
        let asked = self.force_keyframe;
        self.force_keyframe = false;
        periodic || asked
    }
}

/// What to do with a captured frame.
#[derive(Clone, Copy, Debug, PartialEq, Eq, Structural)]
pub enum FrameAction {
    /// Close its descriptor, and do nothing else with it.
    Skip,
    /// Register its buffer, which takes the descriptor, and encode it.
    Register,
    /// Close its descriptor, and encode the buffer that was registered before.
    Encode,
}

/// A picture to encode.
#[derive(Clone, Copy, Debug, PartialEq, Eq, Structural)]
pub struct Picture {
    /// Whether the picture stands alone.
    pub idr: bool,
    pub timestamp: u64,
    /// Its place behind the last one that stands alone, where the codec is told.
    pub poc: Option<u32>,
}

/// What one encoder has to remember.
pub struct EncoderState {
    width: u32,
    height: u32,
    codec: VideoCodec,
    registered: Vec<i64>,
    frame_index: u64,
    hevc_poc: u32,
}

/// An [`EncoderState`], with its buffers as a set.
#[verifier::ext_equal]
pub struct EncoderView {
    pub width: u32,
    pub height: u32,
    pub codec: VideoCodec,
    /// The buffers that are registered, by their identities.
    pub registered: Set<i64>,
    /// How many pictures were encoded.
    pub frame_index: u64,
    /// The place of the last picture behind the last one that stands alone.
    pub poc: u32,
}

impl View for EncoderState {
    type V = EncoderView;

    closed spec fn view(&self) -> EncoderView {
        EncoderView {
            width: self.width,
            height: self.height,
            codec: self.codec,
            registered: self.registered@.to_set(),
            frame_index: self.frame_index,
            poc: self.hevc_poc,
        }
    }
}

impl EncoderView {
    /// Whether the next picture stands alone because it is time for one.
    pub open spec fn periodic(self) -> bool {
        self.frame_index % GOP_LENGTH as u64 == 0
    }

    /// Places are counted from a picture that stands alone, and so stay below the
    /// distance between two of them.
    pub open spec fn wf(self) -> bool {
        self.periodic() || self.poc < self.frame_index % GOP_LENGTH as u64
    }
}

impl EncoderView {
    /// Whether the next picture stands alone.
    pub open spec fn is_idr(self, requested: bool) -> bool {
        self.periodic() || requested
    }

    /// The state once the next picture was encoded.
    pub open spec fn after_picture(self, requested: bool) -> EncoderView {
        EncoderView {
            frame_index: (self.frame_index + 1) as u64,
            poc: if self.is_idr(requested) {
                0
            } else if self.codec == VideoCodec::Hevc {
                (self.poc + 1) as u32
            } else {
                self.poc
            },
            ..self
        }
    }

    /// The state once the first `n` pictures were encoded, `requests` saying
    /// before which of them one that stands alone was asked for.
    pub open spec fn after_pictures(self, requests: Seq<bool>, n: int) -> EncoderView
        decreases n,
    {
        if n <= 0 {
            self
        } else {
            self.after_pictures(requests, n - 1).after_picture(requests[n - 1])
        }
    }

    /// Whether picture `i` stands alone.
    pub open spec fn idr_at(self, requests: Seq<bool>, i: int) -> bool {
        self.after_pictures(requests, i).is_idr(requests[i])
    }
}

proof fn lemma_first_is_periodic(start: EncoderView)
    requires
        start.frame_index == 0,
    ensures
        start.periodic(),
{
}

proof fn lemma_pictures_are_counted(start: EncoderView, requests: Seq<bool>, n: int)
    requires
        start.frame_index == 0,
        0 <= n <= requests.len() <= u64::MAX,
    ensures
        start.after_pictures(requests, n).frame_index == n,
        start.after_pictures(requests, n).wf(),
        start.after_pictures(requests, n).codec == start.codec,
    decreases n,
{
    if n > 0 {
        lemma_pictures_are_counted(start, requests, n - 1);
    }
}

/// In HEVC a picture's place is its distance from the last one that stands
/// alone, and there always is one.
pub proof fn law_places_count_from_the_last_idr(
    start: EncoderView,
    requests: Seq<bool>,
    n: int,
) -> (last: int)
    requires
        start.frame_index == 0,
        start.codec == VideoCodec::Hevc,
        0 < n <= requests.len() <= u64::MAX,
    ensures
        0 <= last < n,
        start.idr_at(requests, last),
        forall|k: int| last < k < n ==> !#[trigger] start.idr_at(requests, k),
        start.after_pictures(requests, n).poc == n - 1 - last,
    decreases n,
{
    lemma_pictures_are_counted(start, requests, n - 1);
    if start.idr_at(requests, n - 1) {
        n - 1
    } else {
        if n == 1 {
            assert(start.after_pictures(requests, 0) == start);
            lemma_first_is_periodic(start);
        }
        let last = law_places_count_from_the_last_idr(start, requests, n - 1);
        assert forall|k: int| last < k < n implies !#[trigger] start.idr_at(requests, k) by {}
        last
    }
}

impl EncoderState {
    pub fn new(width: u32, height: u32, codec: VideoCodec) -> (s: EncoderState)
        ensures
            s@ == (EncoderView {
                width,
                height,
                codec,
                registered: Set::empty(),
                frame_index: 0,
                poc: 0,
            }),
            s@.wf(),
    {
        let s = EncoderState {
            width,
            height,
            codec,
            registered: Vec::new(),
            frame_index: 0,
            hevc_poc: 0,
        };
        assert(s@.registered =~= Set::<i64>::empty());
        s
    }

    /// What to do with a captured frame: one that is no DMA-BUF, or whose size is
    /// not the encoder's, is skipped.
    pub fn on_frame(&self, frame: &CapturedFrame) -> (action: FrameAction)
        ensures
            action == if !frame.is_dma_buf || frame.width != self@.width || frame.height
                != self@.height {
                FrameAction::Skip
            } else if self@.registered.contains(frame.buffer_identity) {
                FrameAction::Encode
            } else {
                FrameAction::Register
            },
    {
        if !frame.is_dma_buf || frame.width != self.width || frame.height != self.height {
            return FrameAction::Skip;
        }
        let mut i: usize = 0;
        while i < self.registered.len()
            invariant
                frame.is_dma_buf && frame.width == self.width && frame.height == self.height,
                i <= self.registered@.len(),
                forall|j: int| 0 <= j < i ==> self.registered@[j] != frame.buffer_identity,
            decreases self.registered@.len() - i,
        {
            if self.registered[i] == frame.buffer_identity {
                assert(self.registered@[i as int] == frame.buffer_identity);
                return FrameAction::Encode;
            }
            i += 1;
        }
        FrameAction::Register
    }

    /// Notes that a buffer was registered.
    pub fn buffer_registered(&mut self, identity: i64)
        requires
            old(self)@.wf(),
        ensures
            final(self)@ == (EncoderView {
                registered: old(self)@.registered.insert(identity),
                ..old(self)@
            }),
            final(self)@.wf(),
    {
        self.registered.push(identity);
        proof {
            let before = old(self).registered@;
            assert forall|x: i64| before.push(identity).contains(x) == before.to_set().insert(
                identity,
            ).contains(x) by {
                if x == identity {
                    assert(before.push(identity)[before.len() as int] == x);
                } else if before.contains(x) {
                    let j = choose|j: int| 0 <= j < before.len() && before[j] == x;
                    assert(before.push(identity)[j] == x);
                }
            }
            assert(self@.registered =~= old(self)@.registered.insert(identity));
        }
    }

    /// Whether the next picture stands alone because it is time for one.
    pub fn is_periodic(&self) -> (r: bool)
        ensures
            r == self@.periodic(),
    {
        self.frame_index % GOP_LENGTH as u64 == 0
    }

    /// The next picture. `requested` says whether one that stands alone was asked
    /// for.
    pub fn picture(&mut self, requested: bool) -> (p: Picture)
        requires
            old(self)@.wf(),
            old(self)@.frame_index < u64::MAX,
        ensures
            p.idr == old(self)@.is_idr(requested),
            p.timestamp == old(self)@.frame_index,
            p.poc == if old(self)@.codec == VideoCodec::Hevc {
                Some(final(self)@.poc)
            } else {
                None
            },
            final(self)@ == old(self)@.after_picture(requested),
            final(self)@.wf(),
            final(self)@.poc < GOP_LENGTH,
    {
        let idr = self.frame_index % GOP_LENGTH as u64 == 0 || requested;
        let hevc = match self.codec {
            VideoCodec::Hevc => true,
            VideoCodec::H264 => false,
        };
        if idr {
            self.hevc_poc = 0;
        } else if hevc {
            self.hevc_poc = self.hevc_poc + 1;
        }
        let timestamp: u64 = self.frame_index;
        self.frame_index = timestamp + 1;
        let poc = if hevc {
            Some(self.hevc_poc)
        } else {
            None
        };
        Picture { idr, timestamp, poc }
    }
}

/// A decoder that joins at any picture finds one that stands alone within one
/// group of pictures, requested or not.
pub proof fn law_a_picture_stands_alone_in_every_group(
    start: EncoderView,
    requests: Seq<bool>,
    from: int,
)
    requires
        start.frame_index == 0,
        0 <= from,
        from + GOP_LENGTH <= requests.len() <= u64::MAX,
    ensures
        exists|i: int| from <= i < from + GOP_LENGTH && #[trigger] start.idr_at(requests, i),
{
    let i = (from + 299) / 300 * 300;
    assert(i % 300 == 0);
    lemma_pictures_are_counted(start, requests, i);
    assert(start.idr_at(requests, i));
}

/// A picture that was asked for comes at once and once: the very next one stands
/// alone, and the one behind it does so only where it is time for it.
pub proof fn law_a_requested_picture_comes(enc: EncoderView, session: CudaDirectEncoderSession)
    requires
        session.force_keyframe,
        enc.frame_index < u64::MAX,
    ensures
        enc.is_idr(session.force_keyframe),
        enc.after_picture(session.force_keyframe).is_idr(session.after_picture().force_keyframe)
            == enc.after_picture(session.force_keyframe).periodic(),
{
}

/// The bits per second of a bitrate in kilobits.
pub fn bits_per_second(bitrate_kbps: u32) -> (r: u32)
    requires
        bitrate_kbps * 1000 <= u32::MAX,
    ensures
        r == bitrate_kbps * 1000,
{
    bitrate_kbps * 1000
}

/// How many bytes a plain picture takes, four to the pixel.
pub fn linear_size(width: u32, height: u32) -> (size: u64)
    requires
        width * height * 4 <= u64::MAX,
    ensures
        size == width * height * 4,
{
    assert(0 <= width * height <= u64::MAX) by (nonlinear_arith)
        requires
            width * height * 4 <= u64::MAX,
            width >= 0,
            height >= 0,
    ;
    (width as u64 * height as u64) * 4
}

/// How many bytes a row of a plain picture takes, four to the pixel.
pub fn linear_pitch(width: u32) -> (pitch: u32)
    requires
        width * 4 <= u32::MAX,
    ensures
        pitch == width * 4,
{
    width * 4
}

/// Whether a machine can encode: what it lacks is the error.
pub fn check_support(
    codec: VideoCodec,
    encodes_codec: bool,
    takes_argb: bool,
) -> (r: Result<(), String>)
    ensures
        match r {
            Ok(_) => encodes_codec && takes_argb,
            Err(m) => if !encodes_codec {
                m@ == "NVENC on this machine doesn't support "@ + codec.shown()
            } else {
                !takes_argb && m@ == "NVENC doesn't support ARGB input for "@ + codec.shown()
                    + " on this machine"@
            },
        },
{
    if !encodes_codec {
        let mut m = "NVENC on this machine doesn't support ".to_string();
        m.append(codec.show());
        return Err(m);
    }
    if !takes_argb {
        let mut m = "NVENC doesn't support ARGB input for ".to_string();
        m.append(codec.show());
        m.append(" on this machine");
        return Err(m);
    }
    Ok(())
}

/// A picture stands alone exactly where 300 divides its number or where that was asked
/// for, whatever was asked for before.
pub proof fn law_every_three_hundredth_picture_stands_alone(
    start: EncoderView,
    requests: Seq<bool>,
    i: int,
)
    requires
        start.frame_index == 0,
        0 <= i < requests.len() <= u64::MAX,
    ensures
        start.idr_at(requests, i) <==> i % 300 == 0 || requests[i],
{
    lemma_pictures_are_counted(start, requests, i);
}

/// A picture answers a request for one that stands alone, and nothing else that was
/// asked for; encoding one changes neither the encoder's size nor its codec nor its
/// buffers, and counts one picture.
pub proof fn law_a_picture_answers_one_request(
    session: CudaDirectEncoderSession,
    enc: EncoderView,
    requested: bool,
)
    requires
        enc.frame_index < u64::MAX,
    ensures
        !session.after_picture().force_keyframe,
        session.after_picture().shutdown == session.shutdown,
        session.after_picture().reconfig == session.reconfig,
        enc.after_picture(requested).width == enc.width,
        enc.after_picture(requested).height == enc.height,
        enc.after_picture(requested).codec == enc.codec,
        enc.after_picture(requested).registered == enc.registered,
        enc.after_picture(requested).frame_index == enc.frame_index + 1,
{
}

} // verus!
