//! The GStreamer pipelines, as the launch descriptions that build them.
//!
//! A description is a list of stages with `" ! "` between neighbours. Every
//! combination of a source and a sink has its stages spelled out in one place,
//! [`stages`], and [`video_pipeline_description`] writes exactly those.

use vstd::prelude::*;

use crate::numbers::{
    decimal, is_digit, lemma_decimal, lemma_decimal_is_digits, lemma_signed_decimal_is_digits, push_decimal,
    push_signed, signed_decimal, value_of,
};
use crate::text::{
    all_stand_whole, contains_text, debug_text, has_prefix, join, join_all, lemma_cat, lemma_cat_nothing,
    lemma_contains, lemma_joined_parts, lemma_piece_is_added, lemma_run_before,
    lemma_run_before_is_first, lemma_same_before_separator, lemma_stands_whole, occurs_at, quoted,
    run_before, same_text, stands_whole, texts,
};

verus! {

broadcast use crate::text::lemma_texts_push;

/// Which H.264 encoder an encoding pipeline uses.
#[derive(Clone, Copy, Debug, PartialEq, Eq, Structural)]
pub enum VideoEncoder {
    /// `openh264enc`: always available, no GPU needed.
    Software,
    /// `nvh264enc`.
    Nvenc,
    /// `vulkanh264enc`.
    Vulkan,
    /// NVENC driven directly, with no GStreamer pipeline for the video at all.
    NvencDirect,
}

impl Default for VideoEncoder {
    fn default() -> (r: Self)
        ensures
            r == VideoEncoder::Software,
    {
        VideoEncoder::Software
    }
}

impl VideoEncoder {
    /// The name of the encoder in configuration.
    pub open spec fn name(self) -> Seq<char> {
        match self {
            VideoEncoder::Software => "software"@,
            VideoEncoder::Nvenc => "nvenc"@,
            VideoEncoder::Vulkan => "vulkan"@,
            VideoEncoder::NvencDirect => "nvenc-direct"@,
        }
    }

    /// The name of the encoder in configuration.
    pub fn as_str(&self) -> (r: &'static str)
        ensures
            r@ == self.name(),
    {
        match self {
            VideoEncoder::Software => "software",
            VideoEncoder::Nvenc => "nvenc",
            VideoEncoder::Vulkan => "vulkan",
            VideoEncoder::NvencDirect => "nvenc-direct",
        }
    }

    /// The encoder of that name; a name that no encoder has is an error that
    /// quotes it.
    pub fn from_str(s: &str) -> (r: Result<Self, String>)
        ensures
            match r {
                Ok(e) => e.name() == s@,
                Err(m) => {
                    &&& forall|e: VideoEncoder| #[trigger] e.name() != s@
                    &&& m@ == "unknown video encoder "@ + debug_text(s@)
                        + " (expected \"software\", \"nvenc\", \"vulkan\", or \"nvenc-direct\")"@
                },
            },
    {
        if same_text(s, "software") {
            return Ok(VideoEncoder::Software);
        }
        if same_text(s, "nvenc") {
            return Ok(VideoEncoder::Nvenc);
        }
        if same_text(s, "vulkan") {
            return Ok(VideoEncoder::Vulkan);
        }
        if same_text(s, "nvenc-direct") {
            return Ok(VideoEncoder::NvencDirect);
        }
        let mut m = "unknown video encoder ".to_string();
        m.append(quoted(s).as_str());
        m.append(" (expected \"software\", \"nvenc\", \"vulkan\", or \"nvenc-direct\")");
        Err(m)
    }
}

/// No two encoders share a name, so a name read back is the encoder it was
/// written for.
pub proof fn law_encoder_names_are_distinct(a: VideoEncoder, b: VideoEncoder)
    ensures
        a.name() == b.name() <==> a == b,
{
    reveal_strlit("software");
    reveal_strlit("nvenc");
    reveal_strlit("vulkan");
    reveal_strlit("nvenc-direct");
    assert("software"@.len() == 8 && "nvenc"@.len() == 5 && "vulkan"@.len() == 6
        && "nvenc-direct"@.len() == 12);
}

/// The encoder to default to: direct NVENC where the `nvh264enc` element is
/// registered, software otherwise.
pub fn detect_video_encoder(nvh264enc_registered: bool) -> (r: VideoEncoder)
    ensures
        r == if nvh264enc_registered {
            VideoEncoder::NvencDirect
        } else {
            VideoEncoder::Software
        },
{
    if nvh264enc_registered {
        VideoEncoder::NvencDirect
    } else {
        VideoEncoder::Software
    }
}

/// Where a pipeline's frames come from.
#[allow(inconsistent_fields)]
pub enum VideoSource {
    /// A PipeWire node, read by `pipewiresrc`.
    PipeWireNode(u32),
    /// Frames that this program captures itself and pushes into an `appsrc`.
    KwinNativeDmaBuf {
        node_id: u32,
        wayland_socket_path: String,
        width: u32,
        height: u32,
        fps: u32,
    },
    /// `waylanddisplaysrc`, which is the compositor and the source in one.
    GstWaylandDisplay { render_node: String, width: i32, height: i32, fps: u32 },
    /// The login screen, which renders its own frames.
    Login { width: u32, height: u32 },
}

impl VideoSource {
    /// Whether frames come only when something on the screen has changed, so
    /// that nothing upstream paces them.
    pub open spec fn damage_driven(self) -> bool {
        self is GstWaylandDisplay || self is Login
    }
}

/// What becomes of a pipeline's frames.
pub enum VideoSink {
    /// Raw BGRx frames for a local window.
    LocalDisplay,
    /// H.264 access units for the network.
    Encode { encoder: VideoEncoder, bitrate_kbps: u32 },
}

/// The name of the encoder element, whichever encoder it is.
pub const ENCODER_ELEMENT_NAME: &'static str = "enc";

/// The name of the `identity` element that the frame-rate gate is put on.
pub const FPS_CAP_ELEMENT_NAME: &'static str = "fps_cap_gate";

/// The name of the `appsrc` that natively captured frames are pushed into.
pub const KWIN_NATIVE_APPSRC_NAME: &'static str = "kwin-native-appsrc";

/// Whether there is a pipeline for a source and a sink at all: direct NVENC has
/// none, and natively captured frames need a hardware encoder.
pub open spec fn has_pipeline(source: VideoSource, sink: VideoSink) -> bool {
    match sink {
        VideoSink::LocalDisplay => !(source is KwinNativeDmaBuf),
        VideoSink::Encode { encoder, .. } => match encoder {
            VideoEncoder::NvencDirect => false,
            VideoEncoder::Software => !(source is KwinNativeDmaBuf),
            _ => true,
        },
    }
}

/// Whether the numbers of a description can be computed: `pipewiresrc` needs a
/// frame rate to derive its keepalive from, and the software encoder takes bits
/// per second, which must fit 32 bits.
pub open spec fn in_range(source: VideoSource, fps: u32, sink: VideoSink) -> bool {
    &&& source is PipeWireNode ==> fps > 0
    &&& match sink {
        VideoSink::Encode { encoder: VideoEncoder::Software, bitrate_kbps } => bitrate_kbps * 1000
            <= u32::MAX,
        _ => true,
    }
}

pub open spec fn pipewire_src(node_id: u32, client_name: Seq<char>, fps: u32) -> Seq<char> {
    "pipewiresrc name=pipewiresrc path="@ + decimal(node_id as nat) + " client-name=\""@
        + client_name + "\" do-timestamp=true keepalive-time="@ + decimal((2000u32 / fps) as nat)
}

pub open spec fn any_framerate(fps: u32) -> Seq<char> {
    "video/x-raw(ANY),framerate="@ + decimal(fps as nat) + "/1"@
}

pub open spec fn wayland_src(render_node: Seq<char>) -> Seq<char> {
    "waylanddisplaysrc name=waylanddisplaysrc render-node=\""@ + render_node + "\""@
}

pub open spec fn fixed_caps(width: i32, height: i32, fps: u32) -> Seq<char> {
    "video/x-raw,width="@ + signed_decimal(width as int) + ",height="@ + signed_decimal(
        height as int,
    ) + ",framerate="@ + decimal(fps as nat) + "/1"@
}

pub open spec fn login_src(width: u32, height: u32) -> Seq<char> {
    "appsrc name=login-appsrc format=time is-live=true block=false caps=video/x-raw,format=RGBA,width="@
        + decimal(width as nat) + ",height="@ + decimal(height as nat) + ",framerate=30/1"@
}

pub open spec fn software_enc(bitrate_kbps: u32) -> Seq<char> {
    "openh264enc name=enc usage-type=screen rate-control=bitrate gop-size=300 bitrate="@ + decimal(
        (bitrate_kbps * 1000) as nat,
    )
}

pub open spec fn nvenc_enc(bitrate_kbps: u32) -> Seq<char> {
    "nvh264enc name=enc zerolatency=true tune=ultra-low-latency rc-mode=cbr repeat-sequence-header=true gop-size=300 bitrate="@
        + decimal(bitrate_kbps as nat)
}

pub open spec fn vulkan_enc(bitrate_kbps: u32) -> Seq<char> {
    "vulkanh264enc name=enc idr-period=300 bitrate="@ + decimal(bitrate_kbps as nat)
}

/// The stages at the head of a pipeline, up to where its frames are handed on.
pub open spec fn head_stages(
    source: VideoSource,
    client_name: Seq<char>,
    fps: u32,
    sink: VideoSink,
) -> Seq<Seq<char>> {
    let encodes = sink is Encode;
    let software = sink matches VideoSink::Encode { encoder: VideoEncoder::Software, .. };
    match source {
        VideoSource::PipeWireNode(node_id) => if software {
            seq![
                pipewire_src(node_id, client_name, fps),
                "videorate name=videorate skip-to-first=true"@,
                any_framerate(fps),
                "queue leaky=downstream max-size-buffers=2 max-size-bytes=0 max-size-time=0"@,
            ]
        } else if encodes {
            seq![pipewire_src(node_id, client_name, fps)]
        } else {
            seq![
                pipewire_src(node_id, client_name, fps),
                "videorate name=videorate skip-to-first=true"@,
                any_framerate(fps),
            ]
        },
        VideoSource::KwinNativeDmaBuf { .. } => seq![
            "appsrc name=kwin-native-appsrc format=time is-live=true do-timestamp=false"@,
            "queue leaky=downstream max-size-buffers=2 max-size-bytes=0 max-size-time=0"@,
        ],
        VideoSource::GstWaylandDisplay { render_node, width, height, fps } => if encodes {
            seq![
                wayland_src(render_node@),
                fixed_caps(width, height, fps),
                "queue leaky=downstream max-size-buffers=2 max-size-bytes=0 max-size-time=0"@,
                "identity name=fps_cap_gate"@,
            ]
        } else {
            seq![wayland_src(render_node@), fixed_caps(width, height, fps)]
        },
        VideoSource::Login { width, height } => if encodes {
            seq![
                login_src(width, height),
                "queue leaky=downstream max-size-buffers=2 max-size-bytes=0 max-size-time=0"@,
                "identity name=fps_cap_gate"@,
            ]
        } else {
            seq![login_src(width, height)]
        },
    }
}

/// The stages that convert the frames and consume them.
pub open spec fn tail_stages(source: VideoSource, sink: VideoSink) -> Seq<Seq<char>> {
    match sink {
        VideoSink::LocalDisplay => seq![
            "videoconvert"@,
            "video/x-raw,format=BGRx"@,
            "appsink name=sink sync=false"@,
        ],
        VideoSink::Encode { encoder, bitrate_kbps } => {
            let convert: Seq<Seq<char>> = match encoder {
                VideoEncoder::Software => seq![
                    "videoconvert"@,
                    "video/x-raw,format=I420"@,
                    software_enc(bitrate_kbps),
                ],
                VideoEncoder::Vulkan => seq![
                    "vulkanupload"@,
                    "vulkancolorconvert"@,
                    vulkan_enc(bitrate_kbps),
                ],
                _ => match source {
                    VideoSource::PipeWireNode(_) => seq![nvenc_enc(bitrate_kbps)],
                    VideoSource::KwinNativeDmaBuf { .. } => seq![
                        "glupload"@,
                        "glcolorconvert"@,
                        nvenc_enc(bitrate_kbps),
                    ],
                    _ => seq!["video/x-raw"@, nvenc_enc(bitrate_kbps)],
                },
            };
            convert + seq![
                "video/x-h264,stream-format=byte-stream,alignment=au"@,
                "appsink name=sink sync=false"@,
            ]
        },
    }
}

/// The stages of the pipeline from `source` to `sink`.
///
/// `client_name` and `fps` matter for a PipeWire node only: every other source
/// carries what it needs.
pub open spec fn stages(
    source: VideoSource,
    client_name: Seq<char>,
    fps: u32,
    sink: VideoSink,
) -> Seq<Seq<char>> {
    head_stages(source, client_name, fps, sink) + tail_stages(source, sink)
}

fn write_pipewire_src(node_id: u32, client_name: &str, fps: u32) -> (out: String)
    requires
        fps > 0,
    ensures
        out@ == pipewire_src(node_id, client_name@, fps),
{
    let mut out = "pipewiresrc name=pipewiresrc path=".to_string();
    push_decimal(&mut out, node_id as u64);
    out.append(" client-name=\"");
    out.append(client_name);
    out.append("\" do-timestamp=true keepalive-time=");
    push_decimal(&mut out, (2000 / fps) as u64);
    out
}

fn write_any_framerate(fps: u32) -> (out: String)
    ensures
        out@ == any_framerate(fps),
{
    let mut out = "video/x-raw(ANY),framerate=".to_string();
    push_decimal(&mut out, fps as u64);
    out.append("/1");
    out
}

fn write_wayland_src(render_node: &str) -> (out: String)
    ensures
        out@ == wayland_src(render_node@),
{
    let mut out = "waylanddisplaysrc name=waylanddisplaysrc render-node=\"".to_string();
    out.append(render_node);
    out.append("\"");
    out
}

fn write_fixed_caps(width: i32, height: i32, fps: u32) -> (out: String)
    ensures
        out@ == fixed_caps(width, height, fps),
{
    let mut out = "video/x-raw,width=".to_string();
    push_signed(&mut out, width as i64);
    out.append(",height=");
    push_signed(&mut out, height as i64);
    out.append(",framerate=");
    push_decimal(&mut out, fps as u64);
    out.append("/1");
    out
}

fn write_login_src(width: u32, height: u32) -> (out: String)
    ensures
        out@ == login_src(width, height),
{
    let mut out =
        "appsrc name=login-appsrc format=time is-live=true block=false caps=video/x-raw,format=RGBA,width=".to_string();
    push_decimal(&mut out, width as u64);
    out.append(",height=");
    push_decimal(&mut out, height as u64);
    out.append(",framerate=30/1");
    out
}

fn write_software_enc(bitrate_kbps: u32) -> (out: String)
    requires
        bitrate_kbps * 1000 <= u32::MAX,
    ensures
        out@ == software_enc(bitrate_kbps),
{
    let mut out =
        "openh264enc name=enc usage-type=screen rate-control=bitrate gop-size=300 bitrate=".to_string();
    push_decimal(&mut out, (bitrate_kbps * 1000) as u64);
    out
}

fn write_nvenc_enc(bitrate_kbps: u32) -> (out: String)
    ensures
        out@ == nvenc_enc(bitrate_kbps),
{
    let mut out =
        "nvh264enc name=enc zerolatency=true tune=ultra-low-latency rc-mode=cbr repeat-sequence-header=true gop-size=300 bitrate=".to_string();
    push_decimal(&mut out, bitrate_kbps as u64);
    out
}

fn write_vulkan_enc(bitrate_kbps: u32) -> (out: String)
    ensures
        out@ == vulkan_enc(bitrate_kbps),
{
    let mut out = "vulkanh264enc name=enc idr-period=300 bitrate=".to_string();
    push_decimal(&mut out, bitrate_kbps as u64);
    out
}

/// Appends the stages at the head of a pipeline.
fn push_head(
    out: &mut Vec<String>,
    source: &VideoSource,
    client_name: &str,
    fps: u32,
    sink: &VideoSink,
)
    requires
        in_range(*source, fps, *sink),
        old(out)@.len() == 0,
    ensures
        texts(final(out)@) == head_stages(*source, client_name@, fps, *sink),
{
    let encodes = match sink {
        VideoSink::LocalDisplay => false,
        VideoSink::Encode { .. } => true,
    };
    let software = match sink {
        VideoSink::Encode { encoder: VideoEncoder::Software, .. } => true,
        _ => false,
    };
    match source {
        VideoSource::PipeWireNode(node_id) => {
            out.push(write_pipewire_src(*node_id, client_name, fps));
            if software || !encodes {
                out.push("videorate name=videorate skip-to-first=true".to_string());
                out.push(write_any_framerate(fps));
            }
            if software {
                out.push(
                    "queue leaky=downstream max-size-buffers=2 max-size-bytes=0 max-size-time=0".to_string(),
                );
            }
        },
        VideoSource::KwinNativeDmaBuf { .. } => {
            out.push(
                "appsrc name=kwin-native-appsrc format=time is-live=true do-timestamp=false".to_string(),
            );
            out.push(
                "queue leaky=downstream max-size-buffers=2 max-size-bytes=0 max-size-time=0".to_string(),
            );
        },
        VideoSource::GstWaylandDisplay { render_node, width, height, fps } => {
            out.push(write_wayland_src(render_node.as_str()));
            out.push(write_fixed_caps(*width, *height, *fps));
            if encodes {
                out.push(
                    "queue leaky=downstream max-size-buffers=2 max-size-bytes=0 max-size-time=0".to_string(),
                );
                out.push("identity name=fps_cap_gate".to_string());
            }
        },
        VideoSource::Login { width, height } => {
            out.push(write_login_src(*width, *height));
            if encodes {
                out.push(
                    "queue leaky=downstream max-size-buffers=2 max-size-bytes=0 max-size-time=0".to_string(),
                );
                out.push("identity name=fps_cap_gate".to_string());
            }
        },
    }
    assert(texts(out@) =~= head_stages(*source, client_name@, fps, *sink));
}

/// Appends the stages that convert the frames and consume them.
fn push_tail(out: &mut Vec<String>, source: &VideoSource, sink: &VideoSink)
    requires
        match *sink {
            VideoSink::Encode { encoder: VideoEncoder::Software, bitrate_kbps } => bitrate_kbps
                * 1000 <= u32::MAX,
            _ => true,
        },
    ensures
        texts(final(out)@) == texts(old(out)@) + tail_stages(*source, *sink),
{
    match sink {
        VideoSink::LocalDisplay => {
            out.push("videoconvert".to_string());
            out.push("video/x-raw,format=BGRx".to_string());
            out.push("appsink name=sink sync=false".to_string());
        },
        VideoSink::Encode { encoder, bitrate_kbps } => {
            match encoder {
                VideoEncoder::Software => {
                    out.push("videoconvert".to_string());
                    out.push("video/x-raw,format=I420".to_string());
                    out.push(write_software_enc(*bitrate_kbps));
                },
                VideoEncoder::Vulkan => {
                    out.push("vulkanupload".to_string());
                    out.push("vulkancolorconvert".to_string());
                    out.push(write_vulkan_enc(*bitrate_kbps));
                },
                _ => {
                    match source {
                        VideoSource::PipeWireNode(_) => {},
                        VideoSource::KwinNativeDmaBuf { .. } => {
                            out.push("glupload".to_string());
                            out.push("glcolorconvert".to_string());
                        },
                        _ => {
                            out.push("video/x-raw".to_string());
                        },
                    }
                    out.push(write_nvenc_enc(*bitrate_kbps));
                },
            }
            out.push("video/x-h264,stream-format=byte-stream,alignment=au".to_string());
            out.push("appsink name=sink sync=false".to_string());
        },
    }
    assert(texts(out@) =~= texts(old(out)@) + tail_stages(*source, *sink));
}

/// The launch description of the pipeline from `source` to `sink`.
pub fn video_pipeline_description(
    source: &VideoSource,
    client_name: &str,
    fps: u32,
    sink: &VideoSink,
) -> (out: String)
    requires
        has_pipeline(*source, *sink),
        in_range(*source, fps, *sink),
    ensures
        out@ == join(stages(*source, client_name@, fps, *sink), " ! "@),
{
    let mut parts: Vec<String> = Vec::new();
    push_head(&mut parts, source, client_name, fps, sink);
    push_tail(&mut parts, source, sink);
    join_all(&parts, " ! ")
}

/// The launch description of the pipeline that captures a session's audio and
/// encodes it as Opus, in packets of 5 ms.
pub fn audio_pipeline_description(capture_name: &str, client_name: &str) -> (out: String)
    ensures
        out@ == "pipewiresrc target-object="@ + capture_name@ + " client-name="@ + client_name@
            + " do-timestamp=true ! audioconvert ! audioresample ! audio/x-raw,format=S16LE,channels=2,rate=48000 ! opusenc frame-size=5 ! appsink name=sink sync=false"@,
{
    let mut out = "pipewiresrc target-object=".to_string();
    out.append(capture_name);
    out.append(" client-name=");
    out.append(client_name);
    out.append(
        " do-timestamp=true ! audioconvert ! audioresample ! audio/x-raw,format=S16LE,channels=2,rate=48000 ! opusenc frame-size=5 ! appsink name=sink sync=false",
    );
    out
}

/// The element that a stage names: what stands before its first space.
pub open spec fn element(stage: Seq<char>) -> Seq<char> {
    stage.take(run_before(stage, ' ') as int)
}

/// A source whose frames come whenever the screen changes is encoded behind the
/// gate that caps its frame rate, and never behind `videorate`, which would
/// make frames up.
pub proof fn law_damage_driven_sources_are_gated(
    source: VideoSource,
    client_name: Seq<char>,
    fps: u32,
    sink: VideoSink,
)
    requires
        source.damage_driven(),
        sink is Encode,
        has_pipeline(source, sink),
    ensures
        stages(source, client_name, fps, sink).contains("identity name=fps_cap_gate"@),
        forall|i: int|
            0 <= i < stages(source, client_name, fps, sink).len() ==> element(
                #[trigger] stages(source, client_name, fps, sink)[i],
            ) != "videorate"@,
{
    let all = stages(source, client_name, fps, sink);
    let gate = if source is Login {
        2
    } else {
        3
    };
    assert(all[gate] == "identity name=fps_cap_gate"@);
    reveal_strlit("videorate");
    assert forall|i: int| 0 <= i < all.len() implies element(#[trigger] all[i])
        != "videorate"@ by {
        lemma_stage_is_not_videorate(source, client_name, fps, sink, i);
    }
}

/// Starts with another letter than `videorate`, or differs from it within the
/// first nine.
proof fn lemma_stage_is_not_videorate(
    source: VideoSource,
    client_name: Seq<char>,
    fps: u32,
    sink: VideoSink,
    i: int,
)
    requires
        source.damage_driven(),
        sink is Encode,
        has_pipeline(source, sink),
        0 <= i < stages(source, client_name, fps, sink).len(),
    ensures
        element(stages(source, client_name, fps, sink)[i]) != "videorate"@,
{
    let s = stages(source, client_name, fps, sink)[i];
    reveal_strlit("videorate");
    reveal_strlit("waylanddisplaysrc name=waylanddisplaysrc render-node=\"");
    reveal_strlit("video/x-raw,width=");
    reveal_strlit(
        "appsrc name=login-appsrc format=time is-live=true block=false caps=video/x-raw,format=RGBA,width=",
    );
    reveal_strlit("queue leaky=downstream max-size-buffers=2 max-size-bytes=0 max-size-time=0");
    reveal_strlit("identity name=fps_cap_gate");
    reveal_strlit("videoconvert");
    reveal_strlit("video/x-raw,format=I420");
    reveal_strlit(
        "openh264enc name=enc usage-type=screen rate-control=bitrate gop-size=300 bitrate=",
    );
    reveal_strlit("vulkanupload");
    reveal_strlit("vulkancolorconvert");
    reveal_strlit("vulkanh264enc name=enc idr-period=300 bitrate=");
    reveal_strlit("video/x-raw");
    reveal_strlit(
        "nvh264enc name=enc zerolatency=true tune=ultra-low-latency rc-mode=cbr repeat-sequence-header=true gop-size=300 bitrate=",
    );
    reveal_strlit("video/x-h264,stream-format=byte-stream,alignment=au");
    reveal_strlit("appsink name=sink sync=false");
    lemma_run_before_is_first(s, ' ');
    if element(s) == "videorate"@ {
        let e = element(s);
        assert(e.len() == 9);
        assert(s.len() >= 9);
        assert(s[0] == e[0] && s[1] == e[1] && s[5] == e[5]);
        assert(e[0] == 'v' && e[1] == 'i' && e[5] == 'r');
        assert(false);
    }
}

/// Whether a stage asks for DMA-BUF memory or uploads one to GL.
pub open spec fn asks_for_dmabuf(stage: Seq<char>) -> bool {
    element(stage) == "glupload"@ || contains_text(stage, "DMABuf"@)
}

/// What a pipeline takes from elsewhere reaches its encoder through system
/// memory: past the source itself, whose text holds the caller's own names, no
/// stage asks for DMA-BUF memory. Only natively captured frames are uploaded.
pub proof fn law_only_native_capture_asks_for_dmabuf(
    source: VideoSource,
    client_name: Seq<char>,
    fps: u32,
    sink: VideoSink,
    i: int,
)
    requires
        !(source is KwinNativeDmaBuf),
        has_pipeline(source, sink),
        1 <= i < stages(source, client_name, fps, sink).len(),
    ensures
        !asks_for_dmabuf(stages(source, client_name, fps, sink)[i]),
{
    let s = stages(source, client_name, fps, sink)[i];
    reveal_strlit("glupload");
    reveal_strlit("DMABuf");
    reveal_strlit("videorate name=videorate skip-to-first=true");
    reveal_strlit("video/x-raw(ANY),framerate=");
    reveal_strlit("/1");
    reveal_strlit("video/x-raw,width=");
    reveal_strlit(",height=");
    reveal_strlit(",framerate=");
    reveal_strlit("queue leaky=downstream max-size-buffers=2 max-size-bytes=0 max-size-time=0");
    reveal_strlit("identity name=fps_cap_gate");
    reveal_strlit("videoconvert");
    reveal_strlit("video/x-raw,format=BGRx");
    reveal_strlit("video/x-raw,format=I420");
    reveal_strlit(
        "openh264enc name=enc usage-type=screen rate-control=bitrate gop-size=300 bitrate=",
    );
    reveal_strlit("vulkanupload");
    reveal_strlit("vulkancolorconvert");
    reveal_strlit("vulkanh264enc name=enc idr-period=300 bitrate=");
    reveal_strlit("video/x-raw");
    reveal_strlit(
        "nvh264enc name=enc zerolatency=true tune=ultra-low-latency rc-mode=cbr repeat-sequence-header=true gop-size=300 bitrate=",
    );
    reveal_strlit("video/x-h264,stream-format=byte-stream,alignment=au");
    reveal_strlit("appsink name=sink sync=false");
    lemma_run_before_is_first(s, ' ');
    if element(s) == "glupload"@ {
        assert(s[0] == element(s)[0]);
        assert(s[0] != 'g');
    }
    if contains_text(s, "DMABuf"@) {
        let at = choose|at: int| occurs_at(s, "DMABuf"@, at);
        assert(s[at] == s.subrange(at, at + 6)[0]);
        assert(s[at] == 'D');
        lemma_no_capital_d(source, client_name, fps, sink, i, at);
    }
}

#[verifier::rlimit(30)]
proof fn lemma_no_capital_d(
    source: VideoSource,
    client_name: Seq<char>,
    fps: u32,
    sink: VideoSink,
    i: int,
    at: int,
)
    requires
        !(source is KwinNativeDmaBuf),
        has_pipeline(source, sink),
        1 <= i < stages(source, client_name, fps, sink).len(),
        0 <= at < stages(source, client_name, fps, sink)[i].len(),
    ensures
        stages(source, client_name, fps, sink)[i][at] != 'D',
{
    let s = stages(source, client_name, fps, sink)[i];
    reveal_strlit("videorate name=videorate skip-to-first=true");
    reveal_strlit("video/x-raw(ANY),framerate=");
    reveal_strlit("/1");
    reveal_strlit("video/x-raw,width=");
    reveal_strlit(",height=");
    reveal_strlit(",framerate=");
    reveal_strlit("queue leaky=downstream max-size-buffers=2 max-size-bytes=0 max-size-time=0");
    reveal_strlit("identity name=fps_cap_gate");
    reveal_strlit("videoconvert");
    reveal_strlit("video/x-raw,format=BGRx");
    reveal_strlit("video/x-raw,format=I420");
    reveal_strlit(
        "openh264enc name=enc usage-type=screen rate-control=bitrate gop-size=300 bitrate=",
    );
    reveal_strlit("vulkanupload");
    reveal_strlit("vulkancolorconvert");
    reveal_strlit("vulkanh264enc name=enc idr-period=300 bitrate=");
    reveal_strlit("video/x-raw");
    reveal_strlit(
        "nvh264enc name=enc zerolatency=true tune=ultra-low-latency rc-mode=cbr repeat-sequence-header=true gop-size=300 bitrate=",
    );
    reveal_strlit("video/x-h264,stream-format=byte-stream,alignment=au");
    reveal_strlit("appsink name=sink sync=false");
    lemma_decimal_is_digits(fps as nat);
    match sink {
        VideoSink::Encode { bitrate_kbps, .. } => {
            lemma_decimal_is_digits(bitrate_kbps as nat);
            lemma_decimal_is_digits((bitrate_kbps * 1000) as nat);
        },
        _ => {},
    }
    match source {
        VideoSource::GstWaylandDisplay { render_node, width, height, fps } => {
            lemma_signed_decimal_is_digits(width as int);
            lemma_signed_decimal_is_digits(height as int);
            lemma_decimal_is_digits(fps as nat);
        },
        _ => {},
    }
    assert(s[at] != 'D');
}

/// What has to be fed into a pipeline by hand once it runs.
pub enum Feed {
    /// The source element produces its own frames.
    Nothing,
    /// The login screen's frames, into the `appsrc` named `login-appsrc`.
    LoginFrames,
    /// Frames captured from this node, into the `appsrc` named
    /// [`KWIN_NATIVE_APPSRC_NAME`].
    NativeCapture { node_id: u32, wayland_socket_path: String },
}

/// How to build and run a pipeline.
pub struct PipelinePlan {
    pub description: String,
    /// The frame rate that the frame gate named [`FPS_CAP_ELEMENT_NAME`] caps the
    /// stream to, where it does.
    pub fps_gate: Option<u32>,
    pub feed: Feed,
}

impl Feed {
    /// The feed of a source whose pipeline encodes.
    pub open spec fn of(self, source: VideoSource) -> bool {
        match source {
            VideoSource::Login { .. } => self is LoginFrames,
            VideoSource::KwinNativeDmaBuf { node_id, wayland_socket_path, .. } => match self {
                Feed::NativeCapture { node_id: n, wayland_socket_path: p } => n == node_id && p@
                    == wayland_socket_path@,
                _ => false,
            },
            _ => self is Nothing,
        }
    }
}

/// How `source` is shown in a local window, at up to 60 frames a second.
pub fn make_pipeline(source: &VideoSource, client_name: &str) -> (plan: PipelinePlan)
    requires
        has_pipeline(*source, VideoSink::LocalDisplay),
    ensures
        plan.description@ == join(
            stages(*source, client_name@, 60, VideoSink::LocalDisplay),
            " ! "@,
        ),
        plan.fps_gate is None,
        plan.feed.of(*source),
{
    let sink = VideoSink::LocalDisplay;
    let description = video_pipeline_description(source, client_name, 60, &sink);
    let feed = match source {
        VideoSource::Login { .. } => Feed::LoginFrames,
        _ => Feed::Nothing,
    };
    PipelinePlan { description, fps_gate: None, feed }
}

/// The frame rate that a stream asks for when it names none.
pub open spec fn rate(fps_cap: Option<u32>) -> u32 {
    match fps_cap {
        Some(fps) => fps,
        None => 60,
    }
}

/// How `source` is encoded. A frame-rate cap is enforced by the frame gate for a
/// damage-driven source only: the others are paced where they start.
pub fn make_encoder_pipeline(
    source: &VideoSource,
    client_name: &str,
    encoder: VideoEncoder,
    fps_cap: Option<u32>,
    bitrate_kbps: u32,
) -> (plan: PipelinePlan)
    requires
        has_pipeline(*source, (VideoSink::Encode { encoder, bitrate_kbps })),
        in_range(*source, rate(fps_cap), (VideoSink::Encode { encoder, bitrate_kbps })),
    ensures
        plan.description@ == join(
            stages(
                *source,
                client_name@,
                rate(fps_cap),
                (VideoSink::Encode { encoder, bitrate_kbps }),
            ),
            " ! "@,
        ),
        plan.fps_gate == if source.damage_driven() && rate(fps_cap) > 0 {
            fps_cap
        } else {
            None
        },
        plan.feed.of(*source),
{
    let fps: u32 = match fps_cap {
        Some(fps) => fps,
        None => 60,
    };
    let sink = VideoSink::Encode { encoder, bitrate_kbps };
    let description = video_pipeline_description(source, client_name, fps, &sink);
    let damage_driven = match source {
        VideoSource::PipeWireNode(_) => false,
        VideoSource::KwinNativeDmaBuf { .. } => false,
        _ => true,
    };
    let fps_gate = if damage_driven && fps > 0 {
        fps_cap
    } else {
        None
    };
    let feed = match source {
        VideoSource::Login { .. } => Feed::LoginFrames,
        VideoSource::KwinNativeDmaBuf { node_id, wayland_socket_path, .. } => Feed::NativeCapture {
            node_id: *node_id,
            wayland_socket_path: wayland_socket_path.clone(),
        },
        _ => Feed::Nothing,
    };
    PipelinePlan { description, fps_gate, feed }
}

/// A gate is planned only where the description has one to put it on.
pub proof fn law_gate_has_an_element(
    source: VideoSource,
    client_name: Seq<char>,
    encoder: VideoEncoder,
    fps_cap: Option<u32>,
    bitrate_kbps: u32,
)
    requires
        has_pipeline(source, (VideoSink::Encode { encoder, bitrate_kbps })),
        source.damage_driven() && rate(fps_cap) > 0,
    ensures
        stages(
            source,
            client_name,
            rate(fps_cap),
            (VideoSink::Encode { encoder, bitrate_kbps }),
        ).contains("identity name="@ + FPS_CAP_ELEMENT_NAME@),
{
    let sink = VideoSink::Encode { encoder, bitrate_kbps };
    law_damage_driven_sources_are_gated(source, client_name, rate(fps_cap), sink);
    reveal_strlit("identity name=");
    reveal_strlit("fps_cap_gate");
    reveal_strlit("identity name=fps_cap_gate");
    assert("identity name="@ + FPS_CAP_ELEMENT_NAME@ =~= "identity name=fps_cap_gate"@);
}

/// The value of the running encoder's `bitrate` property for a bitrate in
/// kilobits per second: `openh264enc` counts bits, every other encoder
/// kilobits.
pub fn set_encoder_bitrate(factory: Option<&str>, bitrate_kbps: u32) -> (bitrate: u32)
    requires
        (factory matches Some(f) && f@ == "openh264enc"@) ==> bitrate_kbps * 1000 <= u32::MAX,
    ensures
        bitrate == if factory matches Some(f) && f@ == "openh264enc"@ {
            bitrate_kbps * 1000
        } else {
            bitrate_kbps as int
        },
{
    let counts_bits = match factory {
        Some(f) => same_text(f, "openh264enc"),
        None => false,
    };
    if counts_bits {
        bitrate_kbps * 1000
    } else {
        bitrate_kbps
    }
}

/// What direct encoding needs to know of its source: the node, the compositor's
/// socket, the size and the frame rate. Only natively captured frames can be
/// encoded so.
pub fn make_cuda_direct_encoder_session(source: VideoSource) -> (r: Option<
    (u32, String, u32, u32, u32),
>)
    ensures
        match source {
            VideoSource::KwinNativeDmaBuf { node_id, wayland_socket_path, width, height, fps } => r
                == Some((node_id, wayland_socket_path, width, height, fps)),
            _ => r is None,
        },
{
    match source {
        VideoSource::KwinNativeDmaBuf { node_id, wayland_socket_path, width, height, fps } => Some(
            (node_id, wayland_socket_path, width, height, fps),
        ),
        _ => None,
    }
}

/// Whether a stage names its element.
pub open spec fn is_named(stage: Seq<char>, name: Seq<char>) -> bool {
    contains_text(stage, " name="@ + name + " "@)
}

proof fn lemma_named(stage: Seq<char>, front: Seq<char>, name: Seq<char>, rest: Seq<char>)
    requires
        stage == front + (" name="@ + name + " "@) + rest,
    ensures
        is_named(stage, name),
{
    let part = " name="@ + name + " "@;
    assert(stage.subrange(front.len() as int, (front.len() + part.len()) as int) =~= part);
    assert(occurs_at(stage, part, front.len() as int));
}

/// The elements that are looked up by name once a pipeline runs are in it: the
/// one that captured or login frames are pushed into stands first, every encoder
/// goes by the same name, and frames or packets are taken from the last.
pub proof fn law_looked_up_elements_are_there(
    source: VideoSource,
    client_name: Seq<char>,
    fps: u32,
    sink: VideoSink,
)
    requires
        has_pipeline(source, sink),
    ensures
        source is Login ==> is_named(stages(source, client_name, fps, sink)[0], "login-appsrc"@),
        source is KwinNativeDmaBuf ==> is_named(
            stages(source, client_name, fps, sink)[0],
            KWIN_NATIVE_APPSRC_NAME@,
        ),
        sink is Encode ==> exists|i: int|
            0 <= i < stages(source, client_name, fps, sink).len() && is_named(
                #[trigger] stages(source, client_name, fps, sink)[i],
                ENCODER_ELEMENT_NAME@,
            ),
        stages(source, client_name, fps, sink).last() == "appsink name=sink sync=false"@,
{
    let all = stages(source, client_name, fps, sink);
    reveal_strlit(" name=");
    reveal_strlit(" ");
    if let VideoSource::Login { width, height } = source {
        reveal_strlit("login-appsrc");
        reveal_strlit(
            "appsrc name=login-appsrc format=time is-live=true block=false caps=video/x-raw,format=RGBA,width=",
        );
        let head =
            "appsrc name=login-appsrc format=time is-live=true block=false caps=video/x-raw,format=RGBA,width="@;
        let part = " name="@ + "login-appsrc"@ + " "@;
        assert(head.subrange(6, 25) =~= part);
        assert(all[0] =~= head.take(6) + part + all[0].skip(25)) by {
            assert(all[0].take(head.len() as int) =~= head);
        }
        lemma_named(all[0], head.take(6), "login-appsrc"@, all[0].skip(25));
    }
    if source is KwinNativeDmaBuf {
        reveal_strlit("kwin-native-appsrc");
        reveal_strlit("appsrc name=kwin-native-appsrc format=time is-live=true do-timestamp=false");
        let head = "appsrc name=kwin-native-appsrc format=time is-live=true do-timestamp=false"@;
        let part = " name="@ + "kwin-native-appsrc"@ + " "@;
        assert(head.subrange(6, 31) =~= part);
        assert(all[0] =~= head.take(6) + part + all[0].skip(31));
        lemma_named(all[0], head.take(6), "kwin-native-appsrc"@, all[0].skip(31));
    }
    if let VideoSink::Encode { encoder, bitrate_kbps } = sink {
        let at = all.len() - 3;
        lemma_encoder_is_named(encoder, bitrate_kbps);
        assert(all[at] == encoder_stage(encoder, bitrate_kbps));
    }
}

/// The stage that encodes.
spec fn encoder_stage(encoder: VideoEncoder, bitrate_kbps: u32) -> Seq<char> {
    match encoder {
        VideoEncoder::Software => software_enc(bitrate_kbps),
        VideoEncoder::Vulkan => vulkan_enc(bitrate_kbps),
        _ => nvenc_enc(bitrate_kbps),
    }
}

proof fn lemma_encoder_is_named(encoder: VideoEncoder, bitrate_kbps: u32)
    ensures
        is_named(encoder_stage(encoder, bitrate_kbps), ENCODER_ELEMENT_NAME@),
{
    let stage = encoder_stage(encoder, bitrate_kbps);
    reveal_strlit(" name=");
    reveal_strlit(" ");
    reveal_strlit("enc");
    let part = " name="@ + "enc"@ + " "@;
    match encoder {
        VideoEncoder::Software => {
            reveal_strlit(
                "openh264enc name=enc usage-type=screen rate-control=bitrate gop-size=300 bitrate=",
            );
            let head =
                "openh264enc name=enc usage-type=screen rate-control=bitrate gop-size=300 bitrate="@;
            assert(head.subrange(11, 21) =~= part);
            assert(stage.take(head.len() as int) =~= head);
            assert(stage =~= head.take(11) + part + stage.skip(21));
            lemma_named(stage, head.take(11), "enc"@, stage.skip(21));
        },
        VideoEncoder::Vulkan => {
            reveal_strlit("vulkanh264enc name=enc idr-period=300 bitrate=");
            let head = "vulkanh264enc name=enc idr-period=300 bitrate="@;
            assert(head.subrange(13, 23) =~= part);
            assert(stage.take(head.len() as int) =~= head);
            assert(stage =~= head.take(13) + part + stage.skip(23));
            lemma_named(stage, head.take(13), "enc"@, stage.skip(23));
        },
        _ => {
            reveal_strlit(
                "nvh264enc name=enc zerolatency=true tune=ultra-low-latency rc-mode=cbr repeat-sequence-header=true gop-size=300 bitrate=",
            );
            let head =
                "nvh264enc name=enc zerolatency=true tune=ultra-low-latency rc-mode=cbr repeat-sequence-header=true gop-size=300 bitrate="@;
            assert(head.subrange(9, 19) =~= part);
            assert(stage.take(head.len() as int) =~= head);
            assert(stage =~= head.take(9) + part + stage.skip(19));
            lemma_named(stage, head.take(9), "enc"@, stage.skip(19));
        },
    }
}

/// What a stage of an encoder begins with.
spec fn encoder_head(encoder: VideoEncoder) -> Seq<char> {
    match encoder {
        VideoEncoder::Software =>
            "openh264enc name=enc usage-type=screen rate-control=bitrate gop-size=300 bitrate="@,
        VideoEncoder::Vulkan => "vulkanh264enc name=enc idr-period=300 bitrate="@,
        _ =>
            "nvh264enc name=enc zerolatency=true tune=ultra-low-latency rc-mode=cbr repeat-sequence-header=true gop-size=300 bitrate="@,
    }
}

/// The number that an encoder's element takes for its bitrate.
spec fn encoder_number(encoder: VideoEncoder, bitrate_kbps: u32) -> nat {
    if encoder is Software {
        (bitrate_kbps * 1000) as nat
    } else {
        bitrate_kbps as nat
    }
}

proof fn lemma_encoder_head(encoder: VideoEncoder)
    ensures
        ({
            let head = encoder_head(encoder);
            let n = head.len() - 8;
            &&& n > 0
            &&& head.skip(n) == "bitrate="@
            &&& head[n - 1] == ' '
            &&& run_before(head, ' ') < head.len()
            &&& element(head) == match encoder {
                VideoEncoder::Software => "openh264enc"@,
                VideoEncoder::Vulkan => "vulkanh264enc"@,
                _ => "nvh264enc"@,
            }
        }),
{
    let head = encoder_head(encoder);
    reveal_strlit("bitrate=");
    match encoder {
        VideoEncoder::Software => {
            reveal_strlit(
                "openh264enc name=enc usage-type=screen rate-control=bitrate gop-size=300 bitrate=",
            );
            reveal_strlit("openh264enc");
            lemma_run_before(head, ' ', 11);
            assert(element(head) =~= "openh264enc"@);
        },
        VideoEncoder::Vulkan => {
            reveal_strlit("vulkanh264enc name=enc idr-period=300 bitrate=");
            reveal_strlit("vulkanh264enc");
            lemma_run_before(head, ' ', 13);
            assert(element(head) =~= "vulkanh264enc"@);
        },
        _ => {
            reveal_strlit(
                "nvh264enc name=enc zerolatency=true tune=ultra-low-latency rc-mode=cbr repeat-sequence-header=true gop-size=300 bitrate=",
            );
            reveal_strlit("nvh264enc");
            lemma_run_before(head, ' ', 9);
            assert(element(head) =~= "nvh264enc"@);
        },
    }
    assert(head.skip(head.len() - 8) =~= "bitrate="@);
}

/// The number behind `bitrate=` in the stage that encodes, read as a decimal, is
/// what a running encoder of that element is set to for the wanted bitrate: a
/// thousand times the kilobits for `openh264enc`, and the kilobits themselves for
/// every other.
pub proof fn law_the_encoder_gets_the_wanted_bitrate(
    source: VideoSource,
    client_name: Seq<char>,
    fps: u32,
    encoder: VideoEncoder,
    bitrate_kbps: u32,
)
    requires
        has_pipeline(source, (VideoSink::Encode { encoder, bitrate_kbps })),
    ensures
        ({
            let all = stages(
                source,
                client_name,
                fps,
                (VideoSink::Encode { encoder, bitrate_kbps }),
            );
            exists|i: int, number: Seq<char>|
                0 <= i < all.len() && #[trigger] stands_whole(all[i], "bitrate="@ + number, ' ')
                    && (encoder is Software <==> element(all[i]) == "openh264enc"@) && (
                encoder is Vulkan <==> element(all[i]) == "vulkanh264enc"@) && (
                encoder is Nvenc <==> element(all[i]) == "nvh264enc"@) && (forall|j: int|
                    0 <= j < number.len() ==> is_digit(#[trigger] number[j])) && number.len() > 0
                    && value_of(number) == if element(all[i]) == "openh264enc"@ {
                    bitrate_kbps * 1000
                } else {
                    bitrate_kbps as int
                }
        }),
{
    let all = stages(source, client_name, fps, (VideoSink::Encode { encoder, bitrate_kbps }));
    let i = all.len() - 3;
    let head = encoder_head(encoder);
    let number = decimal(encoder_number(encoder, bitrate_kbps));
    let stage = all[i];
    assert(stage == head + number);
    lemma_encoder_head(encoder);
    lemma_decimal(encoder_number(encoder, bitrate_kbps));
    let n = head.len() - 8;
    lemma_run_before_is_first(head, ' ');
    let k = run_before(head, ' ') as int;
    assert forall|j: int| 0 <= j < k implies stage[j] != ' ' by {
        assert(stage[j] == head[j]);
    }
    assert(stage[k] == head[k]);
    lemma_run_before(stage, ' ', k);
    assert(element(stage) =~= element(head));
    assert(stage =~= head.take(n) + ("bitrate="@ + number) + Seq::<char>::empty()) by {
        assert(head =~= head.take(n) + head.skip(n));
    }
    lemma_stands_whole(stage, head.take(n), "bitrate="@ + number, seq![], ' ');
    reveal_strlit("openh264enc");
    reveal_strlit("vulkanh264enc");
    reveal_strlit("nvh264enc");
    assert("openh264enc"@.len() == 11 && "vulkanh264enc"@.len() == 13 && "nvh264enc"@.len() == 9);
    assert(0 <= i < all.len() && stands_whole(all[i], "bitrate="@ + number, ' '));
}

/// Descriptions that ask for different bitrates are different, whatever else they
/// ask for.
pub proof fn law_other_bitrates_have_other_descriptions(
    source: VideoSource,
    client_name: Seq<char>,
    fps: u32,
    encoder: VideoEncoder,
    a: u32,
    b: u32,
)
    requires
        has_pipeline(source, (VideoSink::Encode { encoder, bitrate_kbps: a })),
        a != b,
    ensures
        join(
            stages(source, client_name, fps, (VideoSink::Encode { encoder, bitrate_kbps: a })),
            " ! "@,
        ) != join(
            stages(source, client_name, fps, (VideoSink::Encode { encoder, bitrate_kbps: b })),
            " ! "@,
        ),
{
    let one = stages(source, client_name, fps, (VideoSink::Encode { encoder, bitrate_kbps: a }));
    let two = stages(source, client_name, fps, (VideoSink::Encode { encoder, bitrate_kbps: b }));
    let sep = " ! "@;
    let i = one.len() - 3;
    let head = encoder_head(encoder);
    let an = decimal(encoder_number(encoder, a));
    let bn = decimal(encoder_number(encoder, b));
    assert(one[i] == head + an);
    assert(two[i] == head + bn);
    assert(one.take(i) =~= two.take(i));
    assert(0 < i < one.len() - 1 && one.len() == two.len());
    lemma_joined_parts(one, sep, i);
    lemma_joined_parts(two, sep, i);
    let front = join(one.take(i), sep) + sep;
    let ax = choose|x: Seq<char>|
        join(one, sep) == #[trigger] (front + one[i] + x) && x.len() >= sep.len() && x.take(
            sep.len() as int,
        ) == sep;
    let bx = choose|x: Seq<char>|
        join(two, sep) == #[trigger] (front + two[i] + x) && x.len() >= sep.len() && x.take(
            sep.len() as int,
        ) == sep;
    reveal_strlit(" ! ");
    assert(ax.take(3)[0] == ' ' && bx.take(3)[0] == ' ');
    lemma_decimal(encoder_number(encoder, a));
    lemma_decimal(encoder_number(encoder, b));
    if join(one, sep) == join(two, sep) {
        let ay = ax.skip(1);
        let by = bx.skip(1);
        assert(ax =~= seq![' '] + ay);
        assert(bx =~= seq![' '] + by);
        let n = front.len() + head.len();
        assert(join(one, sep).skip(n as int) =~= an + seq![' '] + ay);
        assert(join(two, sep).skip(n as int) =~= bn + seq![' '] + by);
        assert forall|j: int| 0 <= j < an.len() implies an[j] != ' ' by {
            assert(is_digit(an[j]));
        }
        assert forall|j: int| 0 <= j < bn.len() implies bn[j] != ' ' by {
            assert(is_digit(bn[j]));
        }
        lemma_same_before_separator(an, ay, bn, by, ' ');
        assert(encoder_number(encoder, a) == encoder_number(encoder, b));
    }
}

/// A PipeWire source reads the wanted node, goes by the wanted client name, and
/// repeats a frame after as many milliseconds as two frames take, rounded down;
/// and where its frames are paced behind it, it is to the wanted rate.
pub proof fn law_pipewire_sources_read_the_wanted_node(
    node_id: u32,
    client_name: Seq<char>,
    fps: u32,
    sink: VideoSink,
)
    requires
        has_pipeline(VideoSource::PipeWireNode(node_id), sink),
        in_range(VideoSource::PipeWireNode(node_id), fps, sink),
    ensures
        ({
            let all = stages(VideoSource::PipeWireNode(node_id), client_name, fps, sink);
            &&& stands_whole(all[0], "path="@ + decimal(node_id as nat), ' ')
            &&& stands_whole(all[0], "client-name=\""@ + client_name + "\""@, ' ')
            &&& exists|pause: nat| #[trigger]
                stands_whole(all[0], "keepalive-time="@ + decimal(pause), ' ') && pause * fps
                    <= 2000 && 2000 < (pause + 1) * fps
            &&& (sink is LocalDisplay || (sink matches VideoSink::Encode { encoder, .. }
                && encoder is Software)) ==> all.len() > 2 && stands_whole(
                all[2],
                "framerate="@ + decimal(fps as nat) + "/1"@,
                ',',
            )
        }),
{
    let all = stages(VideoSource::PipeWireNode(node_id), client_name, fps, sink);
    let pause: nat = (2000u32 / fps) as nat;
    assert(all[0] == pipewire_src(node_id, client_name, fps));
    lemma_pipewire_src(decimal(node_id as nat), client_name, decimal(pause));
    lemma_two_frames(fps);
    if sink is LocalDisplay || (sink matches VideoSink::Encode { encoder, .. }
        && encoder is Software) {
        assert(all[2] == any_framerate(fps));
        lemma_any_framerate(fps);
    }
}

proof fn lemma_two_frames(fps: u32)
    requires
        fps > 0,
    ensures
        ({
            let pause: nat = (2000u32 / fps) as nat;
            pause * fps <= 2000 && 2000 < (pause + 1) * fps
        }),
{
    let pause: nat = (2000u32 / fps) as nat;
    assert(pause * fps <= 2000 && 2000 < (pause + 1) * fps) by (nonlinear_arith)
        requires
            pause == 2000u32 / fps,
            fps > 0,
    ;
}

proof fn lemma_pipewire_src(node: Seq<char>, client_name: Seq<char>, keep: Seq<char>)
    ensures
        ({
            let s = "pipewiresrc name=pipewiresrc path="@ + node + " client-name=\""@ + client_name
                + "\" do-timestamp=true keepalive-time="@ + keep;
            &&& stands_whole(s, "path="@ + node, ' ')
            &&& stands_whole(s, "client-name=\""@ + client_name + "\""@, ' ')
            &&& stands_whole(s, "keepalive-time="@ + keep, ' ')
        }),
{
    let s = "pipewiresrc name=pipewiresrc path="@ + node + " client-name=\""@ + client_name
        + "\" do-timestamp=true keepalive-time="@ + keep;
    let front = "pipewiresrc name=pipewiresrc"@;
    assert("pipewiresrc name=pipewiresrc path="@ == front + " path="@ && " path="@ == seq![' ']
        + "path="@) by {
        reveal_strlit("pipewiresrc name=pipewiresrc path=");
        reveal_strlit("pipewiresrc name=pipewiresrc");
        reveal_strlit(" path=");
        reveal_strlit("path=");
    }
    assert(" client-name=\""@ == seq![' '] + "client-name=\""@) by {
        reveal_strlit(" client-name=\"");
        reveal_strlit("client-name=\"");
    }
    assert("\" do-timestamp=true keepalive-time="@ == "\""@ + (" do-timestamp=true"@
        + " keepalive-time="@) && " do-timestamp=true"@ == seq![' '] + "do-timestamp=true"@
        && " keepalive-time="@ == seq![' '] + "keepalive-time="@) by {
        reveal_strlit("\" do-timestamp=true keepalive-time=");
        reveal_strlit("\"");
        reveal_strlit(" do-timestamp=true");
        reveal_strlit("do-timestamp=true");
        reveal_strlit(" keepalive-time=");
        reveal_strlit("keepalive-time=");
    }
    let none = Seq::<Seq<char>>::empty();
    let p1 = none.push("path="@ + node);
    let p2 = p1.push("client-name=\""@ + (client_name + "\""@));
    let p3 = p2.push("do-timestamp=true"@ + Seq::<char>::empty());
    let p4 = p3.push("keepalive-time="@ + keep);
    let t1 = front + " path="@ + node;
    let t2 = t1 + " client-name=\""@ + (client_name + "\""@);
    let t3 = t2 + " do-timestamp=true"@ + Seq::<char>::empty();
    let t4 = t3 + " keepalive-time="@ + keep;
    lemma_piece_is_added(front, none, " path="@, "path="@, node, ' ');
    lemma_piece_is_added(
        t1,
        p1,
        " client-name=\""@,
        "client-name=\""@,
        client_name + "\""@,
        ' ',
    );
    lemma_piece_is_added(t2, p2, " do-timestamp=true"@, "do-timestamp=true"@, seq![], ' ');
    lemma_piece_is_added(t3, p3, " keepalive-time="@, "keepalive-time="@, keep, ' ');
    assert(s == t4) by {
        broadcast use {lemma_cat, lemma_cat_nothing};

    }
    lemma_cat("client-name=\""@, client_name, "\""@);
    assert(stands_whole(s, p4[0], ' ') && stands_whole(s, p4[1], ' ') && stands_whole(s, p4[3], ' '));
}

proof fn lemma_any_framerate(fps: u32)
    ensures
        stands_whole(any_framerate(fps), "framerate="@ + decimal(fps as nat) + "/1"@, ','),
{
    let rate = "framerate="@ + decimal(fps as nat) + "/1"@;
    assert("video/x-raw(ANY),framerate="@ == "video/x-raw(ANY),"@ + "framerate="@
        && "video/x-raw(ANY),"@.last() == ',') by {
        reveal_strlit("video/x-raw(ANY),framerate=");
        reveal_strlit("video/x-raw(ANY),");
        reveal_strlit("framerate=");
    }
    assert(any_framerate(fps) == "video/x-raw(ANY),"@ + rate + Seq::<char>::empty()) by {
        broadcast use {lemma_cat, lemma_cat_nothing};

    }
    lemma_stands_whole(any_framerate(fps), "video/x-raw(ANY),"@, rate, seq![], ',');
}

/// A compositor that is its own source renders on the wanted node, and its frames
/// have the wanted width, height and rate, wherever they go.
pub proof fn law_own_compositors_have_the_wanted_size(
    render_node: String,
    width: i32,
    height: i32,
    own_fps: u32,
    client_name: Seq<char>,
    fps: u32,
    sink: VideoSink,
)
    requires
        has_pipeline((VideoSource::GstWaylandDisplay { render_node, width, height, fps: own_fps }), sink),
    ensures
        ({
            let all = stages(
                (VideoSource::GstWaylandDisplay { render_node, width, height, fps: own_fps }),
                client_name,
                fps,
                sink,
            );
            &&& contains_text(all[0], " render-node=\""@ + render_node@ + "\""@)
            &&& all_stand_whole(
                all[1],
                seq![
                    "width="@ + signed_decimal(width as int),
                    "height="@ + signed_decimal(height as int),
                    "framerate="@ + decimal(own_fps as nat) + "/1"@,
                ],
                ',',
            )
        }),
{
    let all = stages(
        (VideoSource::GstWaylandDisplay { render_node, width, height, fps: own_fps }),
        client_name,
        fps,
        sink,
    );
    let front = "waylanddisplaysrc name=waylanddisplaysrc"@;
    assert("waylanddisplaysrc name=waylanddisplaysrc render-node=\""@ == front
        + " render-node=\""@) by {
        reveal_strlit("waylanddisplaysrc name=waylanddisplaysrc render-node=\"");
        reveal_strlit("waylanddisplaysrc name=waylanddisplaysrc");
        reveal_strlit(" render-node=\"");
    }
    let part = " render-node=\""@ + render_node@ + "\""@;
    assert(all[0] == front + (part + Seq::<char>::empty())) by {
        broadcast use {lemma_cat, lemma_cat_nothing};

    }
    lemma_contains(all[0], front, part, seq![]);
    assert(all[1] == fixed_caps(width, height, own_fps));
    lemma_sized(
        "video/x-raw"@,
        signed_decimal(width as int),
        signed_decimal(height as int),
        decimal(own_fps as nat),
    );
    assert("video/x-raw,width="@ == "video/x-raw"@ + ",width="@) by {
        reveal_strlit("video/x-raw,width=");
        reveal_strlit("video/x-raw");
        reveal_strlit(",width=");
    }
}

proof fn lemma_sized(front: Seq<char>, width: Seq<char>, height: Seq<char>, fps: Seq<char>)
    ensures
        all_stand_whole(
            front + ",width="@ + width + ",height="@ + height + ",framerate="@ + fps + "/1"@,
            seq!["width="@ + width, "height="@ + height, "framerate="@ + fps + "/1"@],
            ',',
        ),
{
    assert(",width="@ == seq![','] + "width="@) by {
        reveal_strlit(",width=");
        reveal_strlit("width=");
    }
    assert(",height="@ == seq![','] + "height="@) by {
        reveal_strlit(",height=");
        reveal_strlit("height=");
    }
    assert(",framerate="@ == seq![','] + "framerate="@) by {
        reveal_strlit(",framerate=");
        reveal_strlit("framerate=");
    }
    let p0 = Seq::<Seq<char>>::empty();
    lemma_piece_is_added(front, p0, ",width="@, "width="@, width, ',');
    let t1 = front + ",width="@ + width;
    let p1 = p0.push("width="@ + width);
    lemma_piece_is_added(t1, p1, ",height="@, "height="@, height, ',');
    let t2 = t1 + ",height="@ + height;
    let p2 = p1.push("height="@ + height);
    lemma_piece_is_added(t2, p2, ",framerate="@, "framerate="@, fps + "/1"@, ',');
    lemma_cat("framerate="@, fps, "/1"@);
    lemma_cat(t2 + ",framerate="@, fps, "/1"@);
    assert(p2.push("framerate="@ + (fps + "/1"@)) =~= seq![
        "width="@ + width,
        "height="@ + height,
        "framerate="@ + fps + "/1"@,
    ]);
}

/// The login screen's frames have the size of the screen, wherever they go.
pub proof fn law_the_login_screen_has_the_wanted_size(
    width: u32,
    height: u32,
    client_name: Seq<char>,
    fps: u32,
    sink: VideoSink,
)
    requires
        has_pipeline((VideoSource::Login { width, height }), sink),
    ensures
        all_stand_whole(
            stages((VideoSource::Login { width, height }), client_name, fps, sink)[0],
            seq![
                "width="@ + decimal(width as nat),
                "height="@ + decimal(height as nat),
                "framerate=30/1"@,
            ],
            ',',
        ),
{
    let front =
        "appsrc name=login-appsrc format=time is-live=true block=false caps=video/x-raw,format=RGBA"@;
    let s = stages((VideoSource::Login { width, height }), client_name, fps, sink)[0];
    assert("appsrc name=login-appsrc format=time is-live=true block=false caps=video/x-raw,format=RGBA,width="@
        == front + ",width="@) by {
        reveal_strlit(
            "appsrc name=login-appsrc format=time is-live=true block=false caps=video/x-raw,format=RGBA,width=",
        );
        reveal_strlit(
            "appsrc name=login-appsrc format=time is-live=true block=false caps=video/x-raw,format=RGBA",
        );
        reveal_strlit(",width=");
    }
    assert(",framerate=30/1"@ == ",framerate="@ + ("30"@ + "/1"@) && "framerate=30/1"@
        == "framerate="@ + "30"@ + "/1"@) by {
        reveal_strlit(",framerate=30/1");
        reveal_strlit(",framerate=");
        reveal_strlit("30");
        reveal_strlit("/1");
        reveal_strlit("framerate=30/1");
        reveal_strlit("framerate=");
    }
    lemma_sized(front, decimal(width as nat), decimal(height as nat), "30"@);
    assert(s == front + ",width="@ + decimal(width as nat) + ",height="@ + decimal(height as nat)
        + ",framerate="@ + "30"@ + "/1"@) by {
        broadcast use lemma_cat;

    }
}

/// A stream has the rate that it asks for, and is fed from where its source says.
pub proof fn law_streams_have_the_rate_and_feed_they_ask_for(
    fps: u32,
    feed: Feed,
    node_id: u32,
    wayland_socket_path: String,
    width: u32,
    height: u32,
    source_fps: u32,
)
    ensures
        rate(Some(fps)) == fps,
        rate(None) == 60,
        feed.of(
            VideoSource::KwinNativeDmaBuf {
                node_id,
                wayland_socket_path,
                width,
                height,
                fps: source_fps,
            },
        ) ==> (feed matches Feed::NativeCapture { node_id: n, wayland_socket_path: p } && n
            == node_id && p@ == wayland_socket_path@),
        feed.of(VideoSource::Login { width, height }) ==> feed is LoginFrames,
        feed.of(VideoSource::PipeWireNode(node_id)) ==> feed is Nothing,
{
}

proof fn lemma_word_of(stage: Seq<char>, head: Seq<char>, at: int, word: Seq<char>)
    requires
        has_prefix(stage, head),
        0 < at,
        at + word.len() < head.len(),
        head.subrange(at, at + word.len()) == word,
        head[at - 1] == ' ',
        head[at + word.len()] == ' ',
    ensures
        stands_whole(stage, word, ' '),
{
    assert(stage.subrange(0, head.len() as int) == head);
    assert forall|j: int| 0 <= j < head.len() implies stage[j] == head[j] by {
        assert(stage.subrange(0, head.len() as int)[j] == stage[j]);
    }
    assert(stage.subrange(at, at + word.len()) =~= word) by {
        assert forall|j: int| 0 <= j < word.len() implies stage[at + j] == word[j] by {
            assert(head.subrange(at, at + word.len())[j] == head[at + j]);
        }
    }
    assert(crate::text::whole_at(stage, word, ' ', at));
}

/// Whatever encodes, at most 300 pictures go by until the next that stands alone, and
/// what it makes is a byte stream of whole access units, which the sink takes as they
/// come.
pub proof fn law_every_encoder_starts_over_after_three_hundred_pictures(
    source: VideoSource,
    client_name: Seq<char>,
    fps: u32,
    encoder: VideoEncoder,
    bitrate_kbps: u32,
)
    requires
        has_pipeline(source, (VideoSink::Encode { encoder, bitrate_kbps })),
    ensures
        ({
            let all = stages(
                source,
                client_name,
                fps,
                (VideoSink::Encode { encoder, bitrate_kbps }),
            );
            let n = all.len() as int;
            &&& n > 3
            &&& encoder is Vulkan ==> stands_whole(all[n - 3], "idr-period=300"@, ' ')
            &&& !(encoder is Vulkan) ==> stands_whole(all[n - 3], "gop-size=300"@, ' ')
            &&& all[n - 2] == "video/x-h264,stream-format=byte-stream,alignment=au"@
            &&& all[n - 1] == "appsink name=sink sync=false"@
        }),
{
    let all = stages(source, client_name, fps, (VideoSink::Encode { encoder, bitrate_kbps }));
    let stage = all[all.len() - 3];
    let head = encoder_head(encoder);
    assert(stage == head + decimal(encoder_number(encoder, bitrate_kbps)));
    assert(stage.subrange(0, head.len() as int) =~= head);
    match encoder {
        VideoEncoder::Software => {
            reveal_strlit(
                "openh264enc name=enc usage-type=screen rate-control=bitrate gop-size=300 bitrate=",
            );
            reveal_strlit("gop-size=300");
            assert(head.subrange(60, 72) =~= "gop-size=300"@);
            lemma_word_of(stage, head, 60, "gop-size=300"@);
        },
        VideoEncoder::Vulkan => {
            reveal_strlit("vulkanh264enc name=enc idr-period=300 bitrate=");
            reveal_strlit("idr-period=300");
            assert(head.subrange(23, 37) =~= "idr-period=300"@);
            lemma_word_of(stage, head, 23, "idr-period=300"@);
        },
        _ => {
            reveal_strlit(
                "nvh264enc name=enc zerolatency=true tune=ultra-low-latency rc-mode=cbr repeat-sequence-header=true gop-size=300 bitrate=",
            );
            reveal_strlit("gop-size=300");
            assert(head.subrange(99, 111) =~= "gop-size=300"@);
            lemma_word_of(stage, head, 99, "gop-size=300"@);
        },
    }
}

/// The frames of a compositor that is its own source and those of the login screen come
/// only when something on the screen has changed; those of PipeWire and of native capture
/// are paced where they start.
pub proof fn law_own_compositors_and_the_login_screen_are_damage_driven(source: VideoSource)
    ensures
        source is GstWaylandDisplay || source is Login ==> source.damage_driven(),
        source is PipeWireNode || source is KwinNativeDmaBuf ==> !source.damage_driven(),
{
}

/// Frames reach each encoder in the form it takes: converted to I420 for software, put
/// on the GPU and converted there for Vulkan, and for NVENC either uploaded through GL,
/// where they were captured natively, or handed on as they come from PipeWire, or as raw
/// video otherwise. A local window is given BGRx.
pub proof fn law_frames_are_converted_for_what_takes_them(
    source: VideoSource,
    client_name: Seq<char>,
    fps: u32,
    sink: VideoSink,
)
    requires
        has_pipeline(source, sink),
    ensures
        ({
            let all = stages(source, client_name, fps, sink);
            let n = all.len() as int;
            match sink {
                VideoSink::LocalDisplay => n > 3 && all[n - 3] == "videoconvert"@ && all[n - 2]
                    == "video/x-raw,format=BGRx"@,
                VideoSink::Encode { encoder, .. } => {
                    &&& encoder is Software ==> n > 5 && all[n - 5] == "videoconvert"@ && all[n - 4]
                        == "video/x-raw,format=I420"@
                    &&& encoder is Vulkan ==> n > 5 && all[n - 5] == "vulkanupload"@ && all[n - 4]
                        == "vulkancolorconvert"@
                    &&& encoder is Nvenc && source is KwinNativeDmaBuf ==> n > 5 && all[n - 5]
                        == "glupload"@ && all[n - 4] == "glcolorconvert"@
                    &&& encoder is Nvenc && source is PipeWireNode ==> n == 4
                    &&& encoder is Nvenc && source.damage_driven() ==> n > 4 && all[n - 4]
                        == "video/x-raw"@
                },
            }
        }),
{
}

/// Only a PipeWire source is ever paced by `videorate`: for a local window and for
/// software. What is encoded waits in a queue that drops the oldest frame, unless it goes
/// from PipeWire to the GPU; what is shown in a local window does not.
pub proof fn law_frames_are_paced_and_queued_where_they_have_to_be(
    source: VideoSource,
    client_name: Seq<char>,
    fps: u32,
    sink: VideoSink,
)
    requires
        has_pipeline(source, sink),
    ensures
        ({
            let all = stages(source, client_name, fps, sink);
            let rate = "videorate name=videorate skip-to-first=true"@;
            let queue =
                "queue leaky=downstream max-size-buffers=2 max-size-bytes=0 max-size-time=0"@;
            let software = sink matches VideoSink::Encode { encoder, .. } && encoder is Software;
            let local = sink is LocalDisplay;
            let at: int = match source {
                VideoSource::PipeWireNode(_) => 3,
                VideoSource::KwinNativeDmaBuf { .. } => 1,
                VideoSource::GstWaylandDisplay { .. } => 2,
                VideoSource::Login { .. } => 1,
            };
            &&& source is PipeWireNode && (local || software) ==> all.len() > 4 && all[1] == rate
            &&& !local && (software || !(source is PipeWireNode)) ==> all.len() > at && all[at]
                == queue
            &&& local ==> all.len() == at + 3
            &&& source is PipeWireNode && !local && !software ==> element(all[1]) != "videorate"@
                && element(all[1]) != "queue"@
        }),
{
    let all = stages(source, client_name, fps, sink);
    reveal_strlit("videorate");
    reveal_strlit("queue");
    match (source, sink) {
        (VideoSource::PipeWireNode(_), VideoSink::Encode { encoder, bitrate_kbps }) => {
            let second = all[1];
            lemma_run_before_is_first(second, ' ');
            if encoder is Nvenc {
                lemma_encoder_starts(encoder, bitrate_kbps);
                assert(second == encoder_stage(encoder, bitrate_kbps));
                if element(second).len() > 0 {
                    assert(element(second)[0] == second[0]);
                }
            } else if encoder is Vulkan {
                reveal_strlit("vulkanupload");
                if element(second).len() > 1 {
                    assert(element(second)[0] == second[0] && element(second)[1] == second[1]);
                }
            }
        },
        _ => {},
    }
}

proof fn lemma_encoder_starts(encoder: VideoEncoder, bitrate_kbps: u32)
    requires
        encoder is Nvenc,
    ensures
        encoder_stage(encoder, bitrate_kbps).len() > 0,
        encoder_stage(encoder, bitrate_kbps)[0] == 'n',
{
    reveal_strlit(
        "nvh264enc name=enc zerolatency=true tune=ultra-low-latency rc-mode=cbr repeat-sequence-header=true gop-size=300 bitrate=",
    );
}

} // verus!
