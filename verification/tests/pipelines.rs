use redfog::compositor::{CompositorSession, SessionType};
use redfog::pipeline::{
    audio_pipeline_description, detect_video_encoder, make_cuda_direct_encoder_session, make_encoder_pipeline,
    make_pipeline, set_encoder_bitrate, video_pipeline_description, Feed, VideoEncoder, VideoSink, VideoSource,
    FPS_CAP_ELEMENT_NAME,
};

#[test]
fn audio_pipeline_requests_5ms_opus_frames() {
    let desc = audio_pipeline_description("some-capture-node", "some-client");
    assert!(desc.contains("opusenc frame-size=5"), "pipeline description: {desc}");
}

#[test]
fn audio_pipeline_is_written_in_full() {
    assert_eq!(
        audio_pipeline_description("cap", "me"),
        "pipewiresrc target-object=cap client-name=me do-timestamp=true ! audioconvert ! audioresample ! audio/x-raw,format=S16LE,channels=2,rate=48000 ! opusenc frame-size=5 ! appsink name=sink sync=false"
    );
}

#[test]
fn detect_video_encoder_matches_element_factory_lookup() {
    assert_eq!(detect_video_encoder(true), VideoEncoder::NvencDirect);
    assert_eq!(detect_video_encoder(false), VideoEncoder::Software);
    assert_eq!(VideoEncoder::default(), VideoEncoder::Software);
}

#[test]
fn damage_driven_sources_have_the_fps_cap_gate() {
    let gst_wayland_display = video_pipeline_description(
        &VideoSource::GstWaylandDisplay { render_node: "software".to_string(), width: 1280, height: 720, fps: 60 },
        "test-client",
        60,
        &VideoSink::Encode { encoder: VideoEncoder::Software, bitrate_kbps: 10_000 },
    );
    assert!(gst_wayland_display.contains(&format!("identity name={FPS_CAP_ELEMENT_NAME}")), "pipeline description: {gst_wayland_display}");
    assert!(!gst_wayland_display.contains("videorate"), "pipeline description: {gst_wayland_display}");
    let login = video_pipeline_description(
        &VideoSource::Login { width: 1280, height: 720 },
        "test-client",
        60,
        &VideoSink::Encode { encoder: VideoEncoder::Software, bitrate_kbps: 10_000 },
    );
    assert!(login.contains(&format!("identity name={FPS_CAP_ELEMENT_NAME}")), "pipeline description: {login}");
    assert!(!login.contains("videorate"), "pipeline description: {login}");
}

#[test]
fn no_video_pipeline_currently_requests_dmabuf() {
    let login = video_pipeline_description(
        &VideoSource::Login { width: 1280, height: 720 },
        "test-client",
        60,
        &VideoSink::Encode { encoder: VideoEncoder::Nvenc, bitrate_kbps: 10_000 },
    );
    assert!(!login.contains("DMABuf"), "Login pipeline description: {login}");
    assert!(!login.contains("glupload"), "Login pipeline description: {login}");
    let gst_wayland_display = video_pipeline_description(
        &VideoSource::GstWaylandDisplay { render_node: "software".to_string(), width: 1280, height: 720, fps: 60 },
        "test-client",
        60,
        &VideoSink::Encode { encoder: VideoEncoder::Nvenc, bitrate_kbps: 10_000 },
    );
    assert!(!gst_wayland_display.contains("DMABuf"), "gst-wayland-display pipeline description: {gst_wayland_display}");
    assert!(!gst_wayland_display.contains("glupload"), "gst-wayland-display pipeline description: {gst_wayland_display}");
    let pipewire = video_pipeline_description(
        &VideoSource::PipeWireNode(56),
        "test-client",
        120,
        &VideoSink::Encode { encoder: VideoEncoder::Nvenc, bitrate_kbps: 10_000 },
    );
    assert!(!pipewire.contains("DMABuf"), "PipeWire pipeline description: {pipewire}");
    assert!(!pipewire.contains("glupload"), "PipeWire pipeline description: {pipewire}");
}

#[test]
fn software_pipeline_of_a_node_is_written_in_full() {
    assert_eq!(
        video_pipeline_description(
            &VideoSource::PipeWireNode(999_999),
            "parse-check",
            120,
            &VideoSink::Encode { encoder: VideoEncoder::Software, bitrate_kbps: 10_000 },
        ),
        "pipewiresrc name=pipewiresrc path=999999 client-name=\"parse-check\" do-timestamp=true keepalive-time=16 \
         ! videorate name=videorate skip-to-first=true ! video/x-raw(ANY),framerate=120/1 \
         ! queue leaky=downstream max-size-buffers=2 max-size-bytes=0 max-size-time=0 ! videoconvert \
         ! video/x-raw,format=I420 ! openh264enc name=enc usage-type=screen rate-control=bitrate gop-size=300 \
         bitrate=10000000 ! video/x-h264,stream-format=byte-stream,alignment=au ! appsink name=sink sync=false"
    );
}

#[test]
fn other_pipelines_are_written_in_full() {
    let nvenc = VideoSink::Encode { encoder: VideoEncoder::Nvenc, bitrate_kbps: 5000 };
    let vulkan = VideoSink::Encode { encoder: VideoEncoder::Vulkan, bitrate_kbps: 5000 };
    let native = VideoSource::KwinNativeDmaBuf {
        node_id: 7,
        wayland_socket_path: "/run/s".to_string(),
        width: 1,
        height: 2,
        fps: 60,
    };
    let tail = "! video/x-h264,stream-format=byte-stream,alignment=au ! appsink name=sink sync=false";
    assert_eq!(
        video_pipeline_description(&native, "c", 60, &nvenc),
        format!(
            "appsrc name=kwin-native-appsrc format=time is-live=true do-timestamp=false \
             ! queue leaky=downstream max-size-buffers=2 max-size-bytes=0 max-size-time=0 ! glupload ! glcolorconvert \
             ! nvh264enc name=enc zerolatency=true tune=ultra-low-latency rc-mode=cbr repeat-sequence-header=true \
             gop-size=300 bitrate=5000 {tail}"
        )
    );
    assert_eq!(
        video_pipeline_description(&VideoSource::PipeWireNode(3), "c", 60, &vulkan),
        format!(
            "pipewiresrc name=pipewiresrc path=3 client-name=\"c\" do-timestamp=true keepalive-time=33 ! vulkanupload \
             ! vulkancolorconvert ! vulkanh264enc name=enc idr-period=300 bitrate=5000 {tail}"
        )
    );
    let display = VideoSource::GstWaylandDisplay { render_node: "/dev/dri/renderD128".to_string(), width: -1, height: 720, fps: 30 };
    assert_eq!(
        video_pipeline_description(&display, "c", 0, &VideoSink::LocalDisplay),
        "waylanddisplaysrc name=waylanddisplaysrc render-node=\"/dev/dri/renderD128\" \
         ! video/x-raw,width=-1,height=720,framerate=30/1 ! videoconvert ! video/x-raw,format=BGRx \
         ! appsink name=sink sync=false"
    );
    assert_eq!(
        video_pipeline_description(&VideoSource::Login { width: 640, height: 480 }, "c", 0, &nvenc),
        format!(
            "appsrc name=login-appsrc format=time is-live=true block=false \
             caps=video/x-raw,format=RGBA,width=640,height=480,framerate=30/1 \
             ! queue leaky=downstream max-size-buffers=2 max-size-bytes=0 max-size-time=0 ! identity name=fps_cap_gate \
             ! video/x-raw ! nvh264enc name=enc zerolatency=true tune=ultra-low-latency rc-mode=cbr \
             repeat-sequence-header=true gop-size=300 bitrate=5000 {tail}"
        )
    );
}

#[test]
fn only_damage_driven_streams_are_capped() {
    let login = VideoSource::Login { width: 4, height: 4 };
    let plan = make_encoder_pipeline(&login, "c", VideoEncoder::Software, Some(30), 100);
    assert_eq!(plan.fps_gate, Some(30));
    assert!(matches!(plan.feed, Feed::LoginFrames));
    assert_eq!(make_encoder_pipeline(&login, "c", VideoEncoder::Software, Some(0), 100).fps_gate, None);
    assert_eq!(make_encoder_pipeline(&login, "c", VideoEncoder::Software, None, 100).fps_gate, None);
    let node = make_encoder_pipeline(&VideoSource::PipeWireNode(1), "c", VideoEncoder::Software, Some(30), 100);
    assert_eq!(node.fps_gate, None);
    assert!(matches!(node.feed, Feed::Nothing));
    let native = VideoSource::KwinNativeDmaBuf {
        node_id: 7,
        wayland_socket_path: "/run/s".to_string(),
        width: 1,
        height: 2,
        fps: 60,
    };
    match make_encoder_pipeline(&native, "c", VideoEncoder::Vulkan, None, 100).feed {
        Feed::NativeCapture { node_id, wayland_socket_path } => assert_eq!((node_id, wayland_socket_path.as_str()), (7, "/run/s")),
        _ => panic!("expected native capture"),
    }
    assert!(make_pipeline(&VideoSource::PipeWireNode(1), "c").description.contains("framerate=60/1"));
}

#[test]
fn encoders_are_named() {
    for e in [VideoEncoder::Software, VideoEncoder::Nvenc, VideoEncoder::Vulkan, VideoEncoder::NvencDirect] {
        assert_eq!(VideoEncoder::from_str(e.as_str()), Ok(e));
    }
    assert_eq!(
        VideoEncoder::from_str("x\"y"),
        Err("unknown video encoder \"x\\\"y\" (expected \"software\", \"nvenc\", \"vulkan\", or \"nvenc-direct\")".to_string())
    );
}

#[test]
fn bitrates_are_in_the_encoders_own_unit() {
    assert_eq!(set_encoder_bitrate(Some("openh264enc"), 5), 5000);
    assert_eq!(set_encoder_bitrate(Some("nvh264enc"), 5), 5);
    assert_eq!(set_encoder_bitrate(None, 5), 5);
}

#[test]
fn sources_suit_their_encoders() {
    let session = CompositorSession {
        session_type: SessionType::Login,
        socket_name: "s".to_string(),
        socket_path: "/run/s".to_string(),
        pipewire_node_id: 9,
        width: 1920,
        height: -1,
        fps: 60,
    };
    assert!(matches!(session.video_source(None, None), VideoSource::PipeWireNode(9)));
    assert!(matches!(session.video_source(None, Some(VideoEncoder::Software)), VideoSource::PipeWireNode(9)));
    assert!(matches!(session.video_source(Some("0"), Some(VideoEncoder::Nvenc)), VideoSource::PipeWireNode(9)));
    let source = session.video_source(Some("1"), Some(VideoEncoder::NvencDirect));
    let direct = make_cuda_direct_encoder_session(source).unwrap();
    assert_eq!(direct, (9, "/run/s".to_string(), 1920, u32::MAX, 60));
    assert!(make_cuda_direct_encoder_session(VideoSource::PipeWireNode(1)).is_none());
}
