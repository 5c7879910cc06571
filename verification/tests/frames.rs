use redfog::encoder::{
    bits_per_second, check_support, linear_pitch, linear_size, CudaDirectEncoderSession, EncoderOutcome, EncoderState, FrameAction,
    VideoCodec, GOP_LENGTH,
};
use redfog::frames::{
    spa_video_format_to_gst, BufferPlan, CapturedFrame, Descriptor, FpsGate, Frame, FrameStore, NativePusher, PixelFormat,
};
use std::time::Duration;

#[test]
fn fps_cap_probe_throttles_bursts_without_stalling() {
    let ms = 1_000_000u64;
    let mut gate = FpsGate::new(Duration::from_secs_f64(1.0 / 10.0).as_nanos() as u64);
    let mut received = 0;
    for i in 0..20u64 {
        if gate.lets_through(5 * ms + i) {
            received += 1;
        }
    }
    assert_eq!(received, 1, "expected only the first buffer of a rapid burst to pass, got {received}");
    if gate.lets_through(205 * ms) {
        received += 1;
    }
    assert_eq!(received, 2, "expected a buffer arriving after the cap interval to pass (not stuck), got {received}");
}

#[test]
fn frames_pass_one_interval_apart() {
    let length = Duration::from_secs_f64(1.0 / 60.0).as_nanos() as u64;
    let mut gate = FpsGate::new(length);
    assert!(gate.lets_through(1000));
    assert!(!gate.lets_through(1000 + length - 1));
    assert!(gate.lets_through(1000 + length));
    assert!(!gate.lets_through(1000 + 2 * length - 1));
}

#[test]
fn a_clock_that_runs_backwards_lets_nothing_through() {
    let mut gate = FpsGate::new(16_666_667);
    assert!(gate.lets_through(1_000_000_000));
    assert!(!gate.lets_through(0));
    assert!(gate.lets_through(1_100_000_000));
}

#[test]
fn a_new_size_is_noticed() {
    let mut store = FrameStore::new();
    assert!(store.put(Frame { width: 2, height: 1, data: vec![0; 8] }));
    assert!(!store.put(Frame { width: 2, height: 1, data: vec![1; 8] }));
    assert!(store.put(Frame { width: 1, height: 2, data: vec![2; 8] }));
    assert_eq!(store.latest.unwrap().data, vec![2; 8]);
}

fn frame(identity: i64) -> CapturedFrame {
    CapturedFrame {
        format: 8,
        width: 1920,
        height: 1080,
        stride: 7680,
        modifier: 5,
        is_dma_buf: true,
        buffer_identity: identity,
    }
}

#[test]
fn buffers_are_reused_until_the_format_changes() {
    let mut pusher = NativePusher::new();
    let first = pusher.on_frame(&frame(3));
    assert_eq!(first.announce, Some(PixelFormat::Bgrx));
    assert_eq!(first.buffer, BufferPlan::Wrap { size: 7680 * 1080 });
    let again = pusher.on_frame(&frame(3));
    assert_eq!(again.announce, None);
    assert_eq!(again.buffer, BufferPlan::Wrap { size: 7680 * 1080 });
    pusher.wrap_succeeded(3);
    assert_eq!(pusher.on_frame(&frame(3)).buffer, BufferPlan::Reuse);
    assert_eq!(pusher.on_frame(&frame(4)).buffer, BufferPlan::Wrap { size: 7680 * 1080 });
    let other = CapturedFrame { format: 12, ..frame(3) };
    let changed = pusher.on_frame(&other);
    assert_eq!(changed.announce, Some(PixelFormat::Bgra));
    assert_eq!(changed.buffer, BufferPlan::Wrap { size: 7680 * 1080 });
    let mem = CapturedFrame { is_dma_buf: false, stride: -1, height: 1, ..frame(3) };
    assert_eq!(pusher.on_frame(&mem).buffer, BufferPlan::Copy { size: u32::MAX });
}

#[test]
fn descriptors_are_closed_unless_their_buffer_is_wrapped() {
    assert_eq!(BufferPlan::Reuse.descriptor(), Descriptor::Close);
    assert_eq!(BufferPlan::Copy { size: 4 }.descriptor(), Descriptor::Close);
    assert_eq!(BufferPlan::Wrap { size: 4 }.descriptor(), Descriptor::HandOver);
}

#[test]
fn a_format_is_announced_whenever_it_changes() {
    let mut pusher = NativePusher::new();
    let large = CapturedFrame { width: 2560, ..frame(3) };
    let mut announced = Vec::new();
    let mut reused = Vec::new();
    for (i, f) in [frame(3), frame(3), large, large, frame(3), frame(4), frame(3)].iter().enumerate() {
        let plan = pusher.on_frame(f);
        if plan.announce.is_some() {
            announced.push(i);
        }
        if plan.buffer == BufferPlan::Reuse {
            reused.push(i);
        } else {
            pusher.wrap_succeeded(f.buffer_identity);
        }
    }
    assert_eq!(announced, [0, 2, 4]);
    assert_eq!(reused, [1, 3, 6]);
}

#[test]
fn two_pixel_formats_are_known() {
    assert_eq!(spa_video_format_to_gst(8), Some(PixelFormat::Bgrx));
    assert_eq!(spa_video_format_to_gst(12), Some(PixelFormat::Bgra));
    assert_eq!(spa_video_format_to_gst(0), None);
}

#[test]
fn frames_are_skipped_registered_or_encoded() {
    let mut enc = EncoderState::new(1920, 1080, VideoCodec::H264);
    assert_eq!(enc.on_frame(&CapturedFrame { is_dma_buf: false, ..frame(1) }), FrameAction::Skip);
    assert_eq!(enc.on_frame(&CapturedFrame { height: 1088, ..frame(1) }), FrameAction::Skip);
    assert_eq!(enc.on_frame(&frame(1)), FrameAction::Register);
    enc.buffer_registered(1);
    assert_eq!(enc.on_frame(&frame(1)), FrameAction::Encode);
    assert_eq!(enc.on_frame(&frame(2)), FrameAction::Register);
}

#[test]
fn places_count_from_the_last_idr() {
    let mut enc = EncoderState::new(1920, 1080, VideoCodec::Hevc);
    let mut since = 0;
    for i in 0..700u64 {
        let requested = i == 50 || i == 299;
        let periodic = enc.is_periodic();
        assert_eq!(periodic, i % GOP_LENGTH as u64 == 0);
        let p = enc.picture(requested && !periodic);
        assert_eq!(p.idr, periodic || requested);
        since = if p.idr { 0 } else { since + 1 };
        assert_eq!(p.poc, Some(since));
        assert_eq!(p.timestamp, i);
    }
    let mut h264 = EncoderState::new(1920, 1080, VideoCodec::H264);
    assert_eq!(h264.picture(false).poc, None);
}

#[test]
fn the_latest_settings_win_and_ending_comes_first() {
    let mut session = CudaDirectEncoderSession::new();
    assert_eq!(session.poll(), EncoderOutcome::Continue);
    session.reconfigure(60, 1000, VideoCodec::H264);
    session.reconfigure(30, 2000, VideoCodec::Hevc);
    match session.poll() {
        EncoderOutcome::Reconfigure(new) => assert_eq!((new.fps, new.bitrate_kbps, new.codec), (30, 2000, VideoCodec::Hevc)),
        other => panic!("{other:?}"),
    }
    assert_eq!(session.poll(), EncoderOutcome::Continue);
    session.reconfigure(60, 1000, VideoCodec::H264);
    session.end();
    assert_eq!(session.poll(), EncoderOutcome::Shutdown);
    assert_eq!(session.poll(), EncoderOutcome::Shutdown);
}

#[test]
fn a_requested_picture_comes_once() {
    let mut session = CudaDirectEncoderSession::new();
    let mut enc = EncoderState::new(1920, 1080, VideoCodec::H264);
    session.request_keyframe();
    let mut alone = Vec::new();
    for i in 0..20 {
        if i == 10 {
            session.request_keyframe();
        }
        let periodic = enc.is_periodic();
        let requested = session.wants_keyframe(periodic);
        if enc.picture(requested).idr {
            alone.push(i);
        }
    }
    assert_eq!(alone, [0, 10]);
    assert!(!session.force_keyframe);
}

#[test]
fn what_a_machine_lacks_is_reported() {
    assert_eq!(check_support(VideoCodec::Hevc, true, true), Ok(()));
    assert_eq!(check_support(VideoCodec::Hevc, false, true), Err("NVENC on this machine doesn't support Hevc".to_string()));
    assert_eq!(
        check_support(VideoCodec::H264, true, false),
        Err("NVENC doesn't support ARGB input for H264 on this machine".to_string())
    );
    assert_eq!(format!("{:?} {:?}", VideoCodec::default(), VideoCodec::Hevc), "H264 Hevc");
}

#[test]
fn plain_pictures_take_four_bytes_to_the_pixel() {
    assert_eq!(linear_size(1920, 1080), 8_294_400);
    assert_eq!(linear_pitch(1920), 7680);
    assert_eq!(bits_per_second(5000), 5_000_000);
}
