use tiny_player::media::{
    below_low_water, select_streams, MainStream, MediaType, PacketRoute, StreamInfo, TinyDecoder,
    VIDEO_FRAME_QUEUE_LOW_WATER,
};
use tiny_player::sync::{
    frame_pacing_update, should_notify_data_thread, should_video_catch_audio,
    update_current_timestamp, PacingUpdate,
};
use tiny_player::timing::Rational;

fn stream(index: usize, medium: MediaType, attached_pic: bool, num: i32, den: i32) -> StreamInfo {
    StreamInfo { index, medium, attached_pic, time_base: Rational::new(num, den) }
}

#[test]
fn select_streams_takes_last_of_each_role() {
    let streams = vec![
        stream(0, MediaType::Video, false, 1, 25),
        stream(1, MediaType::Audio, false, 1, 44100),
        stream(2, MediaType::Video, true, 1, 90000),
        stream(3, MediaType::Audio, false, 1, 48000),
        stream(4, MediaType::Other, false, 1, 1),
    ];
    let sel = select_streams(&streams);
    assert_eq!(sel.video.map(|s| s.index), Some(0));
    assert_eq!(sel.audio.map(|s| s.index), Some(3));
    assert_eq!(sel.cover.map(|s| s.index), Some(2));
    let sel = select_streams(&vec![stream(0, MediaType::Attachment, false, 1, 1)]);
    assert_eq!(sel.cover.map(|s| s.index), Some(0));
    assert!(sel.video.is_none() && sel.audio.is_none());
}

#[test]
fn decoder_state_after_opening_audio_and_video() {
    let mut d = TinyDecoder::new();
    assert_eq!(d.end_ts(), 0);
    assert_eq!(*d.main_stream(), MainStream::Audio);
    let streams = vec![
        stream(0, MediaType::Video, false, 1, 25),
        stream(1, MediaType::Audio, false, 1, 48000),
    ];
    let sel = select_streams(&streams);
    assert!(d.init_par_from_streams(&sel, 3_723_000_000));
    assert_eq!(*d.main_stream(), MainStream::Audio);
    assert_eq!(d.end_ts(), 3723 * 48000);
    assert_eq!(d.end_time_formatted_string(), "01:02:03");
    assert_eq!(*d.audio_time_base(), Rational::new(1, 48000));
    assert_eq!(*d.video_time_base(), Rational::new(1, 25));
    assert_eq!(d._video_stream_idx(), 0);
    assert_eq!(d.route_packet(1), PacketRoute::AudioQueue);
    assert_eq!(d.route_packet(0), PacketRoute::VideoQueue);
    assert_eq!(d.route_packet(7), PacketRoute::Discard);
    assert_eq!(d.seek_target(96000), Some((1, 48000, 96000, 144000)));
    assert_eq!(d.check_play_is_at_endtail(3723 * 48000 - 24000), Some(true));
    assert_eq!(d.check_play_is_at_endtail(3723 * 48000 - 24001), Some(false));
    d.set_video_frame_rect(1920, 1080);
    assert_eq!(*d.video_frame_rect(), [1920, 1080]);
    d.reset_tiny_decoder_states();
    assert_eq!(d.end_ts(), 0);
    assert_eq!(d.end_time_formatted_string(), "");
    assert_eq!(*d.video_frame_rect(), [0, 0]);
    assert_eq!(d.route_packet(1), PacketRoute::Discard);
}

#[test]
fn video_only_input_is_driven_by_video() {
    let mut d = TinyDecoder::new();
    let sel = select_streams(&vec![
        stream(0, MediaType::Video, true, 1, 90000),
        stream(1, MediaType::Video, false, 1, 1000),
    ]);
    assert!(d.init_par_from_streams(&sel, 90_000_000));
    assert_eq!(*d.main_stream(), MainStream::Video);
    assert_eq!(d.end_ts(), 90000);
    assert_eq!(d.end_time_formatted_string(), "00:01:30");
    assert_eq!(d.route_packet(0), PacketRoute::Cover);
    // A zero numerator makes the duration conversion divide by zero.
    let mut bad = TinyDecoder::new();
    let sel = select_streams(&vec![stream(0, MediaType::Audio, false, 0, 1)]);
    assert!(!bad.init_par_from_streams(&sel, 1_000_000));
    assert_eq!(bad.end_ts(), 0);
}

#[test]
fn catch_up_decisions() {
    let vtb = Rational::new(1, 1000);
    let atb = Rational::new(1, 1000);
    assert_eq!(should_video_catch_audio(MainStream::Video, Some(0), 0, vtb, atb), Some(true));
    assert_eq!(should_video_catch_audio(MainStream::Audio, None, 0, vtb, atb), Some(true));
    assert_eq!(should_video_catch_audio(MainStream::Audio, Some(2000), 0, vtb, atb), Some(true));
    assert_eq!(should_video_catch_audio(MainStream::Audio, Some(2001), 1000, vtb, atb), Some(true));
    assert_eq!(should_video_catch_audio(MainStream::Audio, Some(2000), 1000, vtb, atb), Some(false));
    assert_eq!(should_video_catch_audio(MainStream::Audio, Some(1000), 1101, vtb, atb), Some(false));
    assert_eq!(should_video_catch_audio(MainStream::Audio, Some(0), 5000, vtb, atb), Some(false));
    // Time bases in seconds: the frame at 3 s against audio at 1 s.
    let sec = Rational::new(1, 1);
    assert_eq!(should_video_catch_audio(MainStream::Audio, Some(3), 1, sec, sec), Some(true));
    assert_eq!(should_video_catch_audio(MainStream::Audio, Some(i64::MAX), 0, vtb, atb), None);
}

#[test]
fn play_position_updates() {
    assert_eq!(update_current_timestamp(MainStream::Audio, Some(7), Some(9), 1), 7);
    assert_eq!(update_current_timestamp(MainStream::Audio, None, Some(9), 1), 1);
    assert_eq!(update_current_timestamp(MainStream::Video, Some(7), Some(9), 1), 9);
    assert_eq!(update_current_timestamp(MainStream::Video, Some(7), Some(0), 1), 1);
    assert_eq!(update_current_timestamp(MainStream::Video, Some(7), None, 1), 1);
}

#[test]
fn pacing_decisions() {
    let tb = Rational::new(1, 1000);
    assert_eq!(frame_pacing_update(MainStream::Audio, true, Some(5), Some(4), tb), Some(PacingUpdate::Restart));
    assert_eq!(frame_pacing_update(MainStream::Video, false, Some(5), Some(4), tb), Some(PacingUpdate::Keep));
    assert_eq!(frame_pacing_update(MainStream::Video, true, Some(540), Some(500), tb), Some(PacingUpdate::Advance(40)));
    assert_eq!(frame_pacing_update(MainStream::Video, true, Some(2500), Some(500), tb), Some(PacingUpdate::Restart));
    assert_eq!(frame_pacing_update(MainStream::Video, true, Some(0), Some(500), tb), Some(PacingUpdate::Restart));
    assert_eq!(frame_pacing_update(MainStream::Video, true, None, Some(500), tb), Some(PacingUpdate::Keep));
    assert_eq!(
        frame_pacing_update(MainStream::Video, true, Some(400), Some(500), tb),
        Some(PacingUpdate::Advance((-100i64) as u64))
    );
}

#[test]
fn wake_up_decisions() {
    assert!(should_notify_data_thread(MainStream::Video, 100));
    assert!(should_notify_data_thread(MainStream::Audio, 9));
    assert!(!should_notify_data_thread(MainStream::Audio, 10));
    assert!(below_low_water(4, VIDEO_FRAME_QUEUE_LOW_WATER));
    assert!(!below_low_water(5, VIDEO_FRAME_QUEUE_LOW_WATER));
}

#[test]
fn reopening_takes_every_detail_from_the_new_input() {
    let mut d = TinyDecoder::new();
    // A video-only input whose later setup failed: nothing reset the decoder afterwards.
    let video_only = select_streams(&vec![stream(0, MediaType::Video, false, 1, 1000)]);
    assert!(d.init_par_from_streams(&video_only, 90_000_000));
    assert_eq!(*d.main_stream(), MainStream::Video);
    d.set_video_frame_rect(640, 480);
    // An audio-only input: audio drives the clock and the end comes from its time base.
    let audio_only = select_streams(&vec![stream(3, MediaType::Audio, false, 1, 48000)]);
    assert!(d.init_par_from_streams(&audio_only, 2_000_000));
    assert_eq!(*d.main_stream(), MainStream::Audio);
    assert_eq!(d.end_ts(), 96000);
    assert_eq!(d.end_time_formatted_string(), "00:00:02");
    assert_eq!(d._video_stream_idx(), usize::MAX);
    assert_eq!(*d.video_time_base(), Rational::new(1, 1));
    assert_eq!(*d.video_frame_rect(), [0, 0]);
    assert_eq!(d.route_packet(0), PacketRoute::Discard);
    assert_eq!(d.route_packet(3), PacketRoute::AudioQueue);
    // A failed conversion leaves no end time from the earlier input.
    let bad = select_streams(&vec![stream(0, MediaType::Audio, false, 0, 1)]);
    assert!(!d.init_par_from_streams(&bad, 1_000_000));
    assert_eq!(d.end_ts(), 0);
    assert_eq!(d.end_time_formatted_string(), "");
    // A duration beyond a day is not a time of day: no end-time text.
    assert!(d.init_par_from_streams(&audio_only, 90_000_000_000));
    assert_eq!(d.end_ts(), 90_000 * 48000);
    assert_eq!(d.end_time_formatted_string(), "");
}
