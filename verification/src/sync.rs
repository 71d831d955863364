//! Decisions of the presentation loop that keeps video in step with audio:
//! whether to pull a new video frame, how the play clock advances, and how
//! the frame pacing clock moves.
use vstd::prelude::*;
use crate::arith::{div_trunc, fits_i64, lemma_div_trunc_same_ratio};
use crate::media::MainStream;
use crate::timing::{as_i64, lemma_millis_value, millis_spec, pts_to_millis, Rational};

verus! {

/// Whether the shown video frame must be replaced: always when video drives the clock or
/// no frame is shown yet; otherwise when the shown frame's time minus the audio clock's
/// time is more than one second. `None` when the millisecond arithmetic overflows or
/// divides by zero.
pub open spec fn catch_up_spec(
    main: MainStream,
    video_pts: Option<i64>,
    main_ts: i64,
    video_tb: Rational,
    audio_tb: Rational,
) -> Option<bool> {
    if main == MainStream::Video {
        Some(true)
    } else {
        match video_pts {
            None => Some(true),
            Some(f) => match (millis_spec(f as int, video_tb), millis_spec(main_ts as int, audio_tb)) {
                (Some(v), Some(a)) => if fits_i64(v - a) {
                    Some(v - a > 1000)
                } else {
                    None
                },
                _ => None,
            },
        }
    }
}

/// A timestamp of `tb` in milliseconds: `ts * 1000 * num / den`, rounded toward zero.
pub open spec fn frame_millis(ts: i64, tb: Rational) -> int {
    div_trunc(ts * 1000 * tb.num, tb.den as int)
}

/// Timestamp `v` of time base `vtb` and timestamp `a` of time base `atb` are the same instant
/// in seconds: `v * vnum / vden == a * anum / aden`.
pub open spec fn same_instant(v: i64, vtb: Rational, a: i64, atb: Rational) -> bool {
    v * vtb.num * atb.den == a * atb.num * vtb.den
}

/// With audio driving the clock and a frame on screen, a computed decision compares the
/// frame's time (its pts in the video time base) with the audio clock's time (in the audio
/// time base), in milliseconds: catch up exactly when the frame is more than a second
/// ahead. So a frame at the same instant as the audio clock never asks for a catch-up.
pub proof fn lemma_catch_up_compares_stream_times(
    main: MainStream,
    video_pts: Option<i64>,
    main_ts: i64,
    video_tb: Rational,
    audio_tb: Rational,
)
    ensures
        main == MainStream::Video ==> catch_up_spec(main, video_pts, main_ts, video_tb, audio_tb)
            == Some(true),
        main == MainStream::Audio && video_pts is None ==> catch_up_spec(
            main,
            video_pts,
            main_ts,
            video_tb,
            audio_tb,
        ) == Some(true),
        main == MainStream::Audio && catch_up_spec(main, video_pts, main_ts, video_tb, audio_tb) is Some
            ==> (video_pts matches Some(f) ==> catch_up_spec(main, video_pts, main_ts, video_tb, audio_tb)
            == Some(frame_millis(f, video_tb) - frame_millis(main_ts, audio_tb) > 1000)),
        main == MainStream::Audio && catch_up_spec(main, video_pts, main_ts, video_tb, audio_tb) is Some
            ==> (video_pts matches Some(f) ==> (same_instant(f, video_tb, main_ts, audio_tb)
            ==> catch_up_spec(main, video_pts, main_ts, video_tb, audio_tb) == Some(false))),
{
    if let Some(f) = video_pts {
        lemma_millis_value(f as int, video_tb);
        lemma_millis_value(main_ts as int, audio_tb);
        if main == MainStream::Audio && catch_up_spec(main, video_pts, main_ts, video_tb, audio_tb) is Some
            && same_instant(f, video_tb, main_ts, audio_tb) {
            let p = f * 1000 * video_tb.num;
            let p2 = main_ts * 1000 * audio_tb.num;
            assert(p * audio_tb.den == p2 * video_tb.den) by (nonlinear_arith)
                requires
                    p == f * 1000 * video_tb.num,
                    p2 == main_ts * 1000 * audio_tb.num,
                    f * video_tb.num * audio_tb.den == main_ts * audio_tb.num * video_tb.den,
            ;
            lemma_div_trunc_same_ratio(p, video_tb.den as int, p2, audio_tb.den as int);
        }
    }
}

/// Decides whether the video frame on screen (with timestamp `video_pts`, if any) must be
/// replaced by the next decoded one, given the main stream and its current timestamp.
pub fn should_video_catch_audio(
    main: MainStream,
    video_pts: Option<i64>,
    main_ts: i64,
    video_tb: Rational,
    audio_tb: Rational,
) -> (r: Option<bool>)
    ensures
        r == catch_up_spec(main, video_pts, main_ts, video_tb, audio_tb),
        main == MainStream::Video ==> r == Some(true),
        main == MainStream::Audio && video_pts is None ==> r == Some(true),
        main == MainStream::Audio && r is Some ==> (video_pts matches Some(f) ==> r == Some(
            frame_millis(f, video_tb) - frame_millis(main_ts, audio_tb) > 1000,
        )),
        main == MainStream::Audio && r is Some ==> (video_pts matches Some(f) ==> (same_instant(
            f,
            video_tb,
            main_ts,
            audio_tb,
        ) ==> r == Some(false))),
{
    proof {
        lemma_catch_up_compares_stream_times(main, video_pts, main_ts, video_tb, audio_tb);
    }
    if let MainStream::Video = main {
        return Some(true);
    }
    match video_pts {
        None => Some(true),
        Some(f_ts) => {
            let v_time = pts_to_millis(f_ts, video_tb);
            let a_time = pts_to_millis(main_ts, audio_tb);
            match (v_time, a_time) {
                (Some(v), Some(a)) => {
                    let dur: i128 = v as i128 - a as i128;
                    if dur < i64::MIN as i128 || dur > i64::MAX as i128 {
                        None
                    } else {
                        Some(dur > 1000)
                    }
                },
                _ => None,
            }
        },
    }
}

/// The new play position: the pts of the audio frame just played when audio drives the
/// clock, the pts of the frame on screen when video does (only a positive one); otherwise
/// the position stays.
pub fn update_current_timestamp(
    main: MainStream,
    audio_pts: Option<i64>,
    video_pts: Option<i64>,
    current: i64,
) -> (r: i64)
    ensures
        r == (match main {
            MainStream::Audio => match audio_pts {
                Some(p) => p,
                None => current,
            },
            MainStream::Video => match video_pts {
                Some(p) => if p > 0 {
                    p
                } else {
                    current
                },
                None => current,
            },
        }),
{
    match main {
        MainStream::Audio => match audio_pts {
            Some(p) => p,
            None => current,
        },
        MainStream::Video => match video_pts {
            Some(p) => {
                if p > 0 {
                    p
                } else {
                    current
                }
            },
            None => current,
        },
    }
}

/// How the frame pacing clock moves when a new video frame replaces the shown one.
#[derive(Debug, Clone, Copy, PartialEq, Eq, Structural)]
pub enum PacingUpdate {
    /// Move the pacing instant forward by this many milliseconds.
    Advance(u64),
    /// Set the pacing instant to now.
    Restart,
    /// Leave it.
    Keep,
}

/// The pacing decision for a new frame with timestamp `new_pts` replacing a shown frame
/// with timestamp `cur_pts`. When video drives the clock and time has passed since the
/// pacing instant: if both timestamps are positive and their distance in milliseconds is
/// below a second, advance by that distance (negative distances wrap as `u64` does);
/// otherwise restart. When audio drives the clock, restart. `None` when the millisecond
/// arithmetic overflows or divides by zero.
pub open spec fn pacing_spec(
    main: MainStream,
    elapsed: bool,
    new_pts: Option<i64>,
    cur_pts: Option<i64>,
    video_tb: Rational,
) -> Option<PacingUpdate> {
    if main == MainStream::Audio {
        Some(PacingUpdate::Restart)
    } else if !elapsed {
        Some(PacingUpdate::Keep)
    } else {
        match (new_pts, cur_pts) {
            (Some(f), Some(c)) => if f > 0 && c > 0 {
                match millis_spec(f - c, video_tb) {
                    Some(d) => if d < 1000 {
                        Some(PacingUpdate::Advance(d as u64))
                    } else {
                        Some(PacingUpdate::Restart)
                    },
                    None => None,
                }
            } else {
                Some(PacingUpdate::Restart)
            },
            _ => Some(PacingUpdate::Keep),
        }
    }
}

/// Decides how the frame pacing clock moves (see `pacing_spec`).
pub fn frame_pacing_update(
    main: MainStream,
    elapsed: bool,
    new_pts: Option<i64>,
    cur_pts: Option<i64>,
    video_tb: Rational,
) -> (r: Option<PacingUpdate>)
    ensures
        r == pacing_spec(main, elapsed, new_pts, cur_pts, video_tb),
{
    if let MainStream::Audio = main {
        return Some(PacingUpdate::Restart);
    }
    if !elapsed {
        return Some(PacingUpdate::Keep);
    }
    match (new_pts, cur_pts) {
        (Some(f_pts), Some(cur_pts)) => {
            if f_pts > 0 && cur_pts > 0 {
                match pts_to_millis(f_pts - cur_pts, video_tb) {
                    Some(d) => {
                        if d < 1000 {
                            Some(PacingUpdate::Advance(d as u64))
                        } else {
                            Some(PacingUpdate::Restart)
                        }
                    },
                    None => None,
                }
            } else {
                Some(PacingUpdate::Restart)
            }
        },
        _ => Some(PacingUpdate::Keep),
    }
}

/// Whether the presentation loop should be woken: always when video drives the clock,
/// and when fewer than ten sounds are queued for playback when audio does.
pub fn should_notify_data_thread(main: MainStream, queued_sounds: usize) -> (r: bool)
    ensures
        r == (main == MainStream::Video || queued_sounds < 10),
{
    match main {
        MainStream::Video => true,
        MainStream::Audio => queued_sounds < 10,
    }
}

} // verus!
