//! What the decoder knows about an opened file as plain values: which streams
//! carry the video, the audio and the cover picture, their time bases, which
//! stream drives the play clock, and the total duration; plus the decisions
//! that follow from them (packet routing, seek window, end-of-file detection).
use vstd::prelude::*;
use crate::clock::{clock_digits, clock_text, split_clock, split_clock_spec};
use crate::timing::{
    as_i64, duration_ticks_spec, duration_to_ticks, pts_to_seconds, seconds_spec,
    ticks_per_second, ticks_per_second_spec, Rational,
};
use crate::arith::{fits_i64};

verus! {

/// Which stream of the input drives the play clock.
#[derive(Debug, Clone, Copy, PartialEq, Eq, Structural)]
pub enum MainStream {
    Video,
    Audio,
}

/// The kind of data a stream carries.
#[derive(Debug, Clone, Copy, PartialEq, Eq, Structural)]
pub enum MediaType {
    Video,
    Audio,
    Attachment,
    Other,
}

/// A stream of an opened input, as far as stream selection reads it.
#[derive(Debug, Clone, Copy, PartialEq, Eq, Structural)]
pub struct StreamInfo {
    /// Position of the stream in the input.
    pub index: usize,
    pub medium: MediaType,
    /// The stream is a picture attached to the file (a cover), not moving video.
    pub attached_pic: bool,
    pub time_base: Rational,
}

/// The streams picked from an input.
#[derive(Debug, Clone, Copy, PartialEq, Eq, Structural)]
pub struct StreamSelection {
    pub cover: Option<StreamInfo>,
    pub video: Option<StreamInfo>,
    pub audio: Option<StreamInfo>,
}

/// A cover picture: a video stream flagged as an attached picture, or an attachment.
pub open spec fn is_cover(s: StreamInfo) -> bool {
    (s.medium == MediaType::Video && s.attached_pic) || s.medium == MediaType::Attachment
}

/// Moving video: a video stream that is not an attached picture.
pub open spec fn is_video(s: StreamInfo) -> bool {
    s.medium == MediaType::Video && !s.attached_pic
}

pub open spec fn is_audio(s: StreamInfo) -> bool {
    s.medium == MediaType::Audio
}

/// The last stream of `s` that satisfies `pred`.
pub open spec fn last_matching(s: Seq<StreamInfo>, pred: spec_fn(StreamInfo) -> bool) -> Option<
    StreamInfo,
>
    decreases s.len(),
{
    if s.len() == 0 {
        None
    } else if pred(s.last()) {
        Some(s.last())
    } else {
        last_matching(s.drop_last(), pred)
    }
}

/// Picks the streams to play: for each role the last stream of the input in that role.
pub fn select_streams(streams: &Vec<StreamInfo>) -> (r: StreamSelection)
    ensures
        r.cover == last_matching(streams@, |s: StreamInfo| is_cover(s)),
        r.video == last_matching(streams@, |s: StreamInfo| is_video(s)),
        r.audio == last_matching(streams@, |s: StreamInfo| is_audio(s)),
{
    let mut cover: Option<StreamInfo> = None;
    let mut video: Option<StreamInfo> = None;
    let mut audio: Option<StreamInfo> = None;
    let mut i: usize = 0;
    while i < streams.len()
        invariant
            i <= streams@.len(),
            cover == last_matching(streams@.take(i as int), |s: StreamInfo| is_cover(s)),
            video == last_matching(streams@.take(i as int), |s: StreamInfo| is_video(s)),
            audio == last_matching(streams@.take(i as int), |s: StreamInfo| is_audio(s)),
        decreases streams@.len() - i,
    {
        let item = streams[i];
        proof {
            assert(streams@.take(i + 1).drop_last() =~= streams@.take(i as int));
            assert(streams@.take(i + 1).last() == item);
        }
        match item.medium {
            MediaType::Video => {
                if item.attached_pic {
                    cover = Some(item);
                } else {
                    video = Some(item);
                }
            },
            MediaType::Audio => {
                audio = Some(item);
            },
            MediaType::Attachment => {
                cover = Some(item);
            },
            MediaType::Other => {},
        }
        i += 1;
    }
    proof {
        assert(streams@.take(streams@.len() as int) =~= streams@);
    }
    StreamSelection { cover, video, audio }
}

/// The demuxer is woken when a packet queue holds fewer packets than this.
pub const PACKET_QUEUE_LOW_WATER: usize = 10;

/// The decoder is woken when the decoded audio frame queue holds fewer frames than this.
pub const AUDIO_FRAME_QUEUE_LOW_WATER: usize = 10;

/// The decoder is woken when the decoded video frame queue holds fewer frames than this.
pub const VIDEO_FRAME_QUEUE_LOW_WATER: usize = 5;

/// Whether a queue holding `len` items has run low and its producer should be woken.
pub fn below_low_water(len: usize, low_water: usize) -> (r: bool)
    ensures
        r == (len < low_water),
{
    len < low_water
}

/// Where a demuxed packet goes, judged by the index of its stream.
#[derive(Debug, Clone, Copy, PartialEq, Eq, Structural)]
pub enum PacketRoute {
    /// Its data is the cover picture.
    Cover,
    AudioQueue,
    VideoQueue,
    Discard,
}

/// The decoder's bookkeeping for the opened input. Stream indices are `usize::MAX`
/// where the input has no such stream.
#[derive(Clone)]
pub struct TinyDecoder {
    pub video_stream_index: usize,
    pub audio_stream_index: usize,
    pub cover_stream_index: usize,
    pub main_stream: MainStream,
    pub video_time_base: Rational,
    pub audio_time_base: Rational,
    pub video_frame_rect: [u32; 2],
    /// The input's duration in microseconds.
    pub format_duration: i64,
    /// The duration in ticks of the main stream's time base.
    pub end_timestamp: i64,
    /// The duration as `HH:MM:SS`, empty until known.
    pub end_time_formatted_string: String,
}

/// The state of a decoder with no input.
pub open spec fn is_initial(d: TinyDecoder) -> bool {
    &&& d.video_stream_index == usize::MAX
    &&& d.audio_stream_index == usize::MAX
    &&& d.cover_stream_index == usize::MAX
    &&& d.main_stream == MainStream::Audio
    &&& d.video_time_base == Rational { num: 1, den: 1 }
    &&& d.audio_time_base == Rational { num: 1, den: 1 }
    &&& d.video_frame_rect@ == seq![0u32, 0u32]
    &&& d.format_duration == 0
    &&& d.end_timestamp == 0
    &&& d.end_time_formatted_string@ == Seq::<char>::empty()
}

/// The time base of the stream that drives the play clock.
pub open spec fn main_time_base(d: TinyDecoder) -> Rational {
    if d.main_stream == MainStream::Audio {
        d.audio_time_base
    } else {
        d.video_time_base
    }
}

/// The index of the stream that drives the play clock.
pub open spec fn main_stream_index(d: TinyDecoder) -> usize {
    if d.main_stream == MainStream::Audio {
        d.audio_stream_index
    } else {
        d.video_stream_index
    }
}

impl TinyDecoder {
    /// A decoder with no input.
    pub fn new() -> (r: TinyDecoder)
        ensures
            is_initial(r),
    {
        TinyDecoder {
            video_stream_index: usize::MAX,
            audio_stream_index: usize::MAX,
            cover_stream_index: usize::MAX,
            main_stream: MainStream::Audio,
            video_time_base: Rational::new(1, 1),
            audio_time_base: Rational::new(1, 1),
            video_frame_rect: [0, 0],
            format_duration: 0,
            end_timestamp: 0,
            end_time_formatted_string: String::new(),
        }
    }

    /// Forgets the input: every field back to its initial value.
    pub fn reset_tiny_decoder_states(&mut self)
        ensures
            is_initial(*final(self)),
    {
        self.audio_stream_index = usize::MAX;
        self.video_stream_index = usize::MAX;
        self.cover_stream_index = usize::MAX;
        self.main_stream = MainStream::Audio;
        self.audio_time_base = Rational::new(1, 1);
        self.end_time_formatted_string = String::new();
        self.end_timestamp = 0;
        self.format_duration = 0;
        self.video_frame_rect = [0, 0];
        self.video_time_base = Rational::new(1, 1);
    }

    /// Takes over the streams picked from a newly opened input and its duration in
    /// microseconds; every detail comes from that input alone. The cover, audio and video
    /// stream indices and time bases are those of the selection, or the initial ones
    /// (`usize::MAX`, `1/1`) where it has no such stream; the video drives the clock when
    /// there is video and no audio, the audio otherwise; the frame size is back to zero
    /// until the video decoder reports it. The duration is converted to ticks of the main
    /// stream's time base and rendered as the end-time text when it is a valid time of day.
    /// Returns `false`, with end timestamp zero and an empty end-time text, when that
    /// conversion overflows or divides by zero.
    pub fn init_par_from_streams(&mut self, selection: &StreamSelection, format_duration: i64) -> (r:
        bool)
        ensures
            final(self).cover_stream_index == match selection.cover {
                Some(s) => s.index,
                None => usize::MAX,
            },
            final(self).audio_stream_index == match selection.audio {
                Some(s) => s.index,
                None => usize::MAX,
            },
            final(self).audio_time_base == match selection.audio {
                Some(s) => s.time_base,
                None => Rational { num: 1, den: 1 },
            },
            final(self).video_stream_index == match selection.video {
                Some(s) => s.index,
                None => usize::MAX,
            },
            final(self).video_time_base == match selection.video {
                Some(s) => s.time_base,
                None => Rational { num: 1, den: 1 },
            },
            final(self).main_stream == (if selection.video is Some && selection.audio is None {
                MainStream::Video
            } else {
                MainStream::Audio
            }),
            final(self).video_frame_rect@ == seq![0u32, 0u32],
            final(self).format_duration == format_duration,
            r == (duration_ticks_spec(format_duration as int, main_time_base(*final(self))) is Some),
            final(self).end_timestamp == (if r {
                duration_ticks_spec(format_duration as int, main_time_base(*final(self)))->Some_0
            } else {
                0
            }),
            final(self).end_time_formatted_string@ == (if r && end_renderable(
                *final(self),
                final(self).end_timestamp as int,
            ) {
                clock_digits(
                    split_clock_spec(
                        seconds_spec(final(self).end_timestamp as int, main_time_base(*final(self)))->Some_0,
                    ),
                )
            } else {
                Seq::<char>::empty()
            }),
    {
        self.reset_tiny_decoder_states();
        if let Some(stream) = &selection.cover {
            self.cover_stream_index = stream.index;
        }
        if let Some(stream) = &selection.audio {
            self.audio_stream_index = stream.index;
            self.audio_time_base = stream.time_base;
        }
        if let Some(stream) = &selection.video {
            self.video_stream_index = stream.index;
            self.video_time_base = stream.time_base;
            if selection.audio.is_none() {
                self.main_stream = MainStream::Video;
            }
        }
        self.format_duration = format_duration;
        let tb = match self.main_stream {
            MainStream::Audio => self.audio_time_base,
            MainStream::Video => self.video_time_base,
        };
        match duration_to_ticks(format_duration, tb) {
            None => false,
            Some(adur_ts) => {
                self.end_timestamp = adur_ts;
                self.compute_and_set_end_time_str(adur_ts);
                true
            },
        }
    }

    /// Renders the duration `end_ts` (in ticks of the main stream's time base) as the
    /// end-time text `HH:MM:SS` when the duration, split into hours, minutes and seconds,
    /// is a valid time of day; otherwise the text stays. Nothing else changes.
    pub fn compute_and_set_end_time_str(&mut self, end_ts: i64)
        ensures
            end_text_updated(*old(self), *final(self), end_ts as int),
    {
        let tb = match self.main_stream {
            MainStream::Audio => self.audio_time_base,
            MainStream::Video => self.video_time_base,
        };
        if let Some(sec_num) = pts_to_seconds(end_ts, tb) {
            let hms = split_clock(sec_num);
            if let Some(s) = clock_text(hms.0, hms.1, hms.2) {
                self.end_time_formatted_string = s;
            }
        }
    }

    /// Records the size of the decoded video frames.
    pub fn set_video_frame_rect(&mut self, width: u32, height: u32)
        ensures
            final(self).video_frame_rect@ == seq![width, height],
            final(self).video_stream_index == old(self).video_stream_index,
            final(self).audio_stream_index == old(self).audio_stream_index,
            final(self).cover_stream_index == old(self).cover_stream_index,
            final(self).main_stream == old(self).main_stream,
            final(self).video_time_base == old(self).video_time_base,
            final(self).audio_time_base == old(self).audio_time_base,
            final(self).format_duration == old(self).format_duration,
            final(self).end_timestamp == old(self).end_timestamp,
            final(self).end_time_formatted_string == old(self).end_time_formatted_string,
    {
        self.video_frame_rect = [width, height];
        assert(self.video_frame_rect@ =~= seq![width, height]);
    }

    /// Where a packet of the stream with the given index goes: the cover stream's data is
    /// the cover picture, audio and video packets go to their queues, anything else is
    /// dropped (checked in that order).
    pub fn route_packet(&self, stream_index: usize) -> (r: PacketRoute)
        ensures
            r == (if stream_index == self.cover_stream_index {
                PacketRoute::Cover
            } else if stream_index == self.audio_stream_index {
                PacketRoute::AudioQueue
            } else if stream_index == self.video_stream_index {
                PacketRoute::VideoQueue
            } else {
                PacketRoute::Discard
            }),
    {
        if stream_index == self.cover_stream_index {
            PacketRoute::Cover
        } else if stream_index == self.audio_stream_index {
            PacketRoute::AudioQueue
        } else if stream_index == self.video_stream_index {
            PacketRoute::VideoQueue
        } else {
            PacketRoute::Discard
        }
    }

    /// The seek request for timestamp `ts` on the main stream: the stream index and the
    /// accepted window `(ts - one second, ts, ts + one second)` in that stream's ticks.
    /// `None` when the arithmetic overflows or the time base has a zero numerator.
    pub fn seek_target(&self, ts: i64) -> (r: Option<(usize, i64, i64, i64)>)
        ensures
            r == (match ticks_per_second_spec(main_time_base(*self)) {
                Some(t) => if fits_i64(ts - t) && fits_i64(ts + t) {
                    Some((main_stream_index(*self), (ts - t) as i64, ts, (ts + t) as i64))
                } else {
                    None
                },
                None => None,
            }),
    {
        let (idx, tb) = match self.main_stream {
            MainStream::Audio => (self.audio_stream_index, self.audio_time_base),
            MainStream::Video => (self.video_stream_index, self.video_time_base),
        };
        match ticks_per_second(tb) {
            None => None,
            Some(t) => {
                let lo = ts as i128 - t as i128;
                let hi = ts as i128 + t as i128;
                if lo < i64::MIN as i128 || hi > i64::MAX as i128 || lo > i64::MAX as i128 || hi
                    < i64::MIN as i128 {
                    None
                } else {
                    Some((idx, lo as i64, ts, hi as i64))
                }
            },
        }
    }

    /// Whether the play position `pts` has reached the end: within half a second of the
    /// end timestamp (`pts + den / num / 2 >= end`). `None` when the arithmetic overflows
    /// or the time base has a zero numerator.
    pub fn check_play_is_at_endtail(&self, pts: i64) -> (r: Option<bool>)
        ensures
            r == (match ticks_per_second_spec(main_time_base(*self)) {
                Some(t) => if fits_i64(pts + crate::arith::div_trunc(t, 2)) {
                    Some(pts + crate::arith::div_trunc(t, 2) >= self.end_timestamp)
                } else {
                    None
                },
                None => None,
            }),
    {
        let tb = match self.main_stream {
            MainStream::Audio => self.audio_time_base,
            MainStream::Video => self.video_time_base,
        };
        match ticks_per_second(tb) {
            None => None,
            Some(t) => {
                proof {
                    crate::arith::lemma_div_trunc_fits(t as int, 2);
                }
                let half = match crate::arith::div_checked(t, 2) {
                    Some(h) => h,
                    None => 0,
                };
                let sum = pts as i128 + half as i128;
                if sum < i64::MIN as i128 || sum > i64::MAX as i128 {
                    None
                } else {
                    Some(sum >= self.end_timestamp as i128)
                }
            },
        }
    }

    pub fn video_time_base(&self) -> (r: &Rational)
        ensures
            *r == self.video_time_base,
    {
        &self.video_time_base
    }

    pub fn audio_time_base(&self) -> (r: &Rational)
        ensures
            *r == self.audio_time_base,
    {
        &self.audio_time_base
    }

    pub fn end_time_formatted_string(&self) -> (r: &String)
        ensures
            *r == self.end_time_formatted_string,
    {
        &self.end_time_formatted_string
    }

    pub fn video_frame_rect(&self) -> (r: &[u32; 2])
        ensures
            *r == self.video_frame_rect,
    {
        &self.video_frame_rect
    }

    pub fn end_ts(&self) -> (r: i64)
        ensures
            r == self.end_timestamp,
    {
        self.end_timestamp
    }

    pub fn main_stream(&self) -> (r: &MainStream)
        ensures
            *r == self.main_stream,
    {
        &self.main_stream
    }

    pub fn _video_stream_idx(&self) -> (r: usize)
        ensures
            r == self.video_stream_index,
    {
        self.video_stream_index
    }
}

/// `after` is `before` with at most the end-time text changed: when the duration `end_ts`
/// of the main stream splits into a valid time of day, the text is that time as
/// `HH:MM:SS`; otherwise it stays.
pub open spec fn end_text_updated(before: TinyDecoder, after: TinyDecoder, end_ts: int) -> bool {
    &&& after.video_stream_index == before.video_stream_index
    &&& after.audio_stream_index == before.audio_stream_index
    &&& after.cover_stream_index == before.cover_stream_index
    &&& after.main_stream == before.main_stream
    &&& after.video_time_base == before.video_time_base
    &&& after.audio_time_base == before.audio_time_base
    &&& after.video_frame_rect == before.video_frame_rect
    &&& after.format_duration == before.format_duration
    &&& after.end_timestamp == before.end_timestamp
    &&& if end_renderable(before, end_ts) {
        after.end_time_formatted_string@ == clock_digits(
            split_clock_spec(seconds_spec(end_ts, main_time_base(before))->Some_0),
        )
    } else {
        after.end_time_formatted_string == before.end_time_formatted_string
    }
}

/// The duration `end_ts`, in ticks of the main stream's time base, converts to seconds
/// and splits into a valid time of day.
pub open spec fn end_renderable(d: TinyDecoder, end_ts: int) -> bool {
    &&& seconds_spec(end_ts, main_time_base(d)) is Some
    &&& ({
        let hms = split_clock_spec(seconds_spec(end_ts, main_time_base(d))->Some_0);
        hms.0 < 24 && hms.1 < 60 && hms.2 < 60
    })
}

} // verus!
