//! The bookkeeping of live subtitle recognition: which language model is
//! selected, the prompt the recogniser's decoder starts from, when decoding
//! stops, and how the streaming mel-spectrogram front end frames incoming
//! audio into fixed-size batches for the encoder.
use vstd::prelude::*;

verus! {

/// The language of the live subtitles, or none.
#[derive(Debug, Clone, Copy, PartialEq, Eq, Structural)]
pub enum UsedModel {
    Empty,
    Chinese,
    English,
}

/// Token ids of the recogniser's vocabulary that the decoder uses.
#[derive(Debug, Clone, Copy, PartialEq, Eq, Structural)]
pub struct TokenIds {
    pub sot_id: u32,
    pub zh_language_id: u32,
    pub en_language_id: u32,
    pub transcribe_id: u32,
    pub no_timestamp_id: u32,
    pub eot_id: u32,
    pub no_speech_id: u32,
}

/// The vocabulary id of the Chinese language token.
pub const ZH_LANGUAGE_ID: u32 = 50260;

/// The vocabulary id of the English language token.
pub const EN_LANGUAGE_ID: u32 = 50259;

/// At most this many decoding steps are run for one batch, and decoding stops once the
/// token list grows beyond it.
pub const MAX_DECODE_TOKENS: usize = 56;

impl TokenIds {
    /// The ids looked up in the tokenizer, with the fixed language ids.
    pub fn new(sot_id: u32, transcribe_id: u32, no_timestamp_id: u32, eot_id: u32, no_speech_id: u32) -> (r:
        TokenIds)
        ensures
            r == (TokenIds {
                sot_id,
                zh_language_id: ZH_LANGUAGE_ID,
                en_language_id: EN_LANGUAGE_ID,
                transcribe_id,
                no_timestamp_id,
                eot_id,
                no_speech_id,
            }),
    {
        TokenIds {
            sot_id,
            zh_language_id: ZH_LANGUAGE_ID,
            en_language_id: EN_LANGUAGE_ID,
            transcribe_id,
            no_timestamp_id,
            eot_id,
            no_speech_id,
        }
    }
}

/// Whether audio is handed to the recogniser at all.
pub fn transcription_enabled(model: UsedModel) -> (r: bool)
    ensures
        r == (model != UsedModel::Empty),
{
    !matches!(model, UsedModel::Empty)
}

/// The tokens decoding starts from: start-of-transcript, the language, transcribe, and
/// no-timestamps. `None` when no model is selected.
pub fn prompt_tokens(ids: &TokenIds, model: UsedModel) -> (r: Option<Vec<u32>>)
    ensures
        match model {
            UsedModel::Empty => r is None,
            UsedModel::Chinese => r matches Some(v) && v@ == seq![
                ids.sot_id,
                ids.zh_language_id,
                ids.transcribe_id,
                ids.no_timestamp_id,
            ],
            UsedModel::English => r matches Some(v) && v@ == seq![
                ids.sot_id,
                ids.en_language_id,
                ids.transcribe_id,
                ids.no_timestamp_id,
            ],
        },
{
    let language = match model {
        UsedModel::Empty => {
            return None;
        },
        UsedModel::Chinese => ids.zh_language_id,
        UsedModel::English => ids.en_language_id,
    };
    let mut tokens: Vec<u32> = Vec::new();
    tokens.push(ids.sot_id);
    tokens.push(language);
    tokens.push(ids.transcribe_id);
    tokens.push(ids.no_timestamp_id);
    assert(tokens@ =~= seq![ids.sot_id, language, ids.transcribe_id, ids.no_timestamp_id]);
    Some(tokens)
}

/// Appends the token the decoder picked and says whether decoding is finished: when the
/// token is end-of-transcript or the list has grown beyond `MAX_DECODE_TOKENS`.
pub fn push_decoded_token(tokens: &mut Vec<u32>, next_token: u32, eot_id: u32) -> (stop: bool)
    requires
        old(tokens)@.len() < usize::MAX,
    ensures
        final(tokens)@ == old(tokens)@.push(next_token),
        stop == (next_token == eot_id || final(tokens)@.len() > MAX_DECODE_TOKENS),
{
    tokens.push(next_token);
    next_token == eot_id || tokens.len() > MAX_DECODE_TOKENS
}

/// Samples in one analysis window.
pub const N_FFT: usize = 400;

/// Samples between the starts of consecutive windows.
pub const HOP_LENGTH: usize = 160;

/// The encoder's input length in mel frames; batches are padded or cut to it.
pub const MAX_MEL_FRAMES: usize = 3000;

/// Fewer buffered mel frames than this are not worth a batch.
pub const MIN_MEL_FRAMES: usize = 200;

/// What to do with the audio buffered so far after a chunk arrived.
#[derive(Debug, Clone, Copy, PartialEq, Eq, Structural)]
pub struct ChunkPlan {
    /// Number of analysis windows to compute; window `i` covers the buffered samples
    /// `i * HOP_LENGTH .. i * HOP_LENGTH + N_FFT`.
    pub frames: usize,
    /// Samples to drop from the front of the sample buffer afterwards.
    pub consumed_samples: usize,
    /// Oldest mel frames to drop so that at most `MAX_MEL_FRAMES` are kept.
    pub dropped_mel_frames: usize,
    /// When a batch is ready: the number of padding frames (of value -1) to append to all
    /// the buffered mel frames, which are then handed over and cleared.
    pub batch_padding: Option<usize>,
}

/// One chunk of `new_samples` samples arriving at a front end that holds `pending` samples
/// and `held_frames` mel frames, planned as `r`, leaving `after_pending` samples and
/// `after_frames` mel frames. `None` when fewer than `N_FFT` samples are then buffered: the
/// chunk is only kept. Otherwise every full window starting at a multiple of `HOP_LENGTH`
/// is analysed, the samples before the first unused window start are dropped, the new mel
/// frames are buffered (keeping the newest `MAX_MEL_FRAMES`), and once at least
/// `MIN_MEL_FRAMES` are buffered they form a batch padded to `MAX_MEL_FRAMES`.
pub open spec fn chunk_planned(
    pending: int,
    held_frames: int,
    new_samples: int,
    r: Option<ChunkPlan>,
    after_pending: int,
    after_frames: int,
) -> bool {
    let total = pending + new_samples;
    if total < N_FFT {
        &&& r is None
        &&& after_pending == total
        &&& after_frames == held_frames
    } else {
        let frames = (total - N_FFT) / (HOP_LENGTH as int) + 1;
        let held = held_frames + frames;
        let kept = if held > MAX_MEL_FRAMES { MAX_MEL_FRAMES as int } else { held };
        &&& r matches Some(p)
        &&& p.frames == frames
        &&& p.consumed_samples == frames * HOP_LENGTH
        &&& p.dropped_mel_frames == held - kept
        &&& after_pending == total - frames * HOP_LENGTH
        &&& if kept < MIN_MEL_FRAMES {
            &&& p.batch_padding is None
            &&& after_frames == kept
        } else {
            &&& p.batch_padding == Some((MAX_MEL_FRAMES - kept) as usize)
            &&& after_frames == 0
        }
    }
}

/// What a planned chunk analyses and drops: exactly the windows that fit in the buffered
/// samples (window `k` covers `k * HOP_LENGTH .. k * HOP_LENGTH + N_FFT`), and exactly the
/// samples before the first window not analysed, which are the samples no longer held.
pub proof fn lemma_chunk_windows(pending: int, held_frames: int, new_samples: int)
    requires
        pending >= 0,
        new_samples >= 0,
    ensures
        forall|r: Option<ChunkPlan>, after_pending: int, after_frames: int|
            #[trigger] chunk_planned(pending, held_frames, new_samples, r, after_pending, after_frames) ==> {
                &&& (r is None <==> pending + new_samples < N_FFT)
                &&& (r is None ==> after_pending == pending + new_samples)
                &&& (r matches Some(p) ==> {
                    &&& p.consumed_samples == pending + new_samples - after_pending
                    &&& p.consumed_samples == p.frames * HOP_LENGTH
                    &&& p.frames >= 1
                    &&& (p.frames - 1) * HOP_LENGTH + N_FFT <= pending + new_samples
                    &&& p.frames * HOP_LENGTH + N_FFT > pending + new_samples
                })
            },
{
    let total = pending + new_samples;
    if total >= 400 {
        let f = (total - 400) / 160 + 1;
        assert(f >= 1 && (f - 1) * 160 + 400 <= total && f * 160 + 400 > total) by (nonlinear_arith)
            requires
                total >= 400,
                f == (total - 400) / 160 + 1,
        ;
    }
}

/// The counts of samples and mel frames held by the streaming mel front end.
pub struct MelFraming {
    pending_samples: usize,
    mel_frames: usize,
}

impl MelFraming {
    /// Between chunks fewer than one window of samples and fewer than a batch's worth of
    /// mel frames are held.
    #[verifier::type_invariant]
    spec fn held_below_thresholds(self) -> bool {
        self.pending_samples < N_FFT && self.mel_frames < MIN_MEL_FRAMES
    }

    /// Samples waiting for a full window.
    pub closed spec fn pending(self) -> nat {
        self.pending_samples as nat
    }

    /// Mel frames waiting for a batch.
    pub closed spec fn buffered_frames(self) -> nat {
        self.mel_frames as nat
    }

    /// The number of samples waiting for a full window.
    pub fn held_samples(&self) -> (r: usize)
        ensures
            r == self.pending(),
    {
        self.pending_samples
    }

    /// Nothing held.
    pub fn new() -> (r: MelFraming)
        ensures
            r.pending() == 0,
            r.buffered_frames() == 0,
    {
        MelFraming { pending_samples: 0, mel_frames: 0 }
    }

    /// Plans the processing of a chunk of `new_samples` samples appended to the buffered
    /// ones. `None` when fewer than `N_FFT` samples are buffered: the chunk is only kept.
    /// Otherwise every full window starting at a multiple of `HOP_LENGTH` is analysed, the
    /// samples before the first unused window start are dropped, the new mel frames are
    /// buffered (keeping the newest `MAX_MEL_FRAMES`), and once at least `MIN_MEL_FRAMES`
    /// are buffered they form a batch padded to `MAX_MEL_FRAMES`.
    pub fn plan_chunk(&mut self, new_samples: usize) -> (r: Option<ChunkPlan>)
        requires
            old(self).pending() + new_samples <= usize::MAX,
        ensures
            chunk_planned(
                old(self).pending() as int,
                old(self).buffered_frames() as int,
                new_samples as int,
                r,
                final(self).pending() as int,
                final(self).buffered_frames() as int,
            ),
            r matches Some(p) ==> p.consumed_samples == old(self).pending() + new_samples
                - final(self).pending(),
            r matches Some(p) ==> p.consumed_samples == p.frames * HOP_LENGTH,
            r matches Some(p) ==> p.frames >= 1 && (p.frames - 1) * HOP_LENGTH + N_FFT
                <= old(self).pending() + new_samples,
            r matches Some(p) ==> p.frames * HOP_LENGTH + N_FFT > old(self).pending() + new_samples,
            r is None <==> old(self).pending() + new_samples < N_FFT,
            r is None ==> final(self).pending() == old(self).pending() + new_samples,
    {
        proof {
            use_type_invariant(&*self);
            lemma_chunk_windows(
                old(self).pending() as int,
                old(self).buffered_frames() as int,
                new_samples as int,
            );
        }
        let total = self.pending_samples + new_samples;
        if total < N_FFT {
            self.pending_samples = total;
            return None;
        }
        let frames = (total - N_FFT) / HOP_LENGTH + 1;
        proof {
            assert(frames * 160 <= total) by (nonlinear_arith)
                requires
                    frames == (total - 400) / 160 + 1,
                    total >= 400,
            ;
            assert(total - frames * 160 < 400) by (nonlinear_arith)
                requires
                    frames == (total - 400) / 160 + 1,
                    total >= 400,
            ;
        }
        let consumed = frames * HOP_LENGTH;
        let held = self.mel_frames + frames;
        let kept = if held > MAX_MEL_FRAMES {
            MAX_MEL_FRAMES
        } else {
            held
        };
        let remaining = total - consumed;
        if kept < MIN_MEL_FRAMES {
            *self = MelFraming { pending_samples: remaining, mel_frames: kept };
            Some(
                ChunkPlan {
                    frames,
                    consumed_samples: consumed,
                    dropped_mel_frames: held - kept,
                    batch_padding: None,
                },
            )
        } else {
            *self = MelFraming { pending_samples: remaining, mel_frames: 0 };
            Some(
                ChunkPlan {
                    frames,
                    consumed_samples: consumed,
                    dropped_mel_frames: held - kept,
                    batch_padding: Some(MAX_MEL_FRAMES - kept),
                },
            )
        }
    }
}

/// Every batch handed to the encoder is exactly `MAX_MEL_FRAMES` frames long: the frames
/// kept plus the padding make `MAX_MEL_FRAMES`, and at least `MIN_MEL_FRAMES` of them are
/// real frames.
pub proof fn lemma_batches_have_encoder_length(before: MelFraming, new_samples: nat, plan: ChunkPlan)
    requires
        before.pending() + new_samples >= N_FFT,
        ({
            let total = before.pending() + new_samples;
            let frames = (total - N_FFT) / (HOP_LENGTH as int) + 1;
            let held = before.buffered_frames() + frames;
            let kept = if held > MAX_MEL_FRAMES { MAX_MEL_FRAMES as int } else { held };
            &&& kept >= MIN_MEL_FRAMES
            &&& plan.batch_padding == Some((MAX_MEL_FRAMES - kept) as usize)
        }),
    ensures
        ({
            let total = before.pending() + new_samples;
            let frames = (total - N_FFT) / (HOP_LENGTH as int) + 1;
            let held = before.buffered_frames() + frames;
            let kept = if held > MAX_MEL_FRAMES { MAX_MEL_FRAMES as int } else { held };
            &&& kept + plan.batch_padding->Some_0 == MAX_MEL_FRAMES
            &&& MIN_MEL_FRAMES <= kept <= MAX_MEL_FRAMES
        }),
{
}

} // verus!

verus! {

/// Mel frames the analysis has produced once `total` samples have arrived in all: one per
/// full window starting at a multiple of `HOP_LENGTH`.
pub open spec fn windows_in(total: int) -> int {
    if total >= N_FFT {
        (total - N_FFT) / (HOP_LENGTH as int) + 1
    } else {
        0
    }
}

/// A batch is handed to the encoder.
pub open spec fn is_batch(r: Option<ChunkPlan>) -> bool {
    r matches Some(p) && p.batch_padding is Some
}

/// What the front end holds after `total` samples in all, the last batch having been formed
/// when `last_batch` samples had arrived (zero if none was): the samples not yet passed by
/// a window start, and the mel frames produced since that batch (fewer than a batch's worth).
pub open spec fn holds_after(pending: int, held_frames: int, total: int, last_batch: int) -> bool {
    &&& 0 <= last_batch <= total
    &&& pending == total - HOP_LENGTH * windows_in(total)
    &&& held_frames == windows_in(total) - windows_in(last_batch)
    &&& held_frames < MIN_MEL_FRAMES
}

/// The number of samples in the first `i` chunks.
pub open spec fn running_total(chunks: Seq<nat>, i: int) -> int
    decreases i,
{
    if i <= 0 || i > chunks.len() {
        0
    } else {
        running_total(chunks, i - 1) + chunks[i - 1]
    }
}

/// The running total at the last of the first `i` calls that handed over a batch (zero if
/// none did), when a call hands over a batch exactly when at least `MIN_MEL_FRAMES` windows
/// have been passed since the last batch.
pub open spec fn last_batch_total(chunks: Seq<nat>, i: int) -> int
    decreases i,
{
    if i <= 0 || i > chunks.len() {
        0
    } else {
        let prev = last_batch_total(chunks, i - 1);
        let now = running_total(chunks, i);
        if windows_in(now) - windows_in(prev) >= MIN_MEL_FRAMES {
            now
        } else {
            prev
        }
    }
}

/// Whether call `i` (counting from zero) of a fresh front end fed `chunks` hands over a
/// batch: when the windows passed since the last batch reach `MIN_MEL_FRAMES`.
pub open spec fn batch_expected(chunks: Seq<nat>, i: int) -> bool {
    windows_in(running_total(chunks, i + 1)) - windows_in(last_batch_total(chunks, i))
        >= MIN_MEL_FRAMES
}

/// Division by `HOP_LENGTH` of a multiple of it plus a remainder.
proof fn lemma_div_hop_shift(q: int, x: int)
    requires
        q >= 0,
        x >= 0,
    ensures
        (160 * q + x) / 160 == q + x / 160,
{
    assert((160 * q + x) / 160 == q + x / 160) by (nonlinear_arith)
        requires
            q >= 0,
            x >= 0,
    ;
}

/// How the windows passed grow when `n` more samples arrive after `total`, in terms of the
/// samples held (`total` minus the window starts passed).
proof fn lemma_windows_step(total: int, n: int)
    requires
        total >= 0,
        n >= 0,
    ensures
        total < N_FFT ==> total - HOP_LENGTH * windows_in(total) == total,
        total >= N_FFT ==> 240 <= total - HOP_LENGTH * windows_in(total) < N_FFT,
        ({
            let t = total - HOP_LENGTH * windows_in(total) + n;
            windows_in(total + n) == windows_in(total) + (if t >= N_FFT {
                (t - N_FFT) / (HOP_LENGTH as int) + 1
            } else {
                0
            })
        }),
{
    if total >= 400 {
        let q = (total - 400) / 160;
        let r = (total - 400) % 160;
        assert(total - 400 == 160 * q + r && 0 <= r < 160 && q >= 0) by (nonlinear_arith)
            requires
                total >= 400,
                q == (total - 400) / 160,
                r == (total - 400) % 160,
        ;
        assert(windows_in(total) == q + 1);
        lemma_div_hop_shift(q, r + n);
        assert(windows_in(total + n) == q + 1 + (r + n) / 160);
        let t = 240 + r + n;
        if t >= 400 {
            lemma_div_hop_shift(1, r + n - 160);
            assert((t - 400) / 160 + 1 == (r + n) / 160);
        } else {
            assert((r + n) / 160 == 0);
        }
    }
}

/// One call keeps what is held a function of the running total and the total at the last
/// batch, and hands over a batch exactly when the windows passed since the last batch reach
/// `MIN_MEL_FRAMES`.
pub proof fn lemma_chunk_follows_running_total(
    pending: int,
    held_frames: int,
    total: int,
    last_batch: int,
    new_samples: int,
    r: Option<ChunkPlan>,
    after_pending: int,
    after_frames: int,
)
    requires
        holds_after(pending, held_frames, total, last_batch),
        new_samples >= 0,
        chunk_planned(pending, held_frames, new_samples, r, after_pending, after_frames),
    ensures
        is_batch(r) <==> windows_in(total + new_samples) - windows_in(last_batch) >= MIN_MEL_FRAMES,
        holds_after(
            after_pending,
            after_frames,
            total + new_samples,
            if is_batch(r) { total + new_samples } else { last_batch },
        ),
        r matches Some(p) ==> p.frames == windows_in(total + new_samples) - windows_in(total),
{
    lemma_windows_step(total, new_samples);
    lemma_windows_step(last_batch, total - last_batch);
}

/// Feeding a fresh front end the chunks `chunks`, whether and when a batch comes depends only
/// on the running sample total, not on how the samples are split into chunks: call `i`
/// hands over a batch exactly when the windows passed since the last batch reach
/// `MIN_MEL_FRAMES` (`batch_expected`). `states` are the counts held before each call and
/// after the last, `plans` what each call returned.
pub proof fn lemma_batches_depend_on_running_total(
    chunks: Seq<nat>,
    pending: Seq<int>,
    held_frames: Seq<int>,
    plans: Seq<Option<ChunkPlan>>,
)
    requires
        pending.len() == chunks.len() + 1,
        held_frames.len() == chunks.len() + 1,
        plans.len() == chunks.len(),
        pending[0] == 0,
        held_frames[0] == 0,
        forall|i: int|
            0 <= i < chunks.len() ==> #[trigger] chunk_planned(
                pending[i],
                held_frames[i],
                chunks[i] as int,
                plans[i],
                pending[i + 1],
                held_frames[i + 1],
            ),
    ensures
        forall|i: int| 0 <= i < chunks.len() ==> (is_batch(#[trigger] plans[i]) <==> batch_expected(chunks, i)),
{
    lemma_run_prefix(chunks, pending, held_frames, plans, chunks.len() as int);
}

/// The first `k` calls hold what `holds_after` says and batch as `batch_expected` says.
proof fn lemma_run_prefix(
    chunks: Seq<nat>,
    pending: Seq<int>,
    held_frames: Seq<int>,
    plans: Seq<Option<ChunkPlan>>,
    k: int,
)
    requires
        0 <= k <= chunks.len(),
        pending.len() == chunks.len() + 1,
        held_frames.len() == chunks.len() + 1,
        plans.len() == chunks.len(),
        pending[0] == 0,
        held_frames[0] == 0,
        forall|i: int|
            0 <= i < chunks.len() ==> #[trigger] chunk_planned(
                pending[i],
                held_frames[i],
                chunks[i] as int,
                plans[i],
                pending[i + 1],
                held_frames[i + 1],
            ),
    ensures
        holds_after(pending[k], held_frames[k], running_total(chunks, k), last_batch_total(chunks, k)),
        forall|i: int| 0 <= i < k ==> (is_batch(#[trigger] plans[i]) <==> batch_expected(chunks, i)),
    decreases k,
{
    if k > 0 {
        lemma_run_prefix(chunks, pending, held_frames, plans, k - 1);
        let i = k - 1;
        assert(chunk_planned(
            pending[i],
            held_frames[i],
            chunks[i] as int,
            plans[i],
            pending[i + 1],
            held_frames[i + 1],
        ));
        assert(running_total(chunks, k) == running_total(chunks, i) + chunks[i]);
        lemma_chunk_follows_running_total(
            pending[i],
            held_frames[i],
            running_total(chunks, i),
            last_batch_total(chunks, i),
            chunks[i] as int,
            plans[i],
            pending[k],
            held_frames[k],
        );
    }
}

} // verus!
