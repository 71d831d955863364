use tiny_player::subtitle::{
    prompt_tokens, push_decoded_token, transcription_enabled, MelFraming, TokenIds, UsedModel,
    EN_LANGUAGE_ID, MAX_MEL_FRAMES, ZH_LANGUAGE_ID,
};

#[test]
fn prompts_per_language() {
    let ids = TokenIds::new(50258, 50359, 50363, 50257, 50362);
    assert_eq!(ids.zh_language_id, ZH_LANGUAGE_ID);
    assert_eq!(ids.en_language_id, EN_LANGUAGE_ID);
    assert_eq!(prompt_tokens(&ids, UsedModel::Chinese), Some(vec![50258, 50260, 50359, 50363]));
    assert_eq!(prompt_tokens(&ids, UsedModel::English), Some(vec![50258, 50259, 50359, 50363]));
    assert_eq!(prompt_tokens(&ids, UsedModel::Empty), None);
    assert!(!transcription_enabled(UsedModel::Empty));
    assert!(transcription_enabled(UsedModel::English));
}

#[test]
fn decoding_stops_at_end_or_limit() {
    let mut tokens = vec![1, 2, 3, 4];
    assert!(!push_decoded_token(&mut tokens, 10, 99));
    assert!(push_decoded_token(&mut tokens, 99, 99));
    assert_eq!(tokens, vec![1, 2, 3, 4, 10, 99]);
    let mut long: Vec<u32> = (0..56).collect();
    assert!(push_decoded_token(&mut long, 7, 99));
    assert_eq!(long.len(), 57);
}

#[test]
fn mel_framing_plans() {
    let mut f = MelFraming::new();
    assert_eq!(f.held_samples(), 0);
    assert!(f.plan_chunk(399).is_none());
    assert_eq!(f.held_samples(), 399);
    let p = f.plan_chunk(1).unwrap();
    assert_eq!(f.held_samples(), 240);
    assert_eq!(p.frames, 1);
    assert_eq!(p.consumed_samples, 160);
    assert_eq!(p.batch_padding, None);
    // 240 samples left; 31_840 more make 32_080: (32_080 - 400) / 160 + 1 = 199 frames.
    let p = f.plan_chunk(31_840).unwrap();
    assert_eq!(p.frames, 199);
    assert_eq!(p.dropped_mel_frames, 0);
    assert_eq!(p.batch_padding, Some(MAX_MEL_FRAMES - 200));
    let p = f.plan_chunk(1_000_000).unwrap();
    assert_eq!(p.frames, (1_000_000 + 240 - 400) / 160 + 1);
    assert_eq!(p.dropped_mel_frames, p.frames - MAX_MEL_FRAMES);
    assert_eq!(p.batch_padding, Some(0));
}

/// The calls, among those made with `chunks`, that hand over a batch.
fn batch_calls(chunks: &[usize]) -> Vec<usize> {
    let mut framing = MelFraming::new();
    let mut calls = Vec::new();
    for (i, &n) in chunks.iter().enumerate() {
        if let Some(plan) = framing.plan_chunk(n) {
            if plan.batch_padding.is_some() {
                calls.push(i);
            }
        }
    }
    calls
}

/// The running totals at which batches come, for the same chunks.
fn batch_totals(chunks: &[usize]) -> Vec<usize> {
    let mut total = 0;
    batch_calls(chunks)
        .into_iter()
        .map(|i| {
            total = chunks[..=i].iter().sum();
            total
        })
        .collect()
}

#[test]
fn mel_batches_follow_the_running_total() {
    // The first batch needs 200 windows: 400 + 199 * 160 = 32240 samples.
    assert_eq!(batch_calls(&[32240]), vec![0]);
    assert_eq!(batch_calls(&[32239]), Vec::<usize>::new());
    assert_eq!(batch_calls(&[32239, 1]), vec![1]);
    assert_eq!(batch_calls(&[16000, 16000, 240]), vec![2]);
    assert_eq!(batch_calls(&[100; 322]), Vec::<usize>::new());
    assert_eq!(batch_calls(&[100; 323]), vec![322]);
    // The next batch needs 200 more windows: 32000 more samples.
    let one_chunk = [64240];
    let split = [1000, 31240, 100, 31900];
    assert_eq!(batch_calls(&one_chunk), vec![0]);
    assert_eq!(batch_totals(&split), vec![32240, 64240]);
    assert_eq!(batch_calls(&[32240, 31999]), vec![0]);
    assert_eq!(batch_calls(&[32240, 32000]), vec![0, 1]);
}
