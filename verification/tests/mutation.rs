use toyfuzzer::mutation::{
    apply_step, draw_step, mutate, mutate_traced, replay, shape_step, MutationConfig,
    MutationStep, RawStep, MAX_ARITH_DELTA, MAX_ARITH_RUN, MAX_INSERT_RUN, OPERATOR_KINDS,
    WORDS_PER_STEP,
};
use toyfuzzer::random::RandomSource;

const MAX: usize = 64;

fn apply(buf: &[u8], step: MutationStep, donor: &[u8]) -> (Vec<u8>, bool) {
    let mut out = buf.to_vec();
    let acted = apply_step(&mut out, step, &donor.to_vec(), MAX);
    (out, acted)
}

#[test]
fn bit_flip_flips_one_bit() {
    assert_eq!(apply(b"a", MutationStep::BitFlip { pos: 0, bit: 0 }, b""), (vec![0x60], true));
    assert_eq!(apply(b"a", MutationStep::BitFlip { pos: 0, bit: 7 }, b""), (vec![0xe1], true));
    assert_eq!(
        apply(&[0, 0, 0], MutationStep::BitFlip { pos: 2, bit: 3 }, b""),
        (vec![0, 0, 8], true)
    );
}

#[test]
fn bit_flip_out_of_range_is_skipped() {
    assert_eq!(apply(b"a", MutationStep::BitFlip { pos: 1, bit: 0 }, b""), (b"a".to_vec(), false));
    assert_eq!(apply(b"a", MutationStep::BitFlip { pos: 0, bit: 8 }, b""), (b"a".to_vec(), false));
    assert_eq!(apply(b"", MutationStep::BitFlip { pos: 0, bit: 0 }, b""), (vec![], false));
}

#[test]
fn byte_flip_inverts_the_byte() {
    assert_eq!(apply(&[0x0f, 0xff], MutationStep::ByteFlip { pos: 0 }, b""), (vec![0xf0, 0xff], true));
    assert_eq!(apply(&[0x0f, 0xff], MutationStep::ByteFlip { pos: 1 }, b""), (vec![0x0f, 0x00], true));
    assert_eq!(apply(&[0x0f], MutationStep::ByteFlip { pos: 1 }, b""), (vec![0x0f], false));
}

#[test]
fn byte_inc_and_dec_wrap() {
    assert_eq!(apply(&[1], MutationStep::ByteInc { pos: 0 }, b""), (vec![2], true));
    assert_eq!(apply(&[255], MutationStep::ByteInc { pos: 0 }, b""), (vec![0], true));
    assert_eq!(apply(&[1], MutationStep::ByteDec { pos: 0 }, b""), (vec![0], true));
    assert_eq!(apply(&[0], MutationStep::ByteDec { pos: 0 }, b""), (vec![255], true));
    assert_eq!(apply(&[], MutationStep::ByteInc { pos: 0 }, b""), (vec![], false));
    assert_eq!(apply(&[], MutationStep::ByteDec { pos: 0 }, b""), (vec![], false));
}

#[test]
fn insert_adds_a_run() {
    assert_eq!(
        apply(b"ab", MutationStep::Insert { pos: 1, count: 3, value: b'x' }, b""),
        (b"axxxb".to_vec(), true)
    );
    assert_eq!(
        apply(b"ab", MutationStep::Insert { pos: 0, count: 1, value: b'x' }, b""),
        (b"xab".to_vec(), true)
    );
    assert_eq!(
        apply(b"ab", MutationStep::Insert { pos: 2, count: 2, value: b'x' }, b""),
        (b"abxx".to_vec(), true)
    );
    assert_eq!(
        apply(b"", MutationStep::Insert { pos: 0, count: 2, value: b'z' }, b""),
        (b"zz".to_vec(), true)
    );
}

#[test]
fn insert_is_skipped_past_the_end_or_the_limit() {
    assert_eq!(
        apply(b"ab", MutationStep::Insert { pos: 3, count: 1, value: 0 }, b""),
        (b"ab".to_vec(), false)
    );
    assert_eq!(
        apply(b"ab", MutationStep::Insert { pos: 0, count: 0, value: 0 }, b""),
        (b"ab".to_vec(), false)
    );
    assert_eq!(
        apply(b"ab", MutationStep::Insert { pos: 0, count: MAX - 1, value: 0 }, b""),
        (b"ab".to_vec(), false)
    );
    let (out, acted) = apply(b"ab", MutationStep::Insert { pos: 0, count: MAX - 2, value: 7 }, b"");
    assert!(acted);
    assert_eq!(out.len(), MAX);
    let long = vec![1u8; MAX + 5];
    assert_eq!(
        apply(&long, MutationStep::Insert { pos: 0, count: 1, value: 0 }, b""),
        (long.clone(), false)
    );
    assert_eq!(
        apply(b"ab", MutationStep::Insert { pos: 0, count: usize::MAX, value: 0 }, b""),
        (b"ab".to_vec(), false)
    );
}

#[test]
fn delete_removes_a_run() {
    assert_eq!(apply(b"abcde", MutationStep::Delete { pos: 1, count: 2 }, b""), (b"ade".to_vec(), true));
    assert_eq!(apply(b"abcde", MutationStep::Delete { pos: 0, count: 5 }, b""), (vec![], true));
    assert_eq!(apply(b"abcde", MutationStep::Delete { pos: 4, count: 1 }, b""), (b"abcd".to_vec(), true));
    assert_eq!(apply(b"abcde", MutationStep::Delete { pos: 4, count: 2 }, b""), (b"abcde".to_vec(), false));
    assert_eq!(apply(b"abcde", MutationStep::Delete { pos: 1, count: 0 }, b""), (b"abcde".to_vec(), false));
    assert_eq!(
        apply(b"abcde", MutationStep::Delete { pos: 1, count: usize::MAX }, b""),
        (b"abcde".to_vec(), false)
    );
    assert_eq!(apply(b"", MutationStep::Delete { pos: 0, count: 1 }, b""), (vec![], false));
}

#[test]
fn splice_inserts_a_donor_chunk() {
    assert_eq!(
        apply(b"ab", MutationStep::Splice { pos: 1, from: 2, count: 3 }, b"0123456"),
        (b"a234b".to_vec(), true)
    );
    assert_eq!(
        apply(b"", MutationStep::Splice { pos: 0, from: 0, count: 2 }, b"xy"),
        (b"xy".to_vec(), true)
    );
    assert_eq!(
        apply(b"ab", MutationStep::Splice { pos: 2, from: 1, count: 1 }, b"xy"),
        (b"aby".to_vec(), true)
    );
}

#[test]
fn splice_is_skipped_without_a_chunk() {
    assert_eq!(
        apply(b"ab", MutationStep::Splice { pos: 1, from: 0, count: 1 }, b""),
        (b"ab".to_vec(), false)
    );
    assert_eq!(
        apply(b"ab", MutationStep::Splice { pos: 1, from: 1, count: 2 }, b"xy"),
        (b"ab".to_vec(), false)
    );
    assert_eq!(
        apply(b"ab", MutationStep::Splice { pos: 3, from: 0, count: 1 }, b"xy"),
        (b"ab".to_vec(), false)
    );
    assert_eq!(
        apply(b"ab", MutationStep::Splice { pos: 0, from: usize::MAX, count: 1 }, b"xy"),
        (b"ab".to_vec(), false)
    );
    let donor = vec![9u8; MAX];
    assert_eq!(
        apply(b"ab", MutationStep::Splice { pos: 0, from: 0, count: MAX - 1 }, &donor),
        (b"ab".to_vec(), false)
    );
}

#[test]
fn arith_perturbs_a_run() {
    assert_eq!(
        apply(&[1, 2, 3, 4], MutationStep::Arith { pos: 1, count: 2, delta: 10, subtract: false }, b""),
        (vec![1, 12, 13, 4], true)
    );
    assert_eq!(
        apply(&[1, 2, 3, 4], MutationStep::Arith { pos: 0, count: 4, delta: 3, subtract: true }, b""),
        (vec![254, 255, 0, 1], true)
    );
    assert_eq!(
        apply(&[250], MutationStep::Arith { pos: 0, count: 1, delta: 35, subtract: false }, b""),
        (vec![29], true)
    );
    assert_eq!(
        apply(&[1, 2], MutationStep::Arith { pos: 1, count: 2, delta: 1, subtract: false }, b""),
        (vec![1, 2], false)
    );
    assert_eq!(
        apply(&[], MutationStep::Arith { pos: 0, count: 1, delta: 1, subtract: false }, b""),
        (vec![], false)
    );
}

#[test]
fn replay_applies_steps_first_to_last() {
    let steps = vec![
        MutationStep::Insert { pos: 0, count: 1, value: b'a' },
        MutationStep::ByteInc { pos: 0 },
        MutationStep::Splice { pos: 1, from: 0, count: 2 },
        MutationStep::Delete { pos: 5, count: 1 },
        MutationStep::BitFlip { pos: 2, bit: 0 },
    ];
    let out = replay(&b"".to_vec(), &steps, &b"xy".to_vec(), MAX);
    assert_eq!(out, b"bxx".to_vec());
    assert_eq!(replay(&b"abc".to_vec(), &vec![], &vec![], MAX), b"abc".to_vec());
}

#[test]
fn config_accepts_only_a_nonempty_range_from_one() {
    assert!(MutationConfig::new(0, 4, 10).is_none());
    assert!(MutationConfig::new(5, 4, 10).is_none());
    let cfg = MutationConfig::new(2, 4, 10).unwrap();
    assert_eq!((cfg.min_depth(), cfg.max_depth(), cfg.max_len()), (2, 4, 10));
    let one = MutationConfig::new(1, 1, 0).unwrap();
    assert_eq!((one.min_depth(), one.max_depth(), one.max_len()), (1, 1, 0));
    let std = MutationConfig::standard();
    assert_eq!((std.min_depth(), std.max_depth(), std.max_len()), (1, 16, 1048576));
}

fn raw(kind: u64, pos: u64, from: u64, count: u64, value: u64, flag: u64) -> RawStep {
    RawStep { kind, pos, from, count, value, flag }
}

#[test]
fn shape_step_chooses_the_operator_by_the_first_word() {
    let words = |kind| raw(kind, 13, 0, 0, 0, 0);
    assert_eq!(shape_step(words(0), 10, 4), MutationStep::BitFlip { pos: 3, bit: 0 });
    assert_eq!(shape_step(words(1), 10, 4), MutationStep::ByteFlip { pos: 3 });
    assert_eq!(shape_step(words(2), 10, 4), MutationStep::ByteInc { pos: 3 });
    assert_eq!(shape_step(words(3), 10, 4), MutationStep::ByteDec { pos: 3 });
    assert_eq!(shape_step(words(4), 10, 4), MutationStep::Insert { pos: 2, count: 1, value: 0 });
    assert_eq!(shape_step(words(5), 10, 4), MutationStep::Delete { pos: 3, count: 1 });
    assert_eq!(shape_step(words(6), 10, 4), MutationStep::Splice { pos: 2, from: 0, count: 1 });
    assert_eq!(
        shape_step(words(7), 10, 4),
        MutationStep::Arith { pos: 3, count: 1, delta: 1, subtract: false }
    );
    assert_eq!(shape_step(words(8), 10, 4), MutationStep::BitFlip { pos: 3, bit: 0 });
    assert_eq!(shape_step(words(u64::MAX), 10, 4), shape_step(words(7), 10, 4));
}

#[test]
fn shape_step_reduces_every_word_to_its_range() {
    assert_eq!(
        shape_step(raw(0, 25, 0, 0, 15, 0), 10, 0),
        MutationStep::BitFlip { pos: 5, bit: 7 }
    );
    assert_eq!(
        shape_step(raw(4, 10, 0, 31, 0x141, 0), 10, 0),
        MutationStep::Insert { pos: 10, count: 16, value: 0x41 }
    );
    assert_eq!(
        shape_step(raw(4, 11, 0, 16, 255, 0), 10, 0),
        MutationStep::Insert { pos: 0, count: 1, value: 255 }
    );
    // a deletion runs to the end of the buffer at most
    assert_eq!(shape_step(raw(5, 7, 0, 2, 0, 0), 10, 0), MutationStep::Delete { pos: 7, count: 3 });
    assert_eq!(shape_step(raw(5, 7, 0, 3, 0, 0), 10, 0), MutationStep::Delete { pos: 7, count: 1 });
    assert_eq!(shape_step(raw(5, 0, 0, 9, 0, 0), 10, 0), MutationStep::Delete { pos: 0, count: 10 });
    // a splice takes its chunk from inside the donor
    assert_eq!(
        shape_step(raw(6, 3, 6, 5, 0, 0), 10, 4),
        MutationStep::Splice { pos: 3, from: 2, count: 2 }
    );
    assert_eq!(
        shape_step(raw(6, 3, 3, 5, 0, 0), 10, 4),
        MutationStep::Splice { pos: 3, from: 3, count: 1 }
    );
    // an arithmetic run holds eight bytes at most, its amount is 1 to 35
    assert_eq!(
        shape_step(raw(7, 0, 0, 7, 34, 1), 100, 0),
        MutationStep::Arith { pos: 0, count: 8, delta: 35, subtract: true }
    );
    assert_eq!(
        shape_step(raw(7, 98, 0, 7, 35, 2), 100, 0),
        MutationStep::Arith { pos: 98, count: 2, delta: 1, subtract: false }
    );
}

#[test]
fn shape_step_on_empty_buffer_and_donor() {
    assert_eq!(shape_step(raw(0, 9, 9, 9, 9, 9), 0, 0), MutationStep::BitFlip { pos: 0, bit: 1 });
    assert_eq!(shape_step(raw(5, 9, 9, 9, 9, 9), 0, 0), MutationStep::Delete { pos: 0, count: 1 });
    assert_eq!(
        shape_step(raw(6, 9, 9, 9, 9, 9), 0, 0),
        MutationStep::Splice { pos: 0, from: 0, count: 1 }
    );
    assert_eq!(
        shape_step(raw(4, 9, 9, 9, 9, 9), 0, 0),
        MutationStep::Insert { pos: 0, count: 10, value: 9 }
    );
    assert_eq!(
        shape_step(raw(7, 9, 9, 9, 9, 9), 0, 0),
        MutationStep::Arith { pos: 0, count: 1, delta: 10, subtract: true }
    );
}

#[test]
fn shape_step_stays_within_bounds_for_extreme_words() {
    for kind in 0..8 {
        for len in [0usize, 1, 2, 255, usize::MAX] {
            for donor_len in [0usize, 1, 3, usize::MAX] {
                for word in [0u64, 1, u64::MAX / 2, u64::MAX - 1, u64::MAX] {
                    let step = shape_step(raw(kind, word, word, word, word, word), len, donor_len);
                    assert!(within_bounds(step, len, donor_len), "{:?}", step);
                }
            }
        }
    }
}

#[test]
fn stack_depth_is_chosen_by_a_word() {
    let cfg = MutationConfig::new(3, 5, 100).unwrap();
    assert_eq!(cfg.depth(0), 3);
    assert_eq!(cfg.depth(1), 4);
    assert_eq!(cfg.depth(2), 5);
    assert_eq!(cfg.depth(3), 3);
    assert_eq!(cfg.depth(u64::MAX), 3 + (u64::MAX % 3) as usize);
    let std = MutationConfig::standard();
    assert_eq!(std.depth(0), 1);
    assert_eq!(std.depth(15), 16);
    assert_eq!(std.depth(16), 1);
    let one = MutationConfig::new(7, 7, 0).unwrap();
    assert_eq!(one.depth(12345), 7);
    let wide = MutationConfig::new(1, usize::MAX, 0).unwrap();
    assert_eq!(wide.depth(41), 42);
}

fn within_bounds(step: MutationStep, len: usize, donor_len: usize) -> bool {
    let point = |pos: usize| pos <= len && (len == 0 || pos < len);
    match step {
        MutationStep::BitFlip { pos, bit } => bit < 8 && point(pos),
        MutationStep::ByteFlip { pos } => point(pos),
        MutationStep::ByteInc { pos } => point(pos),
        MutationStep::ByteDec { pos } => point(pos),
        MutationStep::Insert { pos, count, .. } => pos <= len && 1 <= count && count <= MAX_INSERT_RUN,
        MutationStep::Delete { pos, count } => {
            pos <= len && count >= 1 && (len == 0 || count <= len - pos)
        }
        MutationStep::Splice { pos, from, count } => {
            pos <= len
                && from <= donor_len
                && count >= 1
                && (donor_len == 0 || count <= donor_len - from)
        }
        MutationStep::Arith { pos, count, delta, .. } => {
            pos <= len
                && 1 <= count
                && count <= MAX_ARITH_RUN
                && 1 <= delta
                && delta <= MAX_ARITH_DELTA
                && (len == 0 || count <= len - pos)
        }
    }
}

fn kind(step: MutationStep) -> usize {
    match step {
        MutationStep::BitFlip { .. } => 0,
        MutationStep::ByteFlip { .. } => 1,
        MutationStep::ByteInc { .. } => 2,
        MutationStep::ByteDec { .. } => 3,
        MutationStep::Insert { .. } => 4,
        MutationStep::Delete { .. } => 5,
        MutationStep::Splice { .. } => 6,
        MutationStep::Arith { .. } => 7,
    }
}

#[test]
fn draw_step_shapes_the_next_six_words() {
    for seed in 0..50u64 {
        let mut words = RandomSource::with_seed(seed);
        let mut drawing = RandomSource::with_seed(seed);
        for round in 0..20usize {
            let kind = words.next_word();
            let pos = words.next_word();
            let from = words.next_word();
            let count = words.next_word();
            let value = words.next_word();
            let flag = words.next_word();
            let expected = shape_step(raw(kind, pos, from, count, value, flag), round, 5);
            assert_eq!(draw_step(&mut drawing, round, 5), expected);
        }
        assert_eq!(drawing.next_word(), words.next_word());
    }
    assert_eq!(WORDS_PER_STEP, 6);
}

#[test]
fn drawn_steps_stay_within_bounds() {
    let mut rng = RandomSource::with_seed(42);
    let mut kinds = [0usize; 8];
    for round in 0..4000 {
        let len = round % 23;
        let donor_len = (round / 7) % 5;
        let step = draw_step(&mut rng, len, donor_len);
        assert!(within_bounds(step, len, donor_len), "{:?} on {} / {}", step, len, donor_len);
        kinds[kind(step)] += 1;
    }
    assert_eq!(OPERATOR_KINDS, 8);
    for k in kinds {
        assert!(k > 0);
    }
}

#[test]
fn drawn_steps_act_on_a_buffer_with_room() {
    let mut rng = RandomSource::with_seed(7);
    for _ in 0..2000 {
        let buf = b"hello world".to_vec();
        let donor = b"donor".to_vec();
        let step = draw_step(&mut rng, buf.len(), donor.len());
        let mut out = buf.clone();
        assert!(apply_step(&mut out, step, &donor, MAX), "{:?}", step);
    }
}

#[test]
fn mutate_returns_an_input_for_any_seed() {
    let cfg = MutationConfig::standard();
    let mut rng = RandomSource::with_seed(3);
    for len in 0..40usize {
        let seed = vec![b'q'; len];
        let candidate = mutate(&seed, &b"splice me".to_vec(), &mut rng, &cfg);
        assert!(candidate.len() <= len + 16 * 16);
    }
}

#[test]
fn mutate_handles_empty_seed_and_empty_donor() {
    let cfg = MutationConfig::standard();
    let mut rng = RandomSource::with_seed(11);
    let mut grew = false;
    for _ in 0..200 {
        let (candidate, steps) = mutate_traced(&vec![], &vec![], &mut rng, &cfg);
        assert!(1 <= steps.len() && steps.len() <= 16);
        let inserted: usize = steps
            .iter()
            .map(|s| match s {
                MutationStep::Insert { count, .. } => *count,
                _ => 0,
            })
            .sum();
        assert!(candidate.len() <= inserted);
        if !candidate.is_empty() {
            grew = true;
        }
    }
    assert!(grew);
}

#[test]
fn mutate_respects_the_length_limit() {
    let cfg = MutationConfig::new(16, 16, 8).unwrap();
    let mut rng = RandomSource::with_seed(5);
    for _ in 0..300 {
        let candidate = mutate(&b"abc".to_vec(), &b"0123456789".to_vec(), &mut rng, &cfg);
        assert!(candidate.len() <= 8);
    }
    // a seed over the limit never grows
    let seed = vec![0u8; 20];
    for _ in 0..300 {
        let candidate = mutate(&seed, &b"0123456789".to_vec(), &mut rng, &cfg);
        assert!(candidate.len() <= 20);
    }
}

#[test]
fn mutate_stack_depth_stays_in_the_configured_range() {
    let cfg = MutationConfig::new(3, 5, 100).unwrap();
    let mut rng = RandomSource::with_seed(9);
    let mut seen = [false; 6];
    for _ in 0..300 {
        let (_, steps) = mutate_traced(&b"seed".to_vec(), &b"donor".to_vec(), &mut rng, &cfg);
        assert!(3 <= steps.len() && steps.len() <= 5);
        seen[steps.len()] = true;
    }
    assert!(seen[3] && seen[4] && seen[5]);
    let fixed = MutationConfig::new(1, 1, 100).unwrap();
    let (_, steps) = mutate_traced(&b"seed".to_vec(), &b"donor".to_vec(), &mut rng, &fixed);
    assert_eq!(steps.len(), 1);
}

#[test]
fn mutate_trace_replays_to_the_candidate() {
    let cfg = MutationConfig::standard();
    let mut rng = RandomSource::with_seed(1234);
    let seed = b"the quick brown fox".to_vec();
    let donor = b"jumps over".to_vec();
    for _ in 0..200 {
        let (candidate, steps) = mutate_traced(&seed, &donor, &mut rng, &cfg);
        assert_eq!(replay(&seed, &steps, &donor, cfg.max_len()), candidate);
    }
}

#[test]
fn mutate_is_reproducible_from_the_same_random_state() {
    let cfg = MutationConfig::standard();
    let seed = b"reproduce".to_vec();
    let donor = b"me".to_vec();
    let mut first = RandomSource::with_seed(77);
    let mut second = RandomSource::with_seed(77);
    let mut changed = false;
    for _ in 0..50 {
        let a = mutate(&seed, &donor, &mut first, &cfg);
        let b = mutate(&seed, &donor, &mut second, &cfg);
        assert_eq!(a, b);
        if a != seed {
            changed = true;
        }
    }
    assert!(changed);
}
