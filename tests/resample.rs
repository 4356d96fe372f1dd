use rau::filterbank::distribute_phases;
use rau::polyphase::{warmup_outputs, Polyphase};

#[test]
fn passthrough_factor_runs_one_subfilter_per_input() {
    let mut p: Polyphase<i64> = Polyphase::new(1, 1, 3, 0, 0);
    for x in 1..=5 {
        assert_eq!(p.push(x), vec![0]);
    }
}

#[test]
fn taps_read_newest_first_then_fill() {
    let mut p: Polyphase<i64> = Polyphase::new(1, 1, 4, 0, -1);
    p.push(10);
    p.push(20);
    assert_eq!(*p.tap(0), 20);
    assert_eq!(*p.tap(1), 10);
    assert_eq!(*p.tap(2), -1);
    assert_eq!(*p.tap(3), -1);
    for x in [30, 40, 50, 60, 70] {
        p.push(x);
    }
    assert_eq!(*p.tap(0), 70);
    assert_eq!(*p.tap(1), 60);
    assert_eq!(*p.tap(2), 50);
    assert_eq!(*p.tap(3), 40);
    assert_eq!(p.order(), 4);
}

#[test]
fn upsampling_by_three_halves_counts() {
    // 3 sub-filters, accumulator step 2: phases 0,2 | 1 | 0,2 | 1 ...
    let mut p: Polyphase<i64> = Polyphase::new(3, 2, 2, 0, 0);
    assert_eq!(p.push(1), vec![0, 2]);
    assert_eq!(p.push(2), vec![1]);
    assert_eq!(p.push(3), vec![0, 2]);
    assert_eq!(p.push(4), vec![1]);
}

#[test]
fn throughput_is_ceiling_of_ratio() {
    for (up, down) in [(3usize, 2usize), (2, 3), (160, 147), (1, 4), (5, 1)] {
        let mut p: Polyphase<i64> = Polyphase::new(up, down, 4, 0, 0);
        let mut total = 0usize;
        for k in 1..=200usize {
            total += p.push(k as i64).len();
            let exact = (k * up + down - 1) / down;
            assert_eq!(total, exact);
        }
    }
}

#[test]
fn warmup_outputs_are_dropped() {
    let skip = warmup_outputs(16, 1, 1);
    assert_eq!(skip, 8);
    let mut p: Polyphase<i64> = Polyphase::new(1, 1, 16, skip, 0);
    let mut total = 0usize;
    for k in 0..8 {
        assert!(p.push(k).is_empty());
    }
    for k in 8..20 {
        total += p.push(k).len();
    }
    assert_eq!(total, 12);
}

#[test]
fn warmup_rounds_half_the_prototype() {
    assert_eq!(warmup_outputs(32, 160, 147), 17);
    assert_eq!(warmup_outputs(16, 2, 3), 5);
    assert_eq!(warmup_outputs(1, 1, 1), 1);
    assert_eq!(warmup_outputs(32, 1, 4), 4);
}

#[test]
fn downsampling_never_exceeds_one_output_per_input() {
    let mut p: Polyphase<i64> = Polyphase::new(2, 5, 4, 0, 0);
    let mut counts = Vec::new();
    for k in 0..10 {
        let r = p.push(k);
        assert!(r.len() <= 1);
        counts.push(r.len());
    }
    assert_eq!(counts.iter().sum::<usize>(), 4);
}

#[test]
fn pure_delay_filter_passes_input_through_delayed() {
    // A prototype whose only non-zero tap is in the middle: a pure delay of
    // two samples at ratio 1.
    let taps: Vec<f64> = vec![0.0, 0.0, 1.0, 0.0, 0.0];
    let bank = distribute_phases(&taps, 1);
    let mut p: Polyphase<f64> = Polyphase::new(1, 1, 5, 0, 0.0);
    let input: Vec<f64> = (0..12).map(|i| (i as f64 * 0.7).sin()).collect();
    let mut output = Vec::new();
    for x in &input {
        for ph in p.push(*x) {
            let mut acc = 0.0;
            for (i, c) in bank[ph].iter().enumerate() {
                acc += c * *p.tap(i);
            }
            output.push(acc);
        }
    }
    assert_eq!(output.len(), input.len());
    assert_eq!(output[0], 0.0);
    assert_eq!(output[1], 0.0);
    for i in 2..input.len() {
        assert_eq!(output[i], input[i - 2]);
    }
}

#[test]
fn taps_are_distributed_by_index_modulo() {
    let taps: Vec<u32> = (0..8).collect();
    let bank = distribute_phases(&taps, 3);
    assert_eq!(bank, vec![vec![0, 3, 6], vec![1, 4, 7], vec![2, 5]]);
}

#[test]
fn each_subfilter_gets_order_taps() {
    let taps: Vec<u32> = (0..64).collect();
    let bank = distribute_phases(&taps, 4);
    assert_eq!(bank.len(), 4);
    for (p, sub) in bank.iter().enumerate() {
        assert_eq!(sub.len(), 16);
        for (i, t) in sub.iter().enumerate() {
            assert_eq!(*t as usize, p + 4 * i);
        }
    }
    let total: usize = bank.iter().map(|s| s.len()).sum();
    assert_eq!(total, taps.len());
}

#[test]
fn single_phase_bank_is_the_prototype() {
    let taps: Vec<i32> = vec![5, -3, 2];
    assert_eq!(distribute_phases(&taps, 1), vec![taps.clone()]);
}
