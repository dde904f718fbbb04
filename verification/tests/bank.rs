use karplus_string::{
    frequency_for_string_index, IndexOutOfRange, Karplus, KarplusString, Operation, Vibration,
};

fn arith(op: Operation<f32>) -> f32 {
    match op {
        Operation::Excite(word) => (word as f32 / u32::MAX as f32 - 0.5) * 1.5,
        Operation::Pitch(f0) => f0 as f32,
        Operation::Lowpass { delay_out, filter_z } => (delay_out * 0.499) + (filter_z * 0.499),
        Operation::Add(a, b) => a + b,
        Operation::Follow { coeff, envelope, sum } => {
            let abs_sum = sum.abs();
            coeff * (envelope - abs_sum) + abs_sum
        }
    }
}

fn coeff(sample_rate: usize) -> f32 {
    ((0.01 as f32).ln() / (10.0 * (sample_rate as f32) * 0.001)).exp()
}

fn bank_of(lengths: &[usize]) -> Karplus<f32> {
    let mut bank = Karplus::new(0.0);
    for length in lengths {
        bank.add_string(*length, 44100.0 / *length as f32, coeff(44100), &arith);
    }
    bank
}

#[test]
fn create_bank() {
    let mut karplus: Karplus<f32> = Karplus::new(0.0);
    assert_eq!(karplus.string_count(), 0);
    karplus.add_string(100, 440.0, coeff(44100), &arith);
    assert_eq!(karplus.string_count(), 1);
    karplus.add_string(100, 440.0, coeff(44100), &arith);
    assert_eq!(karplus.string_count(), 2);

    assert_eq!(karplus.tick(&arith), 0.0);
}

#[test]
fn empty_bank_gives_zero() {
    let mut bank: Karplus<f32> = Karplus::new(0.0);
    assert_eq!(bank.tick(&arith), 0.0);
    let mut out = [1.0f32; 16];
    bank.process(&mut out, &arith);
    assert_eq!(out, [0.0f32; 16]);
}

#[test]
fn added_string_is_made_like_a_string_of_its_own() {
    let bank = bank_of(&[100, 64]);
    let alone: KarplusString<f32> = KarplusString::new(64, 44100.0 / 64.0, coeff(44100), 0.0, &arith);
    assert_eq!(bank.string(1), Some(&alone));
    assert_eq!(bank.string(0).unwrap().delay_line_length(), 100);
    assert!(bank.string(2).is_none());
}

#[test]
fn bank_is_silent_until_a_string_is_plucked() {
    let mut bank = bank_of(&[100, 64, 33, 1470, 1]);
    for _ in 0..5000 {
        assert_eq!(bank.tick(&arith), 0.0);
    }
    let mut out = [1.0f32; 128];
    bank.process(&mut out, &arith);
    assert!(out.iter().all(|x| *x == 0.0));
    bank.pluck_string(2).unwrap();
    assert_ne!(bank.tick(&arith), 0.0);
}

#[test]
fn pluck_out_of_range_changes_nothing() {
    let mut bank = bank_of(&[100, 64]);
    bank.pluck_string(0).unwrap();
    for _ in 0..300 {
        bank.tick(&arith);
    }
    let before = format!("{:?}", bank);
    assert_eq!(bank.pluck_string(2), Err(IndexOutOfRange { index: 2, count: 2 }));
    assert_eq!(bank.pluck_string(usize::MAX), Err(IndexOutOfRange { index: usize::MAX, count: 2 }));
    assert_eq!(format!("{:?}", bank), before);
    assert_eq!(bank.string_count(), 2);
}

#[test]
fn pluck_on_an_empty_bank_is_out_of_range() {
    let mut bank: Karplus<f32> = Karplus::new(0.0);
    assert_eq!(bank.pluck_string(0), Err(IndexOutOfRange { index: 0, count: 0 }));
    assert_eq!(bank.amplitude(0), Err(IndexOutOfRange { index: 0, count: 0 }));
    assert_eq!(bank.vibration(0), Err(IndexOutOfRange { index: 0, count: 0 }));
}

#[test]
fn pluck_reaches_the_string_it_names_and_no_other() {
    let mut bank = bank_of(&[100, 64, 33]);
    assert_eq!(bank.pluck_string(1), Ok(()));
    assert_eq!(bank.string(0).unwrap().excitation_read_index(), 100);
    assert_eq!(bank.string(1).unwrap().excitation_read_index(), 0);
    assert_eq!(bank.string(2).unwrap().excitation_read_index(), 33);
}

#[test]
fn tick_mixes_the_strings_in_index_order() {
    let lengths = [100, 64, 33, 7];
    let mut bank = bank_of(&lengths);
    let mut alone: Vec<KarplusString<f32>> = lengths
        .iter()
        .map(|l| KarplusString::new(*l, 44100.0 / *l as f32, coeff(44100), 0.0, &arith))
        .collect();
    for n in 0..3000 {
        if n % 500 == 0 {
            let i = (n / 500) % 4;
            bank.pluck_string(i).unwrap();
            alone[i].pluck();
        }
        let mut expected = 0.0;
        for string in alone.iter_mut() {
            expected += string.tick(&arith);
        }
        assert_eq!(bank.tick(&arith).to_bits(), expected.to_bits());
    }
    for (i, string) in alone.iter().enumerate() {
        assert_eq!(bank.string(i), Some(string));
    }
}

#[test]
fn tick_adds_up_from_the_left_starting_at_zero() {
    let mut bank = bank_of(&[3, 5, 7]);
    bank.pluck_string(0).unwrap();
    bank.tick(&arith);
    bank.pluck_string(1).unwrap();
    bank.tick(&arith);
    bank.pluck_string(2).unwrap();
    let burst = bank.string(0).unwrap().excitation().clone();
    let trace = |op: Operation<f32>| match op {
        Operation::Add(a, b) => a * 2.0 + b,
        other => arith(other),
    };
    let s0 = burst[2] * 2.0 + 0.0;
    let s1 = burst[1] * 2.0 + 0.0;
    let s2 = burst[0] * 2.0 + 0.0;
    let out = bank.tick(&trace);
    assert_eq!(out, ((0.0 * 2.0 + s0) * 2.0 + s1) * 2.0 + s2);
}

#[test]
fn process_fills_the_buffer_with_successive_ticks() {
    let mut a = bank_of(&[100, 64, 33]);
    let mut b = bank_of(&[100, 64, 33]);
    a.pluck_string(0).unwrap();
    b.pluck_string(0).unwrap();
    a.pluck_string(2).unwrap();
    b.pluck_string(2).unwrap();
    let mut out = [0.0f32; 128];
    for _ in 0..4 {
        a.process(&mut out, &arith);
        for sample in out.iter() {
            assert_eq!(sample.to_bits(), b.tick(&arith).to_bits());
        }
    }
    assert_eq!(a, b);
    assert!(out.iter().any(|x| *x != 0.0));
}

#[test]
fn process_on_an_empty_buffer_does_nothing() {
    let mut a = bank_of(&[100]);
    a.pluck_string(0).unwrap();
    let before = format!("{:?}", a);
    let mut out: [f32; 0] = [];
    a.process(&mut out, &arith);
    assert_eq!(format!("{:?}", a), before);
}

#[test]
fn amplitude_is_the_envelope_of_the_string() {
    let mut bank = bank_of(&[100, 64]);
    assert_eq!(bank.amplitude(0), Ok(0.0));
    bank.pluck_string(1).unwrap();
    for _ in 0..50 {
        bank.tick(&arith);
    }
    assert_eq!(bank.amplitude(0), Ok(0.0));
    let envelope = bank.string(1).unwrap().envelope();
    assert!(envelope > 0.0);
    assert_eq!(bank.amplitude(1), Ok(envelope));
    assert_eq!(bank.amplitude(2), Err(IndexOutOfRange { index: 2, count: 2 }));
}

#[test]
fn vibration_of_each_string() {
    let mut bank = bank_of(&[100, 64]);
    assert_eq!(bank.vibration(0), Ok(Vibration { phase: 33, period: 100 }));
    assert_eq!(bank.vibration(1), Ok(Vibration { phase: 21, period: 64 }));
    bank.pluck_string(1).unwrap();
    for _ in 0..200 {
        bank.tick(&arith);
    }
    assert_eq!(bank.vibration(0), Ok(Vibration { phase: 0, period: 100 }));
    assert_eq!(bank.vibration(1), Ok(Vibration { phase: 2, period: 64 }));
    assert_eq!(bank.vibration(2), Err(IndexOutOfRange { index: 2, count: 2 }));
    let v = bank.vibration(1).unwrap();
    let as_float = v.phase as f32 / v.period as f32;
    assert_eq!(as_float, 2.0 / 64.0);
}

#[test]
fn tuned_bank_follows_the_frequency_table() {
    let bank = Karplus::tuned(44100, 2000, 0.0f32, coeff(44100), &arith).unwrap();
    assert_eq!(bank.string_count(), 2000);
    for i in [0usize, 1, 24, 25, 1000, 1999] {
        let string = bank.string(i).unwrap();
        let f0 = frequency_for_string_index(i) as f32;
        assert_eq!(string.f0(), f0);
        assert_eq!(string.delay_line_length(), (44100 as f32 / f0).round() as usize);
        assert_eq!(string.excitation_read_index(), string.delay_line_length());
        assert_eq!(string.envelope_follower_coeff(), coeff(44100));
    }
    assert_eq!(bank.string(0).unwrap().delay_line_length(), 1470);
    assert_eq!(bank.string(24).unwrap().delay_line_length(), 59);
}

#[test]
fn tuned_bank_is_silent() {
    let mut bank = Karplus::tuned(44100, 50, 0.0f32, coeff(44100), &arith).unwrap();
    for _ in 0..500 {
        assert_eq!(bank.tick(&arith), 0.0);
    }
}

#[test]
fn no_bank_for_a_rate_too_low_for_its_strings() {
    assert!(Karplus::tuned(14, 1, 0.0f32, coeff(14), &arith).is_none());
    assert!(Karplus::tuned(15, 1, 0.0f32, coeff(15), &arith).is_some());
    assert!(Karplus::tuned(15, 2, 0.0f32, coeff(15), &arith).is_none());
    assert!(Karplus::tuned(14, 0, 0.0f32, coeff(14), &arith).is_some());
}
