use karplus_string::noise::{KW, KX, KY, KZ};
use karplus_string::Rand;

#[test]
fn seed_zero_gives_the_known_stream() {
    let mut rng = Rand::new(0);
    let expected: [u32; 8] = [
        3701687786, 458299110, 2500872618, 3633119408, 516391518, 2377269574, 2599949379,
        717229868,
    ];
    for word in expected {
        assert_eq!(rng.rand(), word);
    }
}

#[test]
fn seed_changes_the_stream() {
    let mut rng = Rand::new(1);
    assert_eq!(rng.rand(), 3701689827);
    assert_eq!(rng.rand(), 458299110);
    let mut rng = Rand::new(0xdead_beef);
    assert_eq!(rng.rand(), 1867176387);
    assert_eq!(rng.rand(), 458293403);
    assert_eq!(rng.rand(), 2500878295);
    assert_eq!(rng.rand(), 3633125069);
    let mut rng = Rand::new(u32::MAX);
    assert_eq!(rng.rand(), 3701686802);
}

#[test]
fn same_seed_same_stream() {
    let mut a = Rand::new(77);
    let mut b = Rand::new(77);
    for _ in 0..1000 {
        assert_eq!(a.rand(), b.rand());
    }
}

#[test]
fn step_follows_the_xorshift_rule() {
    let mut rng = Rand::new(0);
    let (mut x, mut y, mut z, mut w) = (KX, KY, KZ, KW);
    for _ in 0..1000 {
        let t = x ^ x.wrapping_shl(11);
        x = y;
        y = z;
        z = w;
        w ^= w.wrapping_shr(19) ^ t ^ t.wrapping_shr(8);
        assert_eq!(rng.rand(), w);
    }
}
