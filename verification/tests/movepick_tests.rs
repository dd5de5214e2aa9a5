use usiagent::error::LimitSizeError;
use usiagent::math::Prng;
use usiagent::movepick::{MovePicker, RandomPicker, MOVE_MAX};

#[test]
fn random_picker_hands_out_every_move_once() {
    let mut p: RandomPicker<u32> = RandomPicker::new(Prng::new(12345));
    assert_eq!(p.push(10).ok(), Some(1));
    assert_eq!(p.push(20).ok(), Some(2));
    assert_eq!(p.push(30).ok(), Some(3));
    assert_eq!(p.len(), 3);
    let mut got = Vec::new();
    while let Some(m) = p.next() {
        got.push(m);
    }
    assert_eq!(got.len(), 3);
    got.sort();
    assert_eq!(got, vec![10, 20, 30]);
    assert!(p.next().is_none());
}

#[test]
fn random_picker_first_draw_follows_generator() {
    let mut r = Prng::new(12345);
    let expected = r.rnd(3) as usize;
    let mut p: RandomPicker<u32> = RandomPicker::new(Prng::new(12345));
    p.push(10).ok();
    p.push(20).ok();
    p.push(30).ok();
    let first = p.next();
    assert_eq!(first, Some([10, 20, 30][expected]));
}

#[test]
fn random_picker_refuses_beyond_limit() {
    let mut p: RandomPicker<u16> = RandomPicker::new(Prng::new(1));
    for i in 0..MOVE_MAX {
        assert_eq!(p.push(i).ok(), Some(i + 1));
    }
    match p.push(0) {
        Err(LimitSizeError(n)) => assert_eq!(n, MOVE_MAX as usize),
        Ok(_) => panic!("push beyond the limit was accepted"),
    }
    assert_eq!(p.len(), MOVE_MAX as usize);
}

#[test]
fn random_picker_reset_forgets_moves() {
    let mut p: RandomPicker<u8> = RandomPicker::new(Prng::new(7));
    p.push(1).ok();
    p.push(2).ok();
    p.next();
    p.reset();
    assert_eq!(p.len(), 0);
    assert!(p.next().is_none());
    p.push(5).ok();
    assert_eq!(p.next(), Some(5));
}

#[test]
fn random_picker_into_vec_keeps_moves() {
    let mut p: RandomPicker<u8> = RandomPicker::new(Prng::new(99));
    p.push(4).ok();
    p.push(5).ok();
    p.push(6).ok();
    let mut v = p.into_vec();
    v.sort();
    assert_eq!(v, vec![4, 5, 6]);
}

#[test]
fn prng_first_number() {
    let mut r = Prng::new(1);
    let s: u64 = 1 ^ (1 >> 12);
    let s = s ^ (s << 25);
    let s = s ^ (s >> 27);
    assert_eq!(r.rnd64(), s.wrapping_mul(2685821657736338717u64));
}

fn fill_and_drain<P: MovePicker<u32>>(p: &mut P) -> Vec<u32> {
    assert_eq!(MovePicker::push(p, 7).ok(), Some(1));
    assert_eq!(MovePicker::push(p, 8).ok(), Some(2));
    assert_eq!(MovePicker::len(p), 2);
    let mut got = Vec::new();
    while let Some(m) = MovePicker::next(p) {
        got.push(m);
    }
    MovePicker::reset(p);
    assert_eq!(MovePicker::len(p), 0);
    got
}

#[test]
fn random_picker_through_trait() {
    let mut p: RandomPicker<u32> = RandomPicker::new(Prng::new(5));
    let mut got = fill_and_drain(&mut p);
    got.sort();
    assert_eq!(got, vec![7, 8]);
}
