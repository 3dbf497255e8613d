use mc173::rand::JavaRandom;

fn digest(n: i32, count: usize) -> (i64, u64, Vec<i32>) {
    let mut rand = JavaRandom::new(0);
    let mut sum: i64 = 0;
    let mut hash: u64 = 0;
    let mut first = Vec::new();
    for i in 0..count {
        let v = rand.next_int_bounded(n);
        assert!(v >= 0 && v < n);
        sum += v as i64;
        hash = ((hash as u128 * 31 + v as u128) % ((1u128 << 61) - 1)) as u64;
        if i < 8 {
            first.push(v);
        }
    }
    (sum, hash, first)
}

#[test]
fn next_int_matches_reference_for_seeds_zero_and_42() {
    assert_eq!(JavaRandom::new(0).next_int(), -1155484576);
    assert_eq!(JavaRandom::new(42).next_int(), -1170105035);
}

#[test]
fn bounded_ten_matches_reference_sequence() {
    let mut rand = JavaRandom::new(0);
    let seq: Vec<i32> = (0..10).map(|_| rand.next_int_bounded(10)).collect();
    assert_eq!(seq, vec![0, 8, 9, 7, 5, 3, 1, 1, 9, 4]);
}

#[test]
fn bounded_hundred_matches_reference_sequence() {
    let mut rand = JavaRandom::new(0);
    let seq: Vec<i32> = (0..5).map(|_| rand.next_int_bounded(100)).collect();
    assert_eq!(seq, vec![60, 48, 29, 47, 15]);
}

#[test]
fn thousand_bounded_draws_match_reference() {
    assert_eq!(digest(2, 1000), (492, 760813947087211682, vec![1, 1, 0, 1, 1, 0, 1, 0]));
    assert_eq!(digest(3, 1000), (964, 1560452257107642662, vec![0, 1, 1, 2, 2, 2, 2, 0]));
    assert_eq!(digest(10, 1000), (4524, 1888848334739122841, vec![0, 8, 9, 7, 5, 3, 1, 1]));
    assert_eq!(digest(16, 1000), (7336, 949840194032741843, vec![11, 13, 3, 9, 10, 4, 8, 1]));
    assert_eq!(digest(100, 1000), (49664, 898323352104603521, vec![60, 48, 29, 47, 15, 53, 91, 61]));
}

#[test]
fn double_bits_match_reference() {
    let mut rand = JavaRandom::new(0);
    assert_eq!(rand.next_double_bits(), 6583972509698697);
    assert_eq!(rand.next_double_bits(), 2166559423974277);
    let mut rand = JavaRandom::new(0);
    let d = rand.next_double_bits() as f64 / (1u64 << 53) as f64;
    assert!((d - 0.730967787376657).abs() < 1e-12);
}

#[test]
fn set_seed_restarts_the_sequence() {
    let mut rand = JavaRandom::new(7);
    let a = rand.next_int();
    rand.set_seed(7);
    assert_eq!(rand.next_int(), a);
    assert_eq!(JavaRandom::from_state(rand.state()).state(), rand.state());
}
