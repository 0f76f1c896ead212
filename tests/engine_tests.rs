use zkp::bignum::BigNum;
use zkp::engine::ZKP;

fn n(v: u32) -> BigNum {
    BigNum::from_u32(v)
}

fn small_group() -> ZKP {
    ZKP::new(n(23), n(11), n(4), n(9)).unwrap()
}

#[test]
fn proto_test() {
    let alpha = n(4);
    let beta = n(9);
    let p = n(23);
    let q = n(11);

    let zkp = ZKP::new(p.duplicate(), q.duplicate(), alpha.duplicate(), beta.duplicate()).unwrap();

    let x = n(6);
    let k = n(7);
    let c = n(4);

    let y1 = ZKP::mod_exp(&alpha, &x, &p);
    let y2 = ZKP::mod_exp(&beta, &x, &p);
    assert_eq!(y1, n(2));
    assert_eq!(y2, n(3));

    let r1 = ZKP::mod_exp(&alpha, &k, &p);
    let r2 = ZKP::mod_exp(&beta, &k, &p);
    assert_eq!(r1, n(8));
    assert_eq!(r2, n(4));

    let s = zkp.solve(&k, &c, &x);
    assert_eq!(s, n(5));

    let result = zkp.verify(&r1, &r2, &y1, &y2, &c, &s);
    assert!(result)
}

#[test]
fn proto_test_random_numbers() {
    let alpha = n(4);
    let beta = n(9);
    let p = n(23);
    let q = n(11);

    let zkp = ZKP::new(p.duplicate(), q.duplicate(), alpha.duplicate(), beta.duplicate()).unwrap();

    let x = n(6);
    let k = ZKP::gen_ran_below(&q);
    let c = ZKP::gen_ran_below(&q);

    let y1 = ZKP::mod_exp(&alpha, &x, &p);
    let y2 = ZKP::mod_exp(&beta, &x, &p);
    assert_eq!(y1, n(2));
    assert_eq!(y2, n(3));

    let r1 = ZKP::mod_exp(&alpha, &k, &p);
    let r2 = ZKP::mod_exp(&beta, &k, &p);

    let s = zkp.solve(&k, &c, &x);

    let result = zkp.verify(&r1, &r2, &y1, &y2, &c, &s);
    assert!(result)
}

#[test]
fn proto_test_1024_bit_constants() {
    let p = BigNum::from_bytes_be(hex::decode("B10B8F96A080E01DDE92DE5EAE5D54EC52C99FBCFB06A3C69A6A9DCA52D23B616073E28675A23D189838EF1E2EE652C013ECB4AEA906112324975C3CD49B83BFACCBDD7D90C4BD7098488E9C219A73724EFFD6FAE5644738FAA31A4FF55BCCC0A151AF5F0DC8B4BD45BF37DF365C1A65E68CFDA76D4DA708DF1FB2BC2E4A4371").unwrap());
    let q = BigNum::from_bytes_be(hex::decode("F518AA8781A8DF278ABA4E7D64B7CB9D49462353").unwrap());
    let alpha = BigNum::from_bytes_be(hex::decode("A4D1CBD5C3FD34126765A442EFB99905F8104DD258AC507FD6406CFF14266D31266FEA1E5C41564B777E690F5504F213160217B4B01B886A5E91547F9E2749F4D7FBD7D3B9A92EE1909D0D2263F80A76A6A24C087A091F531DBF0A0169B6A28AD662A4D18E73AFA32D779D5918D08BC8858F4DCEF97C2A24855E6EEB22B3B2E5").unwrap());

    let beta = ZKP::mod_exp(&alpha, &ZKP::gen_ran_below(&q), &p);

    let zkp = ZKP::new(p.duplicate(), q.duplicate(), alpha.duplicate(), beta.duplicate()).unwrap();

    let x = ZKP::gen_ran_below(&q);
    let k = ZKP::gen_ran_below(&q);
    let c = ZKP::gen_ran_below(&q);

    let y1 = ZKP::mod_exp(&alpha, &x, &p);
    let y2 = ZKP::mod_exp(&beta, &x, &p);

    let r1 = ZKP::mod_exp(&alpha, &k, &p);
    let r2 = ZKP::mod_exp(&beta, &k, &p);

    let s = zkp.solve(&k, &c, &x);

    let result = zkp.verify(&r1, &r2, &y1, &y2, &c, &s);
    assert!(result)
}

#[test]
fn solve_wraps_below_zero() {
    // k - c·x = 2 - 15 = -13, and -13 mod 11 = 9
    let zkp = small_group();
    assert_eq!(zkp.solve(&n(2), &n(5), &n(3)), n(9));
}

#[test]
fn solve_negative_multiple_of_q_is_zero() {
    // k - c·x = 1 - 12 = -11, a multiple of q
    let zkp = small_group();
    assert_eq!(zkp.solve(&n(1), &n(1), &n(12)), n(0));
}

#[test]
fn solve_without_wraparound() {
    // k - c·x = 30 - 4 = 26, and 26 mod 11 = 4
    let zkp = small_group();
    assert_eq!(zkp.solve(&n(30), &n(2), &n(2)), n(4));
}

#[test]
fn wrong_response_is_rejected() {
    let zkp = small_group();
    let (p, alpha, beta) = (n(23), n(4), n(9));
    let (x, k, c) = (n(6), n(7), n(4));
    let y1 = ZKP::mod_exp(&alpha, &x, &p);
    let y2 = ZKP::mod_exp(&beta, &x, &p);
    let r1 = ZKP::mod_exp(&alpha, &k, &p);
    let r2 = ZKP::mod_exp(&beta, &k, &p);
    for bad in [0u32, 1, 2, 3, 4, 6, 7, 8, 9, 10] {
        assert!(!zkp.verify(&r1, &r2, &y1, &y2, &c, &n(bad)));
    }
    assert!(zkp.verify(&r1, &r2, &y1, &y2, &c, &n(5)));
}

#[test]
fn completeness_for_every_nonce_and_challenge() {
    let zkp = small_group();
    let (p, alpha, beta) = (n(23), n(4), n(9));
    for x in 0u32..15 {
        let y1 = ZKP::mod_exp(&alpha, &n(x), &p);
        let y2 = ZKP::mod_exp(&beta, &n(x), &p);
        for k in 0u32..11 {
            let r1 = ZKP::mod_exp(&alpha, &n(k), &p);
            let r2 = ZKP::mod_exp(&beta, &n(k), &p);
            for c in 0u32..11 {
                let s = zkp.solve(&n(k), &n(c), &n(x));
                assert!(zkp.verify(&r1, &r2, &y1, &y2, &n(c), &s));
            }
        }
    }
}

#[test]
fn mod_exp_exact_values() {
    assert_eq!(ZKP::mod_exp(&n(3), &n(0), &n(7)), n(1));
    assert_eq!(ZKP::mod_exp(&n(2), &n(10), &n(1000)), n(24));
    assert_eq!(ZKP::mod_exp(&n(5), &n(3), &n(13)), n(8));
}

#[test]
fn unusable_parameters_are_refused() {
    // q = 7 does not divide p - 1 = 22
    assert!(ZKP::new(n(23), n(7), n(4), n(9)).is_none());
    // 5 has order 22 modulo 23, not 11
    assert!(ZKP::new(n(23), n(11), n(5), n(9)).is_none());
    assert!(ZKP::new(n(1), n(1), n(1), n(1)).is_none());
    assert!(ZKP::new(n(23), n(0), n(4), n(9)).is_none());
}

#[test]
fn published_constants_are_usable() {
    let (alpha, beta, p, q) = ZKP::get_constants();
    assert_eq!(q, BigNum::from_bytes_be(hex::decode("F518AA8781A8DF278ABA4E7D64B7CB9D49462353").unwrap()));
    assert_eq!(p, BigNum::from_bytes_be(hex::decode("B10B8F96A080E01DDE92DE5EAE5D54EC52C99FBCFB06A3C69A6A9DCA52D23B616073E28675A23D189838EF1E2EE652C013ECB4AEA906112324975C3CD49B83BFACCBDD7D90C4BD7098488E9C219A73724EFFD6FAE5644738FAA31A4FF55BCCC0A151AF5F0DC8B4BD45BF37DF365C1A65E68CFDA76D4DA708DF1FB2BC2E4A4371").unwrap()));
    assert_eq!(alpha, BigNum::from_bytes_be(hex::decode("A4D1CBD5C3FD34126765A442EFB99905F8104DD258AC507FD6406CFF14266D31266FEA1E5C41564B777E690F5504F213160217B4B01B886A5E91547F9E2749F4D7FBD7D3B9A92EE1909D0D2263F80A76A6A24C087A091F531DBF0A0169B6A28AD662A4D18E73AFA32D779D5918D08BC8858F4DCEF97C2A24855E6EEB22B3B2E5").unwrap()));
    assert!(beta != alpha);
    assert!(ZKP::new(p, q, alpha, beta).is_some());
}

#[test]
fn random_values_stay_below_bound() {
    let bound = n(3);
    for _ in 0..50 {
        let v = ZKP::gen_ran_below(&bound);
        assert!(v == n(0) || v == n(1) || v == n(2));
    }
}

#[test]
fn random_tokens_are_alphanumeric() {
    let t = ZKP::gen_ran_str(64);
    assert_eq!(t.len(), 64);
    assert!(t.chars().all(|ch| ch.is_ascii_alphanumeric()));
    assert_ne!(t, ZKP::gen_ran_str(64));
}

#[test]
fn bytes_round_trip() {
    let v = BigNum::from_bytes_be(vec![0, 0, 1, 2]);
    assert_eq!(v, n(258));
    assert_eq!(BigNum::from_bytes_be(v.to_bytes_be()), n(258));
    assert_eq!(BigNum::from_bytes_be(vec![]), n(0));
    assert_eq!(ZKP::mod_exp(&n(16), &n(2), &n(100000)).to_bytes_be(), vec![1, 0]);
}
