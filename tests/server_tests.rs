use zkp::bignum::BigNum;
use zkp::engine::ZKP;
use zkp::server::{AuthError, AuthImpl, TOKEN_LEN};

fn n(v: u32) -> BigNum {
    BigNum::from_u32(v)
}

fn small_group() -> ZKP {
    ZKP::new(n(23), n(11), n(4), n(9)).unwrap()
}

/// The prover's side of one registration: `(y1, y2)` for the secret `x`.
fn commitments(x: u32) -> (BigNum, BigNum) {
    (ZKP::mod_exp(&n(4), &n(x), &n(23)), ZKP::mod_exp(&n(9), &n(x), &n(23)))
}

/// Runs a challenge for `user` with nonce `k` and answers it with the secret `x`.
fn login(server: &mut AuthImpl, user: &str, x: u32, k: u32) -> Result<String, AuthError> {
    let zkp = small_group();
    let (r1, r2) = commitments(k);
    let (auth_id, c) = server.create_authentication_challenge(user.to_string(), r1, r2).unwrap();
    let s = zkp.solve(&n(k), &c, &n(x));
    server.verify_authentication(auth_id, s)
}

#[test]
fn challenge_for_unknown_user_is_not_found() {
    let mut server = AuthImpl::new(small_group());
    let r = server.create_authentication_challenge("nobody".to_string(), n(8), n(4));
    match r {
        Err(AuthError::UserNotFound(name)) => assert_eq!(name, "nobody"),
        _ => panic!("expected UserNotFound"),
    }
}

#[test]
fn answer_for_unknown_auth_id_is_not_found() {
    let mut server = AuthImpl::new(small_group());
    let (y1, y2) = commitments(6);
    server.register("alice".to_string(), y1, y2);
    match server.verify_authentication("no-such-id".to_string(), n(5)) {
        Err(AuthError::AuthIdNotFound(id)) => assert_eq!(id, "no-such-id"),
        _ => panic!("expected AuthIdNotFound"),
    }
}

#[test]
fn full_round_is_accepted() {
    let mut server = AuthImpl::new(small_group());
    let (y1, y2) = commitments(6);
    server.register("alice".to_string(), y1, y2);
    let first = login(&mut server, "alice", 6, 7).unwrap();
    assert_eq!(first.len(), TOKEN_LEN);
    let second = login(&mut server, "alice", 6, 3).unwrap();
    assert_eq!(second.len(), TOKEN_LEN);
    assert_ne!(first, second);
}

#[test]
fn challenge_returns_value_below_q() {
    let mut server = AuthImpl::new(small_group());
    let (y1, y2) = commitments(6);
    server.register("alice".to_string(), y1, y2);
    for _ in 0..20 {
        let (auth_id, c) = server.create_authentication_challenge("alice".to_string(), n(8), n(4)).unwrap();
        assert_eq!(auth_id.len(), TOKEN_LEN);
        let mut below = false;
        for v in 0u32..11 {
            below = below || c == n(v);
        }
        assert!(below);
    }
}

#[test]
fn wrong_secret_is_denied() {
    let mut server = AuthImpl::new(small_group());
    let (y1, y2) = commitments(6);
    server.register("alice".to_string(), y1, y2);
    let (r1, r2) = commitments(7);
    let (auth_id, c) = server.create_authentication_challenge("alice".to_string(), r1, r2).unwrap();
    let good = small_group().solve(&n(7), &c, &n(6));
    let mut bad = n(0);
    for v in 0u32..11 {
        if n(v) != good {
            bad = n(v);
        }
    }
    match server.verify_authentication(auth_id.clone(), bad) {
        Err(AuthError::PermissionDenied(id)) => assert_eq!(id, auth_id),
        _ => panic!("expected PermissionDenied"),
    }
    // The challenge stays answerable with the right response.
    assert!(server.verify_authentication(auth_id, good).is_ok());
}

#[test]
fn reregistration_keeps_only_second_secret() {
    let mut server = AuthImpl::new(small_group());
    let (a1, a2) = commitments(6);
    server.register("alice".to_string(), a1, a2);
    let (b1, b2) = commitments(2);
    server.register("alice".to_string(), b1, b2);
    // With c = 0 both secrets give the same response, so fix the round by hand.
    let (r1, r2) = commitments(7);
    server.begin_challenge(&"alice".to_string(), r1, r2, n(4), "round".to_string()).unwrap();
    let old_secret = small_group().solve(&n(7), &n(4), &n(6));
    assert!(matches!(
        server.verify_authentication("round".to_string(), old_secret),
        Err(AuthError::PermissionDenied(_))
    ));
    let new_secret = small_group().solve(&n(7), &n(4), &n(2));
    assert!(server.verify_authentication("round".to_string(), new_secret).is_ok());
}

#[test]
fn interleaved_rounds_of_two_users_are_isolated() {
    let zkp = small_group();
    let mut server = AuthImpl::new(small_group());
    let (a1, a2) = commitments(6);
    let (b1, b2) = commitments(3);
    server.register("alice".to_string(), a1, a2);
    server.register("bob".to_string(), b1, b2);
    let (ra1, ra2) = commitments(7);
    let (rb1, rb2) = commitments(5);
    server.begin_challenge(&"alice".to_string(), ra1, ra2, n(4), "a-id".to_string()).unwrap();
    server.begin_challenge(&"bob".to_string(), rb1, rb2, n(9), "b-id".to_string()).unwrap();
    // Bob answers with a wrong response first; Alice's round is untouched.
    assert!(server.verify_authentication("b-id".to_string(), zkp.solve(&n(5), &n(9), &n(6))).is_err());
    let sa = zkp.solve(&n(7), &n(4), &n(6));
    let sb = zkp.solve(&n(5), &n(9), &n(3));
    assert!(server.verify_authentication("a-id".to_string(), sa).is_ok());
    assert!(server.verify_authentication("b-id".to_string(), sb).is_ok());
}

#[test]
fn begin_challenge_for_unknown_user_changes_nothing() {
    let mut server = AuthImpl::new(small_group());
    let r = server.begin_challenge(&"ghost".to_string(), n(1), n(1), n(1), "id".to_string());
    assert!(matches!(r, Err(AuthError::UserNotFound(_))));
    assert!(matches!(
        server.verify_authentication("id".to_string(), n(0)),
        Err(AuthError::AuthIdNotFound(_))
    ));
}

#[test]
fn complete_challenge_returns_given_token() {
    let zkp = small_group();
    let mut server = AuthImpl::new(small_group());
    let (y1, y2) = commitments(6);
    server.register("alice".to_string(), y1, y2);
    let (r1, r2) = commitments(7);
    server.begin_challenge(&"alice".to_string(), r1, r2, n(4), "id".to_string()).unwrap();
    let r = server.complete_challenge(&"id".to_string(), zkp.solve(&n(7), &n(4), &n(6)), "token".to_string());
    assert_eq!(r.unwrap(), "token");
}

#[test]
fn new_challenge_supersedes_unanswered_one() {
    let zkp = small_group();
    let mut server = AuthImpl::new(small_group());
    let (y1, y2) = commitments(6);
    server.register("alice".to_string(), y1, y2);
    let (r1, r2) = commitments(7);
    server.begin_challenge(&"alice".to_string(), r1, r2, n(4), "old".to_string()).unwrap();
    let (q1, q2) = commitments(2);
    server.begin_challenge(&"alice".to_string(), q1, q2, n(3), "new".to_string()).unwrap();
    // Only the latest round is answerable, under either identifier.
    let s_new = zkp.solve(&n(2), &n(3), &n(6));
    assert!(server.verify_authentication("old".to_string(), s_new.duplicate()).is_ok());
    assert!(server.verify_authentication("new".to_string(), s_new).is_ok());
    assert!(server.verify_authentication("new".to_string(), zkp.solve(&n(7), &n(4), &n(6))).is_err());
}
