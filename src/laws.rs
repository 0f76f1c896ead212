//! What the protocol guarantees, stated over the spec functions that the
//! engine's and the store's contracts use, and proved.
use crate::engine::{accepts, commit, generates_order_q, solve_value, usable, Params};
use crate::server::{
    after_answer, after_challenge, after_register, answer_accepted, answerable, StoreView,
};
use vstd::arithmetic::div_mod::{
    lemma_fundamental_div_mod, lemma_mod_bound, lemma_mod_multiples_vanish, lemma_mod_pos_bound,
    lemma_mul_mod_noop_left, lemma_mul_mod_noop_right, lemma_small_mod,
};
use vstd::arithmetic::power::{lemma1_pow, lemma_pow_adds, lemma_pow_mod_noop, lemma_pow_multiplies};
use vstd::arithmetic::power::pow;
use vstd::prelude::*;

verus! {

/// An exponent of a generator whose `q`-th power is one counts modulo `q`.
proof fn lemma_reduce_exponent(g: nat, e: nat, q: nat, p: nat)
    requires
        p > 1,
        q > 0,
        commit(g, q, p) == 1,
    ensures
        commit(g, e, p) == commit(g, e % q, p),
{
    let t = e / q;
    let r = e % q;
    lemma_fundamental_div_mod(e as int, q as int);
    lemma_mod_pos_bound(e as int, q as int);
    assert(t >= 0) by (nonlinear_arith)
        requires
            e >= 0,
            q > 0,
            t == e / q,
    ;
    let qt = (q * t) as nat;
    assert(e == qt + r);
    lemma_pow_adds(g as int, qt, r as nat);
    lemma_pow_multiplies(g as int, q, t as nat);
    let a = pow(g as int, qt);
    let b = pow(g as int, r as nat);
    lemma_pow_mod_noop(pow(g as int, q), t as nat, p as int);
    lemma1_pow(t as nat);
    lemma_small_mod(1, p);
    assert(a % (p as int) == 1);
    lemma_mul_mod_noop_left(a, b, p as int);
}

/// Multiplying a power of `g` by a power of the commitment `g^x mod p` adds
/// the exponents.
proof fn lemma_combine(g: nat, a: nat, x: nat, c: nat, p: nat)
    requires
        p > 1,
    ensures
        (pow(g as int, a) * pow(commit(g, x, p), c)) % (p as int) == commit(g, a + x * c, p),
{
    let pi = p as int;
    lemma_pow_mod_noop(pow(g as int, x), c, pi);
    lemma_pow_multiplies(g as int, x, c);
    lemma_mul_mod_noop_right(pow(g as int, a), pow(commit(g, x, p), c), pi);
    lemma_mul_mod_noop_right(pow(g as int, a), pow(g as int, x * c), pi);
    lemma_pow_adds(g as int, a, x * c);
}

/// Distinct exponents below `q` of a generator of order exactly `q` give
/// distinct commitments.
proof fn lemma_exponent_injective(g: nat, u: nat, v: nat, q: nat, p: nat)
    requires
        p > 1,
        commit(g, q, p) == 1,
        forall|e: nat| 0 < e < q ==> #[trigger] commit(g, e, p) != 1,
        u < q,
        v < q,
        commit(g, u, p) == commit(g, v, p),
    ensures
        u == v,
{
    if u != v {
        let (lo, hi) = if u < v {
            (u, v)
        } else {
            (v, u)
        };
        let pi = p as int;
        let w = (q - lo) as nat;
        lemma_pow_adds(g as int, w, hi);
        lemma_pow_adds(g as int, w, lo);
        lemma_mul_mod_noop_right(pow(g as int, w), pow(g as int, hi), pi);
        lemma_mul_mod_noop_right(pow(g as int, w), pow(g as int, lo), pi);
        assert(w + lo == q);
        assert(commit(g, w + hi, p) == 1);
        lemma_reduce_exponent(g, w + hi, q, p);
        let d = (hi - lo) as nat;
        assert(w + hi == q + d);
        lemma_mod_multiples_vanish(1, d as int, q as int);
        lemma_small_mod(d, q);
        assert(commit(g, d, p) == 1);
    }
}

/// The response satisfies `s + c·x ≡ k (mod q)`.
proof fn lemma_response_congruence(k: nat, c: nat, x: nat, q: nat)
    requires
        q > 0,
    ensures
        0 <= solve_value(k, c, x, q) < q,
        (solve_value(k, c, x, q) + c * x) % (q as int) == (k as int) % (q as int),
{
    let d = k - c * x;
    let qi = q as int;
    lemma_fundamental_div_mod(d, qi);
    lemma_mod_bound(d, qi);
    let t = d / qi;
    assert(solve_value(k, c, x, q) + c * x == qi * (-t) + k) by (nonlinear_arith)
        requires
            d == qi * t + d % qi,
            d == k - c * x,
            solve_value(k, c, x, q) == d % qi,
    ;
    lemma_mod_multiples_vanish(-t, k as int, qi);
}

/// Completeness: for usable parameters, any secret `x` and any nonce `k` and
/// challenge `c` below `q`, the honest commitments `y = g^x`, `r = g^k` and the
/// response `s = (k - c·x) mod q` pass verification.
pub proof fn completeness(g: Params, x: nat, k: nat, c: nat)
    requires
        usable(g),
        k < g.q,
        c < g.q,
    ensures
        accepts(
            g,
            commit(g.alpha, k, g.p) as nat,
            commit(g.beta, k, g.p) as nat,
            commit(g.alpha, x, g.p) as nat,
            commit(g.beta, x, g.p) as nat,
            c,
            solve_value(k, c, x, g.q) as nat,
        ),
{
    lemma_response_congruence(k, c, x, g.q);
    let s = solve_value(k, c, x, g.q) as nat;
    lemma_mod_bound(pow(g.alpha as int, x), g.p as int);
    lemma_mod_bound(pow(g.beta as int, x), g.p as int);
    lemma_mod_bound(pow(g.alpha as int, k), g.p as int);
    lemma_mod_bound(pow(g.beta as int, k), g.p as int);
    lemma_combine(g.alpha, s, x, c, g.p);
    lemma_combine(g.beta, s, x, c, g.p);
    assert(x * c == c * x) by (nonlinear_arith);
    lemma_reduce_exponent(g.alpha, s + x * c, g.q, g.p);
    lemma_reduce_exponent(g.beta, s + x * c, g.q, g.p);
    lemma_reduce_exponent(g.alpha, k, g.q, g.p);
    lemma_reduce_exponent(g.beta, k, g.q, g.p);
    lemma_small_mod(k, g.q);
}

/// Soundness: where `alpha` has order exactly `q`, a response below `q`
/// other than `(k - c·x) mod q` fails verification against the honest
/// commitments of the same round.
pub proof fn soundness(g: Params, x: nat, k: nat, c: nat, s: nat)
    requires
        generates_order_q(g),
        k < g.q,
        s < g.q,
        s != solve_value(k, c, x, g.q),
    ensures
        !accepts(
            g,
            commit(g.alpha, k, g.p) as nat,
            commit(g.beta, k, g.p) as nat,
            commit(g.alpha, x, g.p) as nat,
            commit(g.beta, x, g.p) as nat,
            c,
            s,
        ),
{
    lemma_mod_bound(pow(g.alpha as int, x), g.p as int);
    lemma_mod_bound(pow(g.alpha as int, k), g.p as int);
    lemma_combine(g.alpha, s, x, c, g.p);
    if accepts(
        g,
        commit(g.alpha, k, g.p) as nat,
        commit(g.beta, k, g.p) as nat,
        commit(g.alpha, x, g.p) as nat,
        commit(g.beta, x, g.p) as nat,
        c,
        s,
    ) {
        let qi = g.q as int;
        let sum: int = (s + x * c) as int;
        let u = (sum % qi) as nat;
        lemma_mod_pos_bound(sum, qi);
        lemma_reduce_exponent(g.alpha, s + x * c, g.q, g.p);
        lemma_reduce_exponent(g.alpha, k, g.q, g.p);
        lemma_small_mod(k, g.q);
        lemma_exponent_injective(g.alpha, u, k, g.q, g.p);
        // s + x·c ≡ k and s < q pin s down as the response.
        let t = sum / qi;
        lemma_fundamental_div_mod(sum, qi);
        assert(k - c * x == qi * (-t) + s) by (nonlinear_arith)
            requires
                sum == s + x * c,
                sum == qi * t + u,
                u == k,
        ;
        lemma_mod_multiples_vanish(-t, s as int, qi);
        lemma_small_mod(s, g.q);
        assert(false);
    }
}

/// A full honest round for a freshly registered user: register `y = g^x`,
/// open a challenge with `r = g^k` under `auth_id`, answer with
/// `s = (k - c·x) mod q`. The answer is accepted and the record ends holding
/// the new `session_id`.
pub proof fn honest_round_accepted(
    g: Params,
    v: StoreView,
    name: Seq<char>,
    x: nat,
    k: nat,
    c: nat,
    auth_id: Seq<char>,
    session_id: Seq<char>,
)
    requires
        usable(g),
        k < g.q,
        c < g.q,
    ensures
        ({
            let v1 = after_register(v, name, commit(g.alpha, x, g.p) as nat, commit(g.beta, x, g.p) as nat);
            let v2 = after_challenge(
                v1,
                name,
                commit(g.alpha, k, g.p) as nat,
                commit(g.beta, k, g.p) as nat,
                c,
                auth_id,
            );
            let s = solve_value(k, c, x, g.q) as nat;
            &&& answerable(v2, auth_id)
            &&& answer_accepted(g, v2, auth_id, s)
            &&& after_answer(g, v2, auth_id, s, session_id).users[name].session_id == session_id
        }),
{
    completeness(g, x, k, c);
}

/// Registering a name again replaces the first commitments: the store is as
/// if only the second registration had happened, and in the next round the
/// second secret's response is accepted while a response of the first secret
/// that differs from it is rejected.
pub proof fn reregistration_replaces(
    g: Params,
    v: StoreView,
    name: Seq<char>,
    x1: nat,
    x2: nat,
    k: nat,
    c: nat,
    auth_id: Seq<char>,
)
    requires
        generates_order_q(g),
        k < g.q,
        c < g.q,
        solve_value(k, c, x1, g.q) != solve_value(k, c, x2, g.q),
    ensures
        ({
            let first = after_register(
                v,
                name,
                commit(g.alpha, x1, g.p) as nat,
                commit(g.beta, x1, g.p) as nat,
            );
            let both = after_register(
                first,
                name,
                commit(g.alpha, x2, g.p) as nat,
                commit(g.beta, x2, g.p) as nat,
            );
            let round = after_challenge(
                both,
                name,
                commit(g.alpha, k, g.p) as nat,
                commit(g.beta, k, g.p) as nat,
                c,
                auth_id,
            );
            &&& both == after_register(
                v,
                name,
                commit(g.alpha, x2, g.p) as nat,
                commit(g.beta, x2, g.p) as nat,
            )
            &&& answer_accepted(g, round, auth_id, solve_value(k, c, x2, g.q) as nat)
            &&& !answer_accepted(g, round, auth_id, solve_value(k, c, x1, g.q) as nat)
        }),
{
    let y1 = commit(g.alpha, x2, g.p) as nat;
    let y2 = commit(g.beta, x2, g.p) as nat;
    let first = after_register(v, name, commit(g.alpha, x1, g.p) as nat, commit(g.beta, x1, g.p) as nat);
    let both = after_register(first, name, y1, y2);
    assert(both.users =~= after_register(v, name, y1, y2).users);
    completeness(g, x2, k, c);
    lemma_response_congruence(k, c, x1, g.q);
    soundness(g, x2, k, c, solve_value(k, c, x1, g.q) as nat);
}

/// The part of a store that one user's round reads: the record of `name` and
/// the pending challenge `auth_id`.
pub open spec fn same_round(v: StoreView, w: StoreView, name: Seq<char>, auth_id: Seq<char>) -> bool {
    &&& v.users.contains_key(name) == w.users.contains_key(name)
    &&& v.users.contains_key(name) ==> v.users[name] == w.users[name]
    &&& v.auth.contains_key(auth_id) == w.auth.contains_key(auth_id)
    &&& v.auth.contains_key(auth_id) ==> v.auth[auth_id] == w.auth[auth_id]
}

/// Isolation across users: an operation on another user `other` (register,
/// a challenge under another `other_id`, an answer under an `other_id` that
/// is not `name`'s) leaves `name`'s record and challenge `auth_id` as they
/// were, so however two users' rounds interleave, each answer for `name` is
/// judged on `name`'s own round alone.
pub proof fn isolation(
    g: Params,
    v: StoreView,
    name: Seq<char>,
    auth_id: Seq<char>,
    other: Seq<char>,
    other_id: Seq<char>,
    y1: nat,
    y2: nat,
    r1: nat,
    r2: nat,
    c: nat,
    s: nat,
    session_id: Seq<char>,
)
    requires
        name != other,
        auth_id != other_id,
        !(v.auth.contains_key(other_id) && v.auth[other_id] == name),
    ensures
        same_round(v, after_register(v, other, y1, y2), name, auth_id),
        same_round(v, after_challenge(v, other, r1, r2, c, other_id), name, auth_id),
        same_round(v, after_answer(g, v, other_id, s, session_id), name, auth_id),
        forall|w: StoreView, s2: nat|
            same_round(v, w, name, auth_id) && answerable(v, auth_id) && v.auth[auth_id] == name
                ==> answerable(w, auth_id) && answer_accepted(g, w, auth_id, s2) == answer_accepted(
                g,
                v,
                auth_id,
                s2,
            ),
{
}

} // verus!
