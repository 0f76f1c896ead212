//! The server side of the protocol: the session store of user records and
//! pending challenges, and the three operations Register, CreateChallenge and
//! VerifyAnswer as transitions of a state machine.
//!
//! The store holds no lock of its own: it is driven through `&mut self`, so a
//! caller that shares it between concurrent requests holds it behind one lock,
//! which serialises every read-modify-write of a record.
use crate::bignum::BigNum;
use crate::engine::{accepts, Params, ZKP};
use vstd::prelude::*;

verus! {

/// Length, in ASCII letters and digits, of each `auth_id` and `session_id`.
pub const TOKEN_LEN: usize = 1000;

/// A registered user's record: the registration commitments `y1, y2`, the
/// commitments `r1, r2` and challenge `c` of the current round, the last
/// response `s`, and the last session token issued.
pub struct UserInfo {
    pub username: String,
    pub y1: BigNum,
    pub y2: BigNum,
    pub r1: BigNum,
    pub r2: BigNum,
    pub c: BigNum,
    pub s: BigNum,
    pub session_id: String,
}

/// A user record, as numbers and character sequences.
pub ghost struct UserView {
    pub username: Seq<char>,
    pub y1: nat,
    pub y2: nat,
    pub r1: nat,
    pub r2: nat,
    pub c: nat,
    pub s: nat,
    pub session_id: Seq<char>,
}

impl View for UserInfo {
    type V = UserView;

    open spec fn view(&self) -> UserView {
        UserView {
            username: self.username@,
            y1: self.y1@,
            y2: self.y2@,
            r1: self.r1@,
            r2: self.r2@,
            c: self.c@,
            s: self.s@,
            session_id: self.session_id@,
        }
    }
}

/// The store's state: each user's record by name, and the user each issued
/// `auth_id` belongs to.
pub ghost struct StoreView {
    pub users: Map<Seq<char>, UserView>,
    pub auth: Map<Seq<char>, Seq<char>>,
}

/// Why an operation was refused; each variant carries the identifier at fault.
#[derive(Debug)]
pub enum AuthError {
    /// No user of this name is registered.
    UserNotFound(String),
    /// No challenge was issued under this `auth_id`.
    AuthIdNotFound(String),
    /// The response to the challenge under this `auth_id` does not verify.
    PermissionDenied(String),
}

/// A freshly registered record: commitments `y1, y2`, no round yet.
pub open spec fn fresh_user(name: Seq<char>, y1: nat, y2: nat) -> UserView {
    UserView {
        username: name,
        y1,
        y2,
        r1: 0,
        r2: 0,
        c: 0,
        s: 0,
        session_id: Seq::empty(),
    }
}

/// Register: the record of `name` is replaced by a fresh one.
pub open spec fn after_register(v: StoreView, name: Seq<char>, y1: nat, y2: nat) -> StoreView {
    StoreView { users: v.users.insert(name, fresh_user(name, y1, y2)), auth: v.auth }
}

/// CreateChallenge: a registered user's round becomes `(r1, r2, c)` and
/// `auth_id` is recorded as theirs; for an unknown name nothing changes.
pub open spec fn after_challenge(
    v: StoreView,
    name: Seq<char>,
    r1: nat,
    r2: nat,
    c: nat,
    auth_id: Seq<char>,
) -> StoreView {
    if v.users.contains_key(name) {
        StoreView {
            users: v.users.insert(name, UserView { r1, r2, c, ..v.users[name] }),
            auth: v.auth.insert(auth_id, name),
        }
    } else {
        v
    }
}

/// Whether `auth_id` was issued to a user who has a record.
pub open spec fn answerable(v: StoreView, auth_id: Seq<char>) -> bool {
    v.auth.contains_key(auth_id) && v.users.contains_key(v.auth[auth_id])
}

/// Whether `s` answers the current round of the user that `auth_id` was
/// issued to.
pub open spec fn answer_accepted(g: Params, v: StoreView, auth_id: Seq<char>, s: nat) -> bool {
    let u = v.users[v.auth[auth_id]];
    accepts(g, u.r1, u.r2, u.y1, u.y2, u.c, s)
}

/// VerifyAnswer: the response `s` is stored in the record that `auth_id`
/// leads to, and on acceptance so is the new `session_id`; for an unknown
/// `auth_id` nothing changes.
pub open spec fn after_answer(
    g: Params,
    v: StoreView,
    auth_id: Seq<char>,
    s: nat,
    session_id: Seq<char>,
) -> StoreView {
    if answerable(v, auth_id) {
        let name = v.auth[auth_id];
        let u = v.users[name];
        let nu = if answer_accepted(g, v, auth_id, s) {
            UserView { s, session_id, ..u }
        } else {
            UserView { s, ..u }
        };
        StoreView { users: v.users.insert(name, nu), auth: v.auth }
    } else {
        v
    }
}

/// `users` holds exactly the records of `m`, one per name.
spec fn users_match(users: Seq<UserInfo>, m: Map<Seq<char>, UserView>) -> bool {
    &&& forall|i: int|
        0 <= i < users.len() ==> {
            &&& m.contains_key(#[trigger] users[i].username@)
            &&& m[users[i].username@] == users[i]@
        }
    &&& forall|n: Seq<char>|
        #[trigger] m.contains_key(n) ==> exists|i: int|
            0 <= i < users.len() && #[trigger] users[i].username@ == n
    &&& forall|i: int, j: int|
        0 <= i < users.len() && 0 <= j < users.len() && i != j ==> #[trigger] users[i].username@
            != #[trigger] users[j].username@
}

/// `auth` holds exactly the pairs of `m`, one per `auth_id`.
spec fn auth_match(auth: Seq<(String, String)>, m: Map<Seq<char>, Seq<char>>) -> bool {
    &&& forall|i: int|
        0 <= i < auth.len() ==> {
            &&& m.contains_key(#[trigger] auth[i].0@)
            &&& m[auth[i].0@] == auth[i].1@
        }
    &&& forall|n: Seq<char>|
        #[trigger] m.contains_key(n) ==> exists|i: int| 0 <= i < auth.len() && #[trigger] auth[i].0@ == n
    &&& forall|i: int, j: int|
        0 <= i < auth.len() && 0 <= j < auth.len() && i != j ==> #[trigger] auth[i].0@
            != #[trigger] auth[j].0@
}

proof fn lemma_users_set(users: Seq<UserInfo>, m: Map<Seq<char>, UserView>, i: int, info: UserInfo)
    requires
        users_match(users, m),
        0 <= i < users.len(),
        info.username@ == users[i].username@,
    ensures
        users_match(users.update(i, info), m.insert(info.username@, info@)),
{
    let u2 = users.update(i, info);
    let m2 = m.insert(info.username@, info@);
    assert forall|j: int| 0 <= j < u2.len() implies #[trigger] u2[j].username@ == users[j].username@ by {}
    assert forall|j: int| 0 <= j < u2.len() implies {
        &&& m2.contains_key(#[trigger] u2[j].username@)
        &&& m2[u2[j].username@] == u2[j]@
    } by {
        if j != i {
            assert(users[j].username@ != users[i].username@);
        }
    }
    assert forall|n: Seq<char>| #[trigger] m2.contains_key(n) implies exists|j: int|
        0 <= j < u2.len() && #[trigger] u2[j].username@ == n by {
        if n == info.username@ {
            assert(u2[i].username@ == n);
        } else {
            let j = choose|j: int| 0 <= j < users.len() && #[trigger] users[j].username@ == n;
            assert(u2[j].username@ == n);
        }
    }
}

proof fn lemma_users_push(users: Seq<UserInfo>, m: Map<Seq<char>, UserView>, info: UserInfo)
    requires
        users_match(users, m),
        !m.contains_key(info.username@),
    ensures
        users_match(users.push(info), m.insert(info.username@, info@)),
{
    let u2 = users.push(info);
    let m2 = m.insert(info.username@, info@);
    assert forall|j: int| 0 <= j < users.len() implies #[trigger] u2[j] == users[j] by {}
    assert forall|n: Seq<char>| #[trigger] m2.contains_key(n) implies exists|j: int|
        0 <= j < u2.len() && #[trigger] u2[j].username@ == n by {
        if n == info.username@ {
            assert(u2[users.len() as int].username@ == n);
        } else {
            let j = choose|j: int| 0 <= j < users.len() && #[trigger] users[j].username@ == n;
            assert(u2[j].username@ == n);
        }
    }
    assert forall|a: int, b: int|
        0 <= a < u2.len() && 0 <= b < u2.len() && a != b implies #[trigger] u2[a].username@
        != #[trigger] u2[b].username@ by {
        if a < users.len() && b < users.len() {
        } else if a < users.len() {
            assert(m.contains_key(users[a].username@));
        } else {
            assert(m.contains_key(users[b].username@));
        }
    }
}

proof fn lemma_auth_set(
    auth: Seq<(String, String)>,
    m: Map<Seq<char>, Seq<char>>,
    i: int,
    entry: (String, String),
)
    requires
        auth_match(auth, m),
        0 <= i < auth.len(),
        entry.0@ == auth[i].0@,
    ensures
        auth_match(auth.update(i, entry), m.insert(entry.0@, entry.1@)),
{
    let a2 = auth.update(i, entry);
    let m2 = m.insert(entry.0@, entry.1@);
    assert forall|j: int| 0 <= j < a2.len() implies #[trigger] a2[j].0@ == auth[j].0@ by {}
    assert forall|j: int| 0 <= j < a2.len() implies {
        &&& m2.contains_key(#[trigger] a2[j].0@)
        &&& m2[a2[j].0@] == a2[j].1@
    } by {
        if j != i {
            assert(auth[j].0@ != auth[i].0@);
        }
    }
    assert forall|n: Seq<char>| #[trigger] m2.contains_key(n) implies exists|j: int|
        0 <= j < a2.len() && #[trigger] a2[j].0@ == n by {
        if n == entry.0@ {
            assert(a2[i].0@ == n);
        } else {
            let j = choose|j: int| 0 <= j < auth.len() && #[trigger] auth[j].0@ == n;
            assert(a2[j].0@ == n);
        }
    }
}

proof fn lemma_auth_push(auth: Seq<(String, String)>, m: Map<Seq<char>, Seq<char>>, entry: (String, String))
    requires
        auth_match(auth, m),
        !m.contains_key(entry.0@),
    ensures
        auth_match(auth.push(entry), m.insert(entry.0@, entry.1@)),
{
    let a2 = auth.push(entry);
    let m2 = m.insert(entry.0@, entry.1@);
    assert forall|j: int| 0 <= j < auth.len() implies #[trigger] a2[j] == auth[j] by {}
    assert forall|n: Seq<char>| #[trigger] m2.contains_key(n) implies exists|j: int|
        0 <= j < a2.len() && #[trigger] a2[j].0@ == n by {
        if n == entry.0@ {
            assert(a2[auth.len() as int].0@ == n);
        } else {
            let j = choose|j: int| 0 <= j < auth.len() && #[trigger] auth[j].0@ == n;
            assert(a2[j].0@ == n);
        }
    }
    assert forall|a: int, b: int|
        0 <= a < a2.len() && 0 <= b < a2.len() && a != b implies #[trigger] a2[a].0@
        != #[trigger] a2[b].0@ by {
        if a < auth.len() && b < auth.len() {
        } else if a < auth.len() {
            assert(m.contains_key(auth[a].0@));
        } else {
            assert(m.contains_key(auth[b].0@));
        }
    }
}

/// The session store and the protocol's three operations over fixed domain
/// parameters.
pub struct AuthImpl {
    zkp: ZKP,
    user_info: Vec<UserInfo>,
    auth_id_to_user: Vec<(String, String)>,
    state: Ghost<StoreView>,
}

impl View for AuthImpl {
    type V = StoreView;

    closed spec fn view(&self) -> StoreView {
        self.state@
    }
}

impl AuthImpl {
    /// The domain parameters the store verifies against.
    pub closed spec fn params(&self) -> Params {
        self.zkp@
    }

    /// The records and pending challenges are those of the view, with one
    /// entry per name and per `auth_id`.
    pub closed spec fn wf(&self) -> bool {
        &&& self.zkp.wf()
        &&& users_match(self.user_info@, self.state@.users)
        &&& auth_match(self.auth_id_to_user@, self.state@.auth)
    }

    /// An empty store over the parameters `zkp`.
    pub fn new(zkp: ZKP) -> (r: AuthImpl)
        requires
            zkp.wf(),
        ensures
            r.wf(),
            r.params() == zkp@,
            r@.users == Map::<Seq<char>, UserView>::empty(),
            r@.auth == Map::<Seq<char>, Seq<char>>::empty(),
    {
        AuthImpl {
            zkp,
            user_info: Vec::new(),
            auth_id_to_user: Vec::new(),
            state: Ghost(StoreView { users: Map::empty(), auth: Map::empty() }),
        }
    }

    /// Index of the record of `name`, if there is one.
    fn find_user(&self, name: &String) -> (r: Option<usize>)
        requires
            self.wf(),
        ensures
            r is None ==> !self@.users.contains_key(name@),
            r is Some ==> r->0 < self.user_info@.len() && self.user_info@[r->0 as int].username@
                == name@,
    {
        let mut i: usize = 0;
        while i < self.user_info.len()
            invariant
                self.wf(),
                i <= self.user_info@.len(),
                forall|j: int| 0 <= j < i ==> #[trigger] self.user_info@[j].username@ != name@,
            decreases self.user_info@.len() - i,
        {
            if self.user_info[i].username == *name {
                return Some(i);
            }
            i = i + 1;
        }
        None
    }

    /// Index of the pending challenge `auth_id`, if there is one.
    fn find_auth(&self, auth_id: &String) -> (r: Option<usize>)
        requires
            self.wf(),
        ensures
            r is None ==> !self@.auth.contains_key(auth_id@),
            r is Some ==> r->0 < self.auth_id_to_user@.len() && self.auth_id_to_user@[r->0 as int].0@
                == auth_id@,
    {
        let mut i: usize = 0;
        while i < self.auth_id_to_user.len()
            invariant
                self.wf(),
                i <= self.auth_id_to_user@.len(),
                forall|j: int| 0 <= j < i ==> #[trigger] self.auth_id_to_user@[j].0@ != auth_id@,
            decreases self.auth_id_to_user@.len() - i,
        {
            if self.auth_id_to_user[i].0 == *auth_id {
                return Some(i);
            }
            i = i + 1;
        }
        None
    }

    /// Register: records `username` with the commitments `y1, y2`, replacing
    /// any earlier record of that name and its round.
    pub fn register(&mut self, username: String, y1: BigNum, y2: BigNum)
        requires
            old(self).wf(),
        ensures
            final(self).wf(),
            final(self).params() == old(self).params(),
            final(self)@ == after_register(old(self)@, username@, y1@, y2@),
    {
        let ghost next = after_register(self.state@, username@, y1@, y2@);
        let info = UserInfo {
            username: username.clone(),
            y1,
            y2,
            r1: BigNum::from_u32(0),
            r2: BigNum::from_u32(0),
            c: BigNum::from_u32(0),
            s: BigNum::from_u32(0),
            session_id: String::new(),
        };
        assert(info@ == fresh_user(username@, y1@, y2@));
        match self.find_user(&username) {
            Some(i) => {
                proof {
                    lemma_users_set(self.user_info@, self.state@.users, i as int, info);
                }
                self.user_info.set(i, info);
            },
            None => {
                proof {
                    lemma_users_push(self.user_info@, self.state@.users, info);
                }
                self.user_info.push(info);
            },
        }
        self.state = Ghost(next);
    }

    /// CreateChallenge with the challenge `c` and identifier `auth_id`
    /// given: for a registered `username`, stores the round `(r1, r2, c)` in
    /// its record and records `auth_id` as theirs; otherwise fails with
    /// `UserNotFound` and changes nothing.
    pub fn begin_challenge(
        &mut self,
        username: &String,
        r1: BigNum,
        r2: BigNum,
        c: BigNum,
        auth_id: String,
    ) -> (r: Result<(), AuthError>)
        requires
            old(self).wf(),
        ensures
            final(self).wf(),
            final(self).params() == old(self).params(),
            final(self)@ == after_challenge(old(self)@, username@, r1@, r2@, c@, auth_id@),
            r is Ok <==> old(self)@.users.contains_key(username@),
            r is Err ==> r->Err_0 is UserNotFound && r->Err_0->UserNotFound_0@ == username@,
    {
        let ghost next = after_challenge(self.state@, username@, r1@, r2@, c@, auth_id@);
        match self.find_user(username) {
            None => Err(AuthError::UserNotFound(username.clone())),
            Some(i) => {
                let cur = &self.user_info[i];
                let info = UserInfo {
                    username: cur.username.clone(),
                    y1: cur.y1.duplicate(),
                    y2: cur.y2.duplicate(),
                    r1,
                    r2,
                    c,
                    s: cur.s.duplicate(),
                    session_id: cur.session_id.clone(),
                };
                proof {
                    lemma_users_set(self.user_info@, self.state@.users, i as int, info);
                }
                let found = self.find_auth(&auth_id);
                self.user_info.set(i, info);
                let entry = (auth_id.clone(), username.clone());
                match found {
                    Some(j) => {
                        proof {
                            lemma_auth_set(self.auth_id_to_user@, self.state@.auth, j as int, entry);
                        }
                        self.auth_id_to_user.set(j, entry);
                    },
                    None => {
                        proof {
                            lemma_auth_push(self.auth_id_to_user@, self.state@.auth, entry);
                        }
                        self.auth_id_to_user.push(entry);
                    },
                }
                self.state = Ghost(next);
                Ok(())
            },
        }
    }

    /// VerifyAnswer with the new session token given: for an `auth_id` that
    /// leads to a record, stores the response `s` there and checks it against
    /// the record's round; on success stores and returns `session_id`, else
    /// fails with `PermissionDenied`. An unknown `auth_id` fails with
    /// `AuthIdNotFound` and changes nothing.
    pub fn complete_challenge(&mut self, auth_id: &String, s: BigNum, session_id: String) -> (r:
        Result<String, AuthError>)
        requires
            old(self).wf(),
        ensures
            final(self).wf(),
            final(self).params() == old(self).params(),
            final(self)@ == after_answer(old(self).params(), old(self)@, auth_id@, s@, session_id@),
            !answerable(old(self)@, auth_id@) ==> r is Err && r->Err_0 is AuthIdNotFound
                && r->Err_0->AuthIdNotFound_0@ == auth_id@,
            answerable(old(self)@, auth_id@) && answer_accepted(old(self).params(), old(self)@, auth_id@, s@)
                ==> r is Ok && r->Ok_0@ == session_id@,
            answerable(old(self)@, auth_id@) && !answer_accepted(old(self).params(), old(self)@, auth_id@, s@)
                ==> r is Err && r->Err_0 is PermissionDenied && r->Err_0->PermissionDenied_0@ == auth_id@,
    {
        let ghost next = after_answer(self.zkp@, self.state@, auth_id@, s@, session_id@);
        let j = match self.find_auth(auth_id) {
            None => {
                return Err(AuthError::AuthIdNotFound(auth_id.clone()));
            },
            Some(j) => j,
        };
        let name = self.auth_id_to_user[j].1.clone();
        let i = match self.find_user(&name) {
            None => {
                return Err(AuthError::AuthIdNotFound(auth_id.clone()));
            },
            Some(i) => i,
        };
        let cur = &self.user_info[i];
        let accepted = self.zkp.verify(&cur.r1, &cur.r2, &cur.y1, &cur.y2, &cur.c, &s);
        let kept_session = if accepted {
            session_id.clone()
        } else {
            cur.session_id.clone()
        };
        let info = UserInfo {
            username: cur.username.clone(),
            y1: cur.y1.duplicate(),
            y2: cur.y2.duplicate(),
            r1: cur.r1.duplicate(),
            r2: cur.r2.duplicate(),
            c: cur.c.duplicate(),
            s,
            session_id: kept_session,
        };
        proof {
            lemma_users_set(self.user_info@, self.state@.users, i as int, info);
        }
        self.user_info.set(i, info);
        self.state = Ghost(next);
        if accepted {
            Ok(session_id)
        } else {
            Err(AuthError::PermissionDenied(auth_id.clone()))
        }
    }
    /// CreateChallenge: for a registered `username`, draws a challenge `c`
    /// below `q` and a fresh `auth_id`, stores the round `(r1, r2, c)` and
    /// returns `(auth_id, c)`; otherwise fails with `UserNotFound` and changes
    /// nothing.
    pub fn create_authentication_challenge(&mut self, username: String, r1: BigNum, r2: BigNum) -> (r:
        Result<(String, BigNum), AuthError>)
        requires
            old(self).wf(),
        ensures
            final(self).wf(),
            final(self).params() == old(self).params(),
            r is Ok <==> old(self)@.users.contains_key(username@),
            r is Ok ==> {
                &&& r->Ok_0.1@ < old(self).params().q
                &&& r->Ok_0.0@.len() == TOKEN_LEN
                &&& final(self)@ == after_challenge(
                    old(self)@,
                    username@,
                    r1@,
                    r2@,
                    r->Ok_0.1@,
                    r->Ok_0.0@,
                )
            },
            r is Err ==> r->Err_0 is UserNotFound && r->Err_0->UserNotFound_0@ == username@
                && final(self)@ == old(self)@,
    {
        let q = self.zkp.order();
        let c = ZKP::gen_ran_below(&q);
        let auth_id = ZKP::gen_ran_str(TOKEN_LEN);
        let reply_c = c.duplicate();
        let reply_id = auth_id.clone();
        match self.begin_challenge(&username, r1, r2, c, auth_id) {
            Ok(()) => Ok((reply_id, reply_c)),
            Err(e) => Err(e),
        }
    }

    /// VerifyAnswer: for an `auth_id` that leads to a record, stores the
    /// response `s` and checks it against the record's round; on success
    /// draws, stores and returns a fresh `session_id`, else fails with
    /// `PermissionDenied`. An unknown `auth_id` fails with `AuthIdNotFound` and
    /// changes nothing.
    pub fn verify_authentication(&mut self, auth_id: String, s: BigNum) -> (r: Result<String, AuthError>)
        requires
            old(self).wf(),
        ensures
            final(self).wf(),
            final(self).params() == old(self).params(),
            !answerable(old(self)@, auth_id@) ==> r is Err && r->Err_0 is AuthIdNotFound
                && r->Err_0->AuthIdNotFound_0@ == auth_id@ && final(self)@ == old(self)@,
            answerable(old(self)@, auth_id@) && answer_accepted(old(self).params(), old(self)@, auth_id@, s@)
                ==> r is Ok && r->Ok_0@.len() == TOKEN_LEN && final(self)@ == after_answer(
                old(self).params(),
                old(self)@,
                auth_id@,
                s@,
                r->Ok_0@,
            ),
            answerable(old(self)@, auth_id@) && !answer_accepted(old(self).params(), old(self)@, auth_id@, s@)
                ==> r is Err && r->Err_0 is PermissionDenied && r->Err_0->PermissionDenied_0@ == auth_id@
                && final(self)@ == after_answer(old(self).params(), old(self)@, auth_id@, s@, Seq::empty()),
    {
        let session_id = ZKP::gen_ran_str(TOKEN_LEN);
        self.complete_challenge(&auth_id, s, session_id)
    }
}

} // verus!
