//! The login/token gate: per-user login tokens, their one-hour validity
//! window, and expiry handling.
//!
//! Time enters as a seconds count supplied by the caller; a clock that went
//! backwards (now before a token's issue time) counts as maximally expired.

use vstd::prelude::*;

use crate::kvmap::KvMap;
use crate::rng;
use crate::rng::is_alnum_chars;

verus! {

/// Seconds a login token is valid.
pub const VALID_LOGIN_SECS: u64 = 3600;

/// True while a token issued at `issued` is still valid at `now`.
pub open spec fn unexpired(issued: u64, now: u64) -> bool {
    issued <= now && now - issued < VALID_LOGIN_SECS
}

/// A token list with its expired entries dropped, order kept.
pub open spec fn purge(s: Seq<(String, u64)>, now: u64) -> Seq<(String, u64)>
    decreases s.len(),
{
    if s.len() == 0 {
        Seq::empty()
    } else {
        let p = purge(s.drop_last(), now);
        if unexpired(s.last().1, now) {
            p.push(s.last())
        } else {
            p
        }
    }
}

/// A token list with one token's entries and all expired entries dropped.
pub open spec fn drop_token(s: Seq<(String, u64)>, token: Seq<char>, now: u64) -> Seq<
    (String, u64),
>
    decreases s.len(),
{
    if s.len() == 0 {
        Seq::empty()
    } else {
        let p = drop_token(s.drop_last(), token, now);
        if s.last().0@ != token && unexpired(s.last().1, now) {
            p.push(s.last())
        } else {
            p
        }
    }
}

/// True when `user` holds `token` and it is unexpired at `now`.
pub open spec fn spec_valid(
    m: Map<Seq<char>, Vec<(String, u64)>>,
    user: Seq<char>,
    token: Seq<char>,
    now: u64,
) -> bool {
    m.dom().contains(user) && exists|i: int|
        0 <= i < m[user]@.len() && (#[trigger] m[user]@[i]).0@ == token && unexpired(
            m[user]@[i].1,
            now,
        )
}

/// User login/token management: each user name maps to the list of
/// (token, issue time) pairs it holds.
pub struct UserLogins {
    user_logins: KvMap<Vec<(String, u64)>>,
}

impl UserLogins {
    pub closed spec fn wf(&self) -> bool {
        self.user_logins.wf()
    }

    /// An empty gate: no user holds a token.
    pub fn new() -> (r: Self)
        ensures
            r.wf(),
            r@ == Map::<Seq<char>, Vec<(String, u64)>>::empty(),
    {
        UserLogins { user_logins: KvMap::new() }
    }

    /// Whether a login is expired at `now`; does not mutate anything.
    pub fn check_unexpired(issued: u64, now: u64) -> (r: bool)
        ensures
            r == unexpired(issued, now),
    {
        now >= issued && now - issued < VALID_LOGIN_SECS
    }

    /// Drops expired entries from a token list, in place, keeping order.
    pub fn remove_expired(logins: &mut Vec<(String, u64)>, now: u64)
        ensures
            final(logins)@ == purge(old(logins)@, now),
    {
        let n = logins.len();
        let mut out: Vec<(String, u64)> = Vec::new();
        let mut i: usize = 0;
        while i < n
            invariant
                n == logins@.len(),
                0 <= i <= n,
                out@ == purge(logins@.take(i as int), now),
            decreases n - i,
        {
            proof {
                assert(logins@.take(i + 1).drop_last() =~= logins@.take(i as int));
                assert(logins@.take(i + 1).last() == logins@[i as int]);
            }
            let issued = logins[i].1;
            if Self::check_unexpired(issued, now) {
                let token = logins[i].0.clone();
                proof {
                    assert((token, issued) == logins@[i as int]);
                }
                out.push((token, issued));
            }
            i = i + 1;
        }
        proof {
            assert(logins@.take(n as int) =~= logins@);
        }
        *logins = out;
    }

    /// True iff some entry for `user` holds `token` within the validity
    /// window; a non-mutating check.
    pub fn valid(&self, user: &str, token: &str, now: u64) -> (r: bool)
        requires
            self.wf(),
        ensures
            r == spec_valid(self@, user@, token@, now),
    {
        match self.user_logins.get(user) {
            Some(logins) => {
                let n = logins.len();
                let mut i: usize = 0;
                while i < n
                    invariant
                        self@.dom().contains(user@),
                        logins@ == self@[user@]@,
                        n == logins@.len(),
                        0 <= i <= n,
                        forall|j: int|
                            0 <= j < i ==> !((#[trigger] logins@[j]).0@ == token@ && unexpired(
                                logins@[j].1,
                                now,
                            )),
                    decreases n - i,
                {
                    if crate::textenc::str_eq(logins[i].0.as_str(), token)
                        && Self::check_unexpired(logins[i].1, now) {
                        proof {
                            assert(0 <= i < self@[user@]@.len() && self@[user@]@[i as int].0@
                                == token@ && unexpired(self@[user@]@[i as int].1, now));
                        }
                        return true;
                    }
                    i = i + 1;
                }
                false
            },
            None => false,
        }
    }

    /// Issues a fresh random 32-character alphanumeric token for `user` at
    /// `now`, dropping the user's expired tokens in the same pass, and
    /// returns the new token. Other users' entries are untouched.
    pub fn add(&mut self, user: &str, now: u64) -> (r: String)
        requires
            old(self).wf(),
        ensures
            final(self).wf(),
            r@.len() == 32 && is_alnum_chars(r@),
            final(self)@.dom() == old(self)@.dom().insert(user@),
            final(self)@.remove(user@) == old(self)@.remove(user@),
            final(self)@[user@]@ == (if old(self)@.dom().contains(user@) {
                purge(old(self)@[user@]@, now)
            } else {
                Seq::<(String, u64)>::empty()
            }).push((r, now)),
    {
        let mut list: Vec<(String, u64)> = match self.user_logins.remove(user) {
            Some(l) => l,
            None => Vec::new(),
        };
        Self::remove_expired(&mut list, now);
        let token = rng::random_an(32);
        list.push((token.clone(), now));
        proof {
            assert((token, now) == list@.last());
        }
        self.user_logins.insert(user.to_owned(), list);
        proof {
            assert(self@.remove(user@) =~= old(self)@.remove(user@));
            assert(self@.dom() =~= old(self)@.dom().insert(user@));
        }
        token
    }

    /// Removes `token` from `user`'s list; entries already expired are
    /// dropped in the same pass. A user without entries is left as is.
    pub fn remove(&mut self, user: &str, token: &str, now: u64)
        requires
            old(self).wf(),
        ensures
            final(self).wf(),
            old(self)@.dom().contains(user@) ==> final(self)@.dom() == old(self)@.dom()
                && final(self)@.remove(user@) == old(self)@.remove(user@) && final(self)@[user@]@
                == drop_token(old(self)@[user@]@, token@, now),
            !old(self)@.dom().contains(user@) ==> final(self)@ == old(self)@,
    {
        match self.user_logins.remove(user) {
            Some(logins) => {
                let n = logins.len();
                let mut out: Vec<(String, u64)> = Vec::new();
                let mut i: usize = 0;
                while i < n
                    invariant
                        n == logins@.len(),
                        0 <= i <= n,
                        out@ == drop_token(logins@.take(i as int), token@, now),
                    decreases n - i,
                {
                    proof {
                        assert(logins@.take(i + 1).drop_last() =~= logins@.take(i as int));
                        assert(logins@.take(i + 1).last() == logins@[i as int]);
                    }
                    let issued = logins[i].1;
                    if !crate::textenc::str_eq(logins[i].0.as_str(), token)
                        && Self::check_unexpired(issued, now) {
                        let t = logins[i].0.clone();
                        proof {
                            assert((t, issued) == logins@[i as int]);
                        }
                        out.push((t, issued));
                    }
                    i = i + 1;
                }
                proof {
                    assert(logins@.take(n as int) =~= logins@);
                }
                self.user_logins.insert(user.to_owned(), out);
                proof {
                    assert(self@.remove(user@) =~= old(self)@.remove(user@));
                    assert(self@.dom() =~= old(self)@.dom());
                }
            },
            None => {},
        }
    }

    /// Deletes every login of `user`.
    pub fn remove_user(&mut self, user: &str)
        requires
            old(self).wf(),
        ensures
            final(self).wf(),
            final(self)@ == old(self)@.remove(user@),
    {
        let _ = self.user_logins.remove(user);
    }

    /// Moves `user`'s whole token list to the name `new_user`, overwriting
    /// any list already there; all outstanding tokens stay as they are.
    pub fn rename(&mut self, user: &str, new_user: String)
        requires
            old(self).wf(),
        ensures
            final(self).wf(),
            old(self)@.dom().contains(user@) ==> final(self)@ == old(self)@.remove(user@).insert(
                new_user@,
                old(self)@[user@],
            ),
            !old(self)@.dom().contains(user@) ==> final(self)@ == old(self)@,
    {
        match self.user_logins.remove(user) {
            Some(logins) => {
                self.user_logins.insert(new_user, logins);
            },
            None => {},
        }
    }
}

impl View for UserLogins {
    type V = Map<Seq<char>, Vec<(String, u64)>>;

    closed spec fn view(&self) -> Map<Seq<char>, Vec<(String, u64)>> {
        self.user_logins@
    }
}

/// Token expiry: where every entry a user holds for a token was issued at
/// `t`, the token is valid 3599 seconds later and invalid 3601 seconds
/// later (the window is 3600 seconds).
pub proof fn lemma_token_expiry(
    m: Map<Seq<char>, Vec<(String, u64)>>,
    user: Seq<char>,
    token: Seq<char>,
    t: u64,
    i: int,
)
    requires
        t + 3601 <= u64::MAX,
        m.dom().contains(user),
        0 <= i < m[user]@.len(),
        m[user]@[i].0@ == token,
        m[user]@[i].1 == t,
        forall|j: int|
            0 <= j < m[user]@.len() && (#[trigger] m[user]@[j]).0@ == token ==> m[user]@[j].1 == t,
    ensures
        spec_valid(m, user, token, (t + 3599) as u64),
        !spec_valid(m, user, token, (t + 3601) as u64),
{
    assert(unexpired(t, (t + 3599) as u64));
}

/// Renaming a user moves every token's validity to the new name and ends
/// lookups under the old one.
pub proof fn lemma_rename_preserves_validity(
    m: Map<Seq<char>, Vec<(String, u64)>>,
    user: Seq<char>,
    new_user: Seq<char>,
    token: Seq<char>,
    now: u64,
)
    requires
        user != new_user,
        m.dom().contains(user),
    ensures
        spec_valid(m, user, token, now) <==> spec_valid(
            m.remove(user).insert(new_user, m[user]),
            new_user,
            token,
            now,
        ),
        !spec_valid(m.remove(user).insert(new_user, m[user]), user, token, now),
{
    let m2 = m.remove(user).insert(new_user, m[user]);
    assert(m2[new_user] == m[user]);
    if spec_valid(m, user, token, now) {
        let i = choose|i: int|
            0 <= i < m[user]@.len() && (#[trigger] m[user]@[i]).0@ == token && unexpired(
                m[user]@[i].1,
                now,
            );
        assert(0 <= i < m2[new_user]@.len() && m2[new_user]@[i].0@ == token && unexpired(
            m2[new_user]@[i].1,
            now,
        ));
    }
    if spec_valid(m2, new_user, token, now) {
        let i = choose|i: int|
            0 <= i < m2[new_user]@.len() && (#[trigger] m2[new_user]@[i]).0@ == token && unexpired(
                m2[new_user]@[i].1,
                now,
            );
        assert(0 <= i < m[user]@.len() && m[user]@[i].0@ == token && unexpired(
            m[user]@[i].1,
            now,
        ));
    }
}

} // verus!
