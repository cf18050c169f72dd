//! User profiles: a name, a photo, and when the photo last changed. The
//! store keeps profiles in strict name order, so listings come out sorted.

use vstd::prelude::*;

use crate::model::{has_profile, profile_index, Store, UserProfile};
use crate::text::{lemma_lex_lt_transitive, lemma_lex_lt_trichotomy, lex_lt, str_lt};

verus! {

/// Profile bookkeeping over the store.
pub struct UserService;

impl UserService {
    /// Every profile, in name order (the order the store maintains).
    pub fn list_profiles(store: &Store) -> (r: Vec<UserProfile>)
        ensures
            r@ == store@.profiles,
    {
        let ps = &store.profiles;
        let mut out: Vec<UserProfile> = Vec::new();
        let mut i: usize = 0;
        while i < ps.len()
            invariant
                i <= ps@.len(),
                out@ =~= ps@.take(i as int),
            decreases ps@.len() - i,
        {
            out.push(ps[i].duplicate());
            proof {
                assert(out@ =~= ps@.take(i + 1));
            }
            i += 1;
        }
        proof {
            assert(ps@.take(ps@.len() as int) =~= ps@);
        }
        out
    }

    /// The profile under this name, if one exists.
    pub fn get_profile(store: &Store, name: &String) -> (r: Option<UserProfile>)
        ensures
            match r {
                Some(p) => store@.profiles.contains(p) && p.name@ == name@,
                None => !has_profile(store@.profiles, name@),
            },
    {
        match profile_index(&store.profiles, name) {
            Some(i) => Some(store.profiles[i].duplicate()),
            None => None,
        }
    }

    /// Sets a user's photo, creating the profile when none exists yet. A new
    /// profile is filed at its place in name order.
    pub fn update_profile_photo(store: &mut Store, name: &String, photo_url: &String, now: i64) -> (r:
        UserProfile)
        requires
            old(store)@.wf(),
        ensures
            final(store)@.wf(),
            r.name@ == name@,
            r.photo_url@ == photo_url@,
            r.updated_at == now,
            if has_profile(old(store)@.profiles, name@) {
                exists|i: int|
                    {
                        &&& 0 <= i < old(store)@.profiles.len()
                        &&& (#[trigger] old(store)@.profiles[i]).name@ == name@
                        &&& final(store)@ == old(store)@.with_profiles(
                            old(store)@.profiles.update(i, r),
                        )
                    }
            } else {
                exists|k: int|
                    {
                        &&& 0 <= k <= old(store)@.profiles.len()
                        &&& final(store)@ == old(store)@.with_profiles(
                            old(store)@.profiles.insert(k, r),
                        )
                    }
            },
    {
        let profile = UserProfile {
            name: name.clone(),
            photo_url: photo_url.clone(),
            updated_at: now,
        };
        let out = profile.duplicate();
        match profile_index(&store.profiles, name) {
            Some(i) => {
                store.profiles.remove(i);
                store.profiles.insert(i, profile);
                proof {
                    let m0 = old(store)@;
                    let m1 = final(store)@;
                    assert(m1.profiles =~= m0.profiles.update(i as int, out));
                    assert(m1 =~= m0.with_profiles(m0.profiles.update(i as int, out)));
                    assert forall|a: int, b: int|
                        0 <= a < b < m1.profiles.len() implies lex_lt(
                        m1.profiles[a].name@,
                        m1.profiles[b].name@,
                    ) by {
                        assert(m1.profiles[a].name@ == m0.profiles[a].name@);
                        assert(m1.profiles[b].name@ == m0.profiles[b].name@);
                        assert(lex_lt(m0.profiles[a].name@, m0.profiles[b].name@));
                    }
                }
                out
            },
            None => {
                let mut k: usize = 0;
                while k < store.profiles.len() && str_lt(store.profiles[k].name.as_str(), name.as_str())
                    invariant
                        k <= store@.profiles.len(),
                        forall|t: int|
                            0 <= t < k ==> lex_lt((#[trigger] store@.profiles[t]).name@, name@),
                    decreases store@.profiles.len() - k,
                {
                    k += 1;
                }
                proof {
                    if k < store@.profiles.len() {
                        assert(!lex_lt(store@.profiles[k as int].name@, name@));
                        assert(store@.profiles[k as int].name@ != name@);
                        lemma_lex_lt_trichotomy(store@.profiles[k as int].name@, name@);
                        assert(lex_lt(name@, store@.profiles[k as int].name@));
                    }
                }
                store.profiles.insert(k, profile);
                proof {
                    let m0 = old(store)@;
                    let m1 = final(store)@;
                    let ki = k as int;
                    assert(m1 =~= m0.with_profiles(m0.profiles.insert(ki, out)));
                    assert forall|a: int, b: int|
                        0 <= a < b < m1.profiles.len() implies lex_lt(
                        m1.profiles[a].name@,
                        m1.profiles[b].name@,
                    ) by {
                        if b < ki {
                            assert(lex_lt(m0.profiles[a].name@, m0.profiles[b].name@));
                        } else if a < ki && b == ki {
                            assert(lex_lt(m0.profiles[a].name@, name@));
                        } else if a < ki && b > ki {
                            assert(lex_lt(m0.profiles[a].name@, m0.profiles[b - 1].name@));
                        } else if a == ki {
                            assert(b > ki);
                            assert(lex_lt(name@, m0.profiles[ki].name@));
                            if b - 1 == ki {
                            } else {
                                assert(lex_lt(m0.profiles[ki].name@, m0.profiles[b - 1].name@));
                                lemma_lex_lt_transitive(
                                    name@,
                                    m0.profiles[ki].name@,
                                    m0.profiles[b - 1].name@,
                                );
                            }
                        } else {
                            assert(a > ki && b > ki);
                            assert(lex_lt(m0.profiles[a - 1].name@, m0.profiles[b - 1].name@));
                        }
                    }
                }
                out
            },
        }
    }
}

} // verus!
