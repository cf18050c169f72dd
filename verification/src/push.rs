//! Push-subscription bookkeeping and the notification fan-out decision. The
//! transport (key generation, the push protocol itself) stays outside; this
//! module decides who is notified and with what payload.

use vstd::prelude::*;

use crate::error::AppError;
use crate::ids::random_uuid;
use crate::model::{endpoint_index, has_endpoint, opt_str_view, PushSubscription, Store};

verus! {

/// Payload for registering a push subscription.
#[derive(Debug)]
pub struct SubscribeRequest {
    pub endpoint: String,
    pub p256dh: String,
    pub auth: String,
    pub author_name: Option<String>,
}

/// Payload for removing a push subscription.
#[derive(Debug)]
pub struct UnsubscribeRequest {
    pub endpoint: String,
}

/// The subscriptions a message's notification goes to: everyone except the
/// author, kept in registration order.
pub open spec fn recipients_of(subs: Seq<PushSubscription>, author: Seq<char>) -> Seq<
    PushSubscription,
>
    decreases subs.len(),
{
    if subs.len() == 0 {
        Seq::empty()
    } else {
        let rest = recipients_of(subs.drop_last(), author);
        if match subs.last().author_name {
            Some(n) => n@ != author,
            None => true,
        } {
            rest.push(subs.last())
        } else {
            rest
        }
    }
}

/// A notification body: the content, shortened to its first 97 characters
/// and an ellipsis when it runs over 100.
pub open spec fn truncated_body(content: Seq<char>) -> Seq<char> {
    if content.len() > 100 {
        content.take(97) + "..."@
    } else {
        content
    }
}

/// One round of notifications, ready for the transport: the payload and who
/// receives it.
#[derive(Debug)]
pub struct NotificationPlan {
    pub title: String,
    pub body: String,
    pub tag: String,
    pub recipients: Vec<PushSubscription>,
}

/// Push bookkeeping over the store.
pub struct PushService;

impl PushService {
    /// The stored public key browsers subscribe with; an internal error while
    /// no key pair is stored.
    pub fn get_vapid_public_key(store: &Store) -> (r: Result<String, AppError>)
        ensures
            match r {
                Ok(k) => store@.vapid_public_key matches Some(v) && k@ == v@,
                Err(e) => e is Internal && store@.vapid_public_key is None,
            },
    {
        match &store.vapid_public_key {
            Some(k) => Ok(k.clone()),
            None => Err(AppError::Internal(String::from_str("VAPID keys not initialized"))),
        }
    }

    /// Whether a key pair is already stored, so that generation can be
    /// skipped.
    pub fn vapid_ready(store: &Store) -> (r: bool)
        ensures
            r == (store@.vapid_private_pem is Some),
    {
        match &store.vapid_private_pem {
            Some(_) => true,
            None => false,
        }
    }

    /// Records a freshly generated key pair.
    pub fn store_vapid_keys(store: &mut Store, private_pem: String, public_key: String)
        requires
            old(store)@.wf(),
        ensures
            final(store)@.wf(),
            final(store)@ == old(store)@.with_vapid(Some(private_pem), Some(public_key)),
    {
        let ghost pem = private_pem;
        let ghost key = public_key;
        store.vapid_private_pem = Some(private_pem);
        store.vapid_public_key = Some(public_key);
        proof {
            assert(final(store)@ =~= old(store)@.with_vapid(Some(pem), Some(key)));
        }
    }

    /// Registers a subscription, replacing any earlier one on the same
    /// endpoint.
    pub fn subscribe(
        store: &mut Store,
        endpoint: &String,
        p256dh: &String,
        auth: &String,
        author_name: Option<&String>,
        now: i64,
    ) -> (r: PushSubscription)
        requires
            old(store)@.wf(),
        ensures
            final(store)@.wf(),
            r.endpoint@ == endpoint@,
            r.p256dh@ == p256dh@,
            r.auth@ == auth@,
            opt_str_view(r.author_name) == crate::document::opt_key(author_name),
            r.created_at == now,
            if has_endpoint(old(store)@.subs, endpoint@) {
                exists|i: int|
                    {
                        &&& 0 <= i < old(store)@.subs.len()
                        &&& (#[trigger] old(store)@.subs[i]).endpoint@ == endpoint@
                        &&& final(store)@ == old(store)@.with_subs(old(store)@.subs.update(i, r))
                    }
            } else {
                final(store)@ == old(store)@.with_subs(old(store)@.subs.push(r))
            },
    {
        let id = random_uuid();
        let sub = PushSubscription {
            id,
            endpoint: endpoint.clone(),
            p256dh: p256dh.clone(),
            auth: auth.clone(),
            author_name: match author_name {
                Some(a) => Some(a.clone()),
                None => None,
            },
            created_at: now,
        };
        let out = sub.duplicate();
        match endpoint_index(&store.subs, endpoint) {
            Some(i) => {
                store.subs.remove(i);
                store.subs.insert(i, sub);
                proof {
                    let m0 = old(store)@;
                    let m1 = final(store)@;
                    assert(m1.subs =~= m0.subs.update(i as int, out));
                    assert(m1 =~= m0.with_subs(m0.subs.update(i as int, out)));
                    assert forall|a: int, b: int|
                        0 <= a < b < m1.subs.len() implies m1.subs[a].endpoint@
                        != m1.subs[b].endpoint@ by {
                        assert(m0.subs[a].endpoint@ != m0.subs[b].endpoint@);
                    }
                }
            },
            None => {
                store.subs.push(sub);
                proof {
                    let m0 = old(store)@;
                    let m1 = final(store)@;
                    assert(m1 =~= m0.with_subs(m0.subs.push(out)));
                    assert forall|a: int, b: int|
                        0 <= a < b < m1.subs.len() implies m1.subs[a].endpoint@
                        != m1.subs[b].endpoint@ by {
                        if b == m0.subs.len() {
                            if m0.subs[a].endpoint@ == out.endpoint@ {
                                assert(has_endpoint(m0.subs, endpoint@));
                            }
                        }
                    }
                }
            },
        }
        out
    }

    /// Drops the subscription on this endpoint, if one is registered; asking
    /// to drop an unknown endpoint is not an error.
    pub fn unsubscribe(store: &mut Store, endpoint: &String)
        requires
            old(store)@.wf(),
        ensures
            final(store)@.wf(),
            !has_endpoint(final(store)@.subs, endpoint@),
            if has_endpoint(old(store)@.subs, endpoint@) {
                exists|i: int|
                    {
                        &&& 0 <= i < old(store)@.subs.len()
                        &&& (#[trigger] old(store)@.subs[i]).endpoint@ == endpoint@
                        &&& final(store)@ == old(store)@.with_subs(old(store)@.subs.remove(i))
                    }
            } else {
                *final(store) == *old(store)
            },
    {
        match endpoint_index(&store.subs, endpoint) {
            Some(i) => {
                store.subs.remove(i);
                proof {
                    let m0 = old(store)@;
                    let m1 = final(store)@;
                    assert(m1 =~= m0.with_subs(m0.subs.remove(i as int)));
                    assert forall|a: int, b: int|
                        0 <= a < b < m1.subs.len() implies m1.subs[a].endpoint@
                        != m1.subs[b].endpoint@ by {
                        let a0: int = if a < i { a } else { a + 1 };
                        let b0: int = if b < i { b } else { b + 1 };
                        assert(m0.subs[a0].endpoint@ != m0.subs[b0].endpoint@);
                    }
                    assert forall|a: int|
                        0 <= a < m1.subs.len() implies (#[trigger] m1.subs[a]).endpoint@
                        != endpoint@ by {
                        let a0: int = if a < i { a } else { a + 1 };
                        assert(m1.subs[a] == m0.subs[a0]);
                        if a0 < i {
                            assert(m0.subs[a0].endpoint@ != m0.subs[i as int].endpoint@);
                        } else {
                            assert(m0.subs[i as int].endpoint@ != m0.subs[a0].endpoint@);
                        }
                    }
                }
            },
            None => {},
        }
    }

    /// Decides one notification round for a new message: `None` while no key
    /// pair is stored or nobody but the author subscribes; otherwise the
    /// payload (title, shortened body, tag) and the recipients.
    pub fn notification_plan(
        store: &Store,
        project_name: &String,
        author_name: &String,
        content: &String,
    ) -> (r: Option<NotificationPlan>)
        ensures
            match r {
                Some(plan) => {
                    &&& store@.vapid_private_pem is Some
                    &&& recipients_of(store@.subs, author_name@).len() > 0
                    &&& plan.recipients@ == recipients_of(store@.subs, author_name@)
                    &&& plan.title@ == project_name@ + " - "@ + author_name@
                    &&& plan.body@ == truncated_body(content@)
                    &&& plan.tag@ == project_name@
                },
                None => store@.vapid_private_pem is None || recipients_of(
                    store@.subs,
                    author_name@,
                ).len() == 0,
            },
    {
        if !Self::vapid_ready(store) {
            return None;
        }
        let subs = &store.subs;
        let mut recipients: Vec<PushSubscription> = Vec::new();
        let mut i: usize = 0;
        proof {
            assert(subs@.take(0) =~= Seq::<PushSubscription>::empty());
        }
        while i < subs.len()
            invariant
                i <= subs@.len(),
                recipients@ == recipients_of(subs@.take(i as int), author_name@),
            decreases subs@.len() - i,
        {
            proof {
                assert(subs@.take(i + 1).drop_last() =~= subs@.take(i as int));
                assert(subs@.take(i + 1).last() == subs@[i as int]);
            }
            let keep = match &subs[i].author_name {
                Some(n) => !(*n == *author_name),
                None => true,
            };
            if keep {
                recipients.push(subs[i].duplicate());
            }
            i += 1;
        }
        proof {
            assert(subs@.take(subs@.len() as int) =~= subs@);
        }
        if recipients.len() == 0 {
            return None;
        }
        let mut title = project_name.clone();
        title.append(" - ");
        title.append(author_name.as_str());
        let body = truncate_content(content);
        Some(
            NotificationPlan { title, body, tag: project_name.clone(), recipients },
        )
    }
}

/// `content` shortened as [`truncated_body`] describes.
fn truncate_content(content: &String) -> (r: String)
    ensures
        r@ == truncated_body(content@),
{
    let len = content.as_str().unicode_len();
    if len > 100 {
        let head = content.as_str().substring_char(0, 97);
        let mut r = String::from_str(head);
        r.append("...");
        proof {
            assert(r@ =~= content@.take(97) + "..."@);
        }
        r
    } else {
        content.clone()
    }
}

} // verus!
