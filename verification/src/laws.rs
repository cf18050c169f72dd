//! Properties of the workflow that span several operations, stated and
//! proved over the same views the operations' contracts use.

use vstd::prelude::*;

use crate::email::{match_rule, rule_matches};
use crate::forum::{replies_of, spec_toggle, thread_messages};
use crate::model::{doc_key_matches, docs_under, Document, EmailRule, ForumMessage, Project, StoreModel, TaskItem};
use crate::project::projects_with_status;
use crate::text::{lower_char, lower_seq};

verus! {

/// Every document that satisfies a listing key appears in that listing.
pub proof fn lemma_docs_under_contains(docs: Seq<Document>, key: Option<Seq<char>>, i: int)
    requires
        0 <= i < docs.len(),
        doc_key_matches(docs[i], key),
    ensures
        docs_under(docs, key).contains(docs[i]),
    decreases docs.len(),
{
    if i == 0 {
        let r = docs_under(docs, key);
        assert(r.last() == docs.first());
        assert(r.contains(docs[0]));
    } else {
        lemma_docs_under_contains(docs.drop_first(), key, i - 1);
        let rest = docs_under(docs.drop_first(), key);
        let w = choose|w: int| 0 <= w < rest.len() && rest[w] == docs.drop_first()[i - 1];
        if doc_key_matches(docs.first(), key) {
            assert(docs_under(docs, key)[w] == docs[i]);
        } else {
            assert(docs_under(docs, key)[w] == docs[i]);
        }
    }
}

/// Everything a listing shows comes from the documents and satisfies the
/// listing's key.
pub proof fn lemma_docs_under_only(docs: Seq<Document>, key: Option<Seq<char>>, x: Document)
    requires
        docs_under(docs, key).contains(x),
    ensures
        docs.contains(x),
        doc_key_matches(x, key),
    decreases docs.len(),
{
    let r = docs_under(docs, key);
    let rest = docs_under(docs.drop_first(), key);
    if doc_key_matches(docs.first(), key) && x == docs.first() {
        assert(docs[0] == x);
        assert(docs.contains(x));
    } else {
        let w = choose|w: int| 0 <= w < r.len() && r[w] == x;
        if doc_key_matches(docs.first(), key) && w == r.len() - 1 {
            assert(x == docs.first());
            assert(docs[0] == x);
            assert(docs.contains(x));
        } else {
            assert(rest.contains(x));
            lemma_docs_under_only(docs.drop_first(), key, x);
            let v = choose|v: int| 0 <= v < docs.drop_first().len() && docs.drop_first()[v] == x;
            assert(docs[v + 1] == x);
            assert(docs.contains(x));
        }
    }
}

/// Law: a freshly recorded document with no project appears in the Inbox
/// listing.
pub proof fn lemma_new_document_listed_in_inbox(docs: Seq<Document>, d: Document)
    requires
        d.project_id is None,
    ensures
        docs_under(docs.push(d), None).contains(d),
{
    lemma_docs_under_contains(docs.push(d), None, docs.len() as int);
}

/// Law: a document sent back to the Inbox appears in the Inbox listing and
/// under no project's listing, whatever project it sat under before.
pub proof fn lemma_unassign_returns_to_inbox(docs: Seq<Document>, i: int, d2: Document, p: Seq<char>)
    requires
        0 <= i < docs.len(),
        d2.project_id is None,
        d2.id == docs[i].id,
        forall|a: int, b: int|
            #![trigger docs[a], docs[b]]
            0 <= a < b < docs.len() ==> docs[a].id@ != docs[b].id@,
    ensures
        docs_under(docs.update(i, d2), None).contains(d2),
        forall|x: Document|
            docs_under(docs.update(i, d2), Some(p)).contains(x) ==> x.id@ != d2.id@,
{
    let docs2 = docs.update(i, d2);
    lemma_docs_under_contains(docs2, None, i);
    assert forall|x: Document|
        docs_under(docs2, Some(p)).contains(x) implies x.id@ != d2.id@ by {
        lemma_docs_under_only(docs2, Some(p), x);
        let j = choose|j: int| 0 <= j < docs2.len() && docs2[j] == x;
        if j == i {
            assert(x == d2);
            assert(doc_key_matches(x, Some(p)));
        } else {
            assert(docs2[j] == docs[j]);
            if j < i {
                assert(docs[j].id@ != docs[i].id@);
            } else {
                assert(docs[i].id@ != docs[j].id@);
            }
        }
    }
}


/// A listing over documents none of which match its key is empty.
proof fn lemma_no_match_empty_listing(docs: Seq<Document>, key: Option<Seq<char>>)
    requires
        forall|k: int| 0 <= k < docs.len() ==> !doc_key_matches(#[trigger] docs[k], key),
    ensures
        docs_under(docs, key).len() == 0,
    decreases docs.len(),
{
    if docs.len() > 0 {
        assert(!doc_key_matches(docs[0], key));
        lemma_no_match_empty_listing(docs.drop_first(), key);
    }
}

/// Law: when exactly one document matches a listing key, that listing is
/// exactly that document — as after creating a project, uploading one file
/// and assigning it there.
pub proof fn lemma_sole_match_is_the_listing(docs: Seq<Document>, key: Option<Seq<char>>, i: int)
    requires
        0 <= i < docs.len(),
        doc_key_matches(docs[i], key),
        forall|k: int|
            0 <= k < docs.len() && k != i ==> !doc_key_matches(#[trigger] docs[k], key),
    ensures
        docs_under(docs, key) =~= seq![docs[i]],
    decreases docs.len(),
{
    if i == 0 {
        assert forall|k: int|
            0 <= k < docs.drop_first().len() implies !doc_key_matches(
            #[trigger] docs.drop_first()[k],
            key,
        ) by {
            assert(docs.drop_first()[k] == docs[k + 1]);
        }
        lemma_no_match_empty_listing(docs.drop_first(), key);
        assert(docs_under(docs, key) =~= seq![docs[0]]);
    } else {
        assert(!doc_key_matches(docs.first(), key));
        assert forall|k: int|
            0 <= k < docs.drop_first().len() && k != i - 1 implies !doc_key_matches(
            #[trigger] docs.drop_first()[k],
            key,
        ) by {
            assert(docs.drop_first()[k] == docs[k + 1]);
        }
        assert(docs.drop_first()[i - 1] == docs[i]);
        lemma_sole_match_is_the_listing(docs.drop_first(), key, i - 1);
    }
}

/// Folding an already folded character changes nothing.
pub proof fn lemma_lower_char_idempotent(c: char)
    ensures
        lower_char(lower_char(c)) == lower_char(c),
{
}

/// Folding an already folded string changes nothing.
pub proof fn lemma_lower_seq_idempotent(s: Seq<char>)
    ensures
        lower_seq(lower_seq(s)) == lower_seq(s),
{
    assert(lower_seq(lower_seq(s)) =~= lower_seq(s)) by {
        assert forall|i: int|
            0 <= i < s.len() implies lower_seq(lower_seq(s))[i] == lower_seq(s)[i] by {
            lemma_lower_char_idempotent(s[i]);
        }
    }
}

/// One rule matches a sender exactly as it matches the sender's folded form.
pub proof fn lemma_rule_matches_case_insensitive(r: EmailRule, sender: Seq<char>)
    ensures
        rule_matches(r, lower_seq(sender)) == rule_matches(r, sender),
{
    lemma_lower_seq_idempotent(sender);
}

/// Law: routing is insensitive to the sender's ASCII case — the folded
/// sender selects the same rule.
pub proof fn lemma_match_rule_case_insensitive(rules: Seq<EmailRule>, sender: Seq<char>)
    ensures
        match_rule(rules, lower_seq(sender)) == match_rule(rules, sender),
    decreases rules.len(),
{
    if rules.len() > 0 {
        lemma_rule_matches_case_insensitive(rules.last(), sender);
        lemma_match_rule_case_insensitive(rules.drop_last(), sender);
    }
}

/// Law: in a well-formed store, a reply's project is its parent's project.
pub proof fn lemma_reply_inherits_project(m: StoreModel, i: int)
    requires
        m.wf(),
        0 <= i < m.messages.len(),
        m.messages[i].parent_id is Some,
    ensures
        exists|p: int|
            0 <= p < m.messages.len() && (#[trigger] m.messages[p]).id@
                == m.messages[i].parent_id->0@ && m.messages[p].project_id@
                == m.messages[i].project_id@,
{
}

/// Law: toggling an open task item twice returns it to its original state,
/// with the completion stamps clear, whoever toggled and whenever.
pub proof fn lemma_toggle_twice(
    t: TaskItem,
    by1: Option<String>,
    now1: i64,
    by2: Option<String>,
    now2: i64,
)
    requires
        !t.completed,
        t.wf(),
    ensures
        spec_toggle(spec_toggle(t, by1, now1), by2, now2) == t,
{
}

// ---------------------------------------------------------------------------
// Listing order and time
// ---------------------------------------------------------------------------
//
// The listings are stated over insertion order: document and project
// listings come newest-inserted first, forum listings oldest first. The laws
// below tie that to the recorded times: whenever timestamps never decrease
// along insertion — which holds under a monotone clock — insertion order is
// exactly time order.

/// Law: when upload times never decrease along insertion, every document
/// listing is ordered by upload time, newest first.
pub proof fn lemma_docs_listing_newest_first(docs: Seq<Document>, key: Option<Seq<char>>)
    requires
        forall|a: int, b: int|
            #![trigger docs[a].uploaded_at, docs[b].uploaded_at]
            0 <= a <= b < docs.len() ==> docs[a].uploaded_at <= docs[b].uploaded_at,
    ensures
        forall|a: int, b: int|
            #![trigger docs_under(docs, key)[a], docs_under(docs, key)[b]]
            0 <= a < b < docs_under(docs, key).len() ==> docs_under(docs, key)[a].uploaded_at
                >= docs_under(docs, key)[b].uploaded_at,
    decreases docs.len(),
{
    if docs.len() > 0 {
        let tail = docs.drop_first();
        assert forall|a: int, b: int|
            #![trigger tail[a].uploaded_at, tail[b].uploaded_at]
            0 <= a <= b < tail.len() implies tail[a].uploaded_at <= tail[b].uploaded_at by {
            assert(docs[a + 1].uploaded_at <= docs[b + 1].uploaded_at);
        }
        lemma_docs_listing_newest_first(tail, key);
        let r = docs_under(docs, key);
        let rest = docs_under(tail, key);
        if doc_key_matches(docs.first(), key) {
            assert forall|a: int, b: int|
                0 <= a < b < r.len() implies r[a].uploaded_at >= r[b].uploaded_at by {
                if b < rest.len() {
                    assert(r[a] == rest[a] && r[b] == rest[b]);
                } else {
                    assert(r[b] == docs.first());
                    assert(r[a] == rest[a]);
                    assert(rest.contains(rest[a]));
                    lemma_docs_under_only(tail, key, rest[a]);
                    let j = choose|j: int| 0 <= j < tail.len() && tail[j] == rest[a];
                    assert(docs[j + 1] == rest[a]);
                    assert(docs[0].uploaded_at <= docs[j + 1].uploaded_at);
                }
            }
        }
    }
}

/// Everything the thread listing shows comes from the messages.
proof fn lemma_thread_messages_only(ms: Seq<ForumMessage>, pid: Seq<char>, x: ForumMessage)
    requires
        thread_messages(ms, pid).contains(x),
    ensures
        ms.contains(x),
    decreases ms.len(),
{
    let r = thread_messages(ms, pid);
    let rest = thread_messages(ms.drop_last(), pid);
    let keep = ms.last().project_id@ == pid && ms.last().parent_id is None;
    if keep && x == ms.last() {
        assert(ms[ms.len() - 1] == x);
        assert(ms.contains(x));
    } else {
        let w = choose|w: int| 0 <= w < r.len() && r[w] == x;
        if keep && w == r.len() - 1 {
            assert(ms[ms.len() - 1] == x);
            assert(ms.contains(x));
        } else {
            assert(rest.contains(x));
            lemma_thread_messages_only(ms.drop_last(), pid, x);
            let v = choose|v: int| 0 <= v < ms.drop_last().len() && ms.drop_last()[v] == x;
            assert(ms[v] == x);
            assert(ms.contains(x));
        }
    }
}

/// Law: when posting times never decrease along insertion, a project's
/// thread is ordered by posting time, oldest first.
pub proof fn lemma_thread_oldest_first(ms: Seq<ForumMessage>, pid: Seq<char>)
    requires
        forall|a: int, b: int|
            #![trigger ms[a].created_at, ms[b].created_at]
            0 <= a <= b < ms.len() ==> ms[a].created_at <= ms[b].created_at,
    ensures
        forall|a: int, b: int|
            #![trigger thread_messages(ms, pid)[a], thread_messages(ms, pid)[b]]
            0 <= a < b < thread_messages(ms, pid).len() ==> thread_messages(ms, pid)[a].created_at
                <= thread_messages(ms, pid)[b].created_at,
    decreases ms.len(),
{
    if ms.len() > 0 {
        let head = ms.drop_last();
        lemma_thread_oldest_first(head, pid);
        let r = thread_messages(ms, pid);
        let rest = thread_messages(head, pid);
        if ms.last().project_id@ == pid && ms.last().parent_id is None {
            assert forall|a: int, b: int|
                0 <= a < b < r.len() implies r[a].created_at <= r[b].created_at by {
                if b < rest.len() {
                    assert(r[a] == rest[a] && r[b] == rest[b]);
                } else {
                    assert(r[b] == ms.last());
                    assert(r[a] == rest[a]);
                    assert(rest.contains(rest[a]));
                    lemma_thread_messages_only(head, pid, rest[a]);
                    let j = choose|j: int| 0 <= j < head.len() && head[j] == rest[a];
                    assert(ms[j] == rest[a]);
                    assert(ms[j].created_at <= ms[ms.len() - 1].created_at);
                }
            }
        }
    }
}

/// Everything the reply listing shows comes from the messages.
proof fn lemma_replies_of_only(ms: Seq<ForumMessage>, parent: Seq<char>, x: ForumMessage)
    requires
        replies_of(ms, parent).contains(x),
    ensures
        ms.contains(x),
    decreases ms.len(),
{
    let r = replies_of(ms, parent);
    let rest = replies_of(ms.drop_last(), parent);
    let keep = ms.last().parent_id matches Some(p) && p@ == parent;
    if keep && x == ms.last() {
        assert(ms[ms.len() - 1] == x);
        assert(ms.contains(x));
    } else {
        let w = choose|w: int| 0 <= w < r.len() && r[w] == x;
        if keep && w == r.len() - 1 {
            assert(ms[ms.len() - 1] == x);
            assert(ms.contains(x));
        } else {
            assert(rest.contains(x));
            lemma_replies_of_only(ms.drop_last(), parent, x);
            let v = choose|v: int| 0 <= v < ms.drop_last().len() && ms.drop_last()[v] == x;
            assert(ms[v] == x);
            assert(ms.contains(x));
        }
    }
}

/// Law: when posting times never decrease along insertion, a message's
/// replies are ordered by posting time, oldest first.
pub proof fn lemma_replies_oldest_first(ms: Seq<ForumMessage>, parent: Seq<char>)
    requires
        forall|a: int, b: int|
            #![trigger ms[a].created_at, ms[b].created_at]
            0 <= a <= b < ms.len() ==> ms[a].created_at <= ms[b].created_at,
    ensures
        forall|a: int, b: int|
            #![trigger replies_of(ms, parent)[a], replies_of(ms, parent)[b]]
            0 <= a < b < replies_of(ms, parent).len() ==> replies_of(ms, parent)[a].created_at
                <= replies_of(ms, parent)[b].created_at,
    decreases ms.len(),
{
    if ms.len() > 0 {
        let head = ms.drop_last();
        lemma_replies_oldest_first(head, parent);
        let r = replies_of(ms, parent);
        let rest = replies_of(head, parent);
        if ms.last().parent_id matches Some(p) && p@ == parent {
            assert forall|a: int, b: int|
                0 <= a < b < r.len() implies r[a].created_at <= r[b].created_at by {
                if b < rest.len() {
                    assert(r[a] == rest[a] && r[b] == rest[b]);
                } else {
                    assert(r[b] == ms.last());
                    assert(r[a] == rest[a]);
                    assert(rest.contains(rest[a]));
                    lemma_replies_of_only(head, parent, rest[a]);
                    let j = choose|j: int| 0 <= j < head.len() && head[j] == rest[a];
                    assert(ms[j] == rest[a]);
                    assert(ms[j].created_at <= ms[ms.len() - 1].created_at);
                }
            }
        }
    }
}

/// Everything the filtered project listing shows comes from the projects.
proof fn lemma_projects_with_status_only(
    ps: Seq<Project>,
    st: crate::model::ProjectStatus,
    x: Project,
)
    requires
        projects_with_status(ps, st).contains(x),
    ensures
        ps.contains(x),
    decreases ps.len(),
{
    let r = projects_with_status(ps, st);
    let rest = projects_with_status(ps.drop_first(), st);
    if ps.first().status == st && x == ps.first() {
        assert(ps[0] == x);
        assert(ps.contains(x));
    } else {
        let w = choose|w: int| 0 <= w < r.len() && r[w] == x;
        if ps.first().status == st && w == r.len() - 1 {
            assert(ps[0] == x);
            assert(ps.contains(x));
        } else {
            assert(rest.contains(x));
            lemma_projects_with_status_only(ps.drop_first(), st, x);
            let v = choose|v: int| 0 <= v < ps.drop_first().len() && ps.drop_first()[v] == x;
            assert(ps[v + 1] == x);
            assert(ps.contains(x));
        }
    }
}

/// Law: when creation times never decrease along insertion, the filtered
/// project listing is ordered by creation time, newest first.
pub proof fn lemma_projects_listing_newest_first(ps: Seq<Project>, st: crate::model::ProjectStatus)
    requires
        forall|a: int, b: int|
            #![trigger ps[a].created_at, ps[b].created_at]
            0 <= a <= b < ps.len() ==> ps[a].created_at <= ps[b].created_at,
    ensures
        forall|a: int, b: int|
            #![trigger projects_with_status(ps, st)[a], projects_with_status(ps, st)[b]]
            0 <= a < b < projects_with_status(ps, st).len() ==> projects_with_status(
                ps,
                st,
            )[a].created_at >= projects_with_status(ps, st)[b].created_at,
    decreases ps.len(),
{
    if ps.len() > 0 {
        let tail = ps.drop_first();
        assert forall|a: int, b: int|
            #![trigger tail[a].created_at, tail[b].created_at]
            0 <= a <= b < tail.len() implies tail[a].created_at <= tail[b].created_at by {
            assert(ps[a + 1].created_at <= ps[b + 1].created_at);
        }
        lemma_projects_listing_newest_first(tail, st);
        let r = projects_with_status(ps, st);
        let rest = projects_with_status(tail, st);
        if ps.first().status == st {
            assert forall|a: int, b: int|
                0 <= a < b < r.len() implies r[a].created_at >= r[b].created_at by {
                if b < rest.len() {
                    assert(r[a] == rest[a] && r[b] == rest[b]);
                } else {
                    assert(r[b] == ps.first());
                    assert(r[a] == rest[a]);
                    assert(rest.contains(rest[a]));
                    lemma_projects_with_status_only(tail, st, rest[a]);
                    let j = choose|j: int| 0 <= j < tail.len() && tail[j] == rest[a];
                    assert(ps[j + 1] == rest[a]);
                    assert(ps[0].created_at <= ps[j + 1].created_at);
                }
            }
        }
    }
}

/// Law: when creation times never decrease along insertion, the unfiltered
/// project listing (the reversal) is ordered by creation time, newest first.
pub proof fn lemma_reversed_projects_newest_first(ps: Seq<Project>)
    requires
        forall|a: int, b: int|
            #![trigger ps[a].created_at, ps[b].created_at]
            0 <= a <= b < ps.len() ==> ps[a].created_at <= ps[b].created_at,
    ensures
        forall|a: int, b: int|
            #![trigger ps.reverse()[a], ps.reverse()[b]]
            0 <= a < b < ps.reverse().len() ==> ps.reverse()[a].created_at
                >= ps.reverse()[b].created_at,
{
    assert forall|a: int, b: int|
        0 <= a < b < ps.reverse().len() implies ps.reverse()[a].created_at
        >= ps.reverse()[b].created_at by {
        assert(ps.reverse()[a] == ps[ps.len() - 1 - a]);
        assert(ps.reverse()[b] == ps[ps.len() - 1 - b]);
        assert(ps[ps.len() - 1 - b].created_at <= ps[ps.len() - 1 - a].created_at);
    }
}

} // verus!
