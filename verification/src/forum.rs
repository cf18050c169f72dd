//! The forum engine: per-project threads of text, photo, voice and task-list
//! messages, replies that inherit their parent's project, reply counts, and
//! task-item toggling.

use vstd::prelude::*;

use crate::error::AppError;
use crate::ids::random_uuid;
use crate::dto::DocumentResponse;
use crate::model::{
    doc_index, dup_opt_string, has_message, has_task, lemma_push_message_wf, message_index,
    opt_str_view, task_index, ForumMessage, MessageBody, Store, TaskItem,
};
use crate::text::str_eq;

verus! {

/// The stored notation of a message's type.
pub open spec fn spec_message_type(b: MessageBody) -> Seq<char> {
    match b {
        MessageBody::Text { .. } => "TEXT"@,
        MessageBody::Photo { .. } => "PHOTO"@,
        MessageBody::Voice { .. } => "VOICE"@,
        MessageBody::TaskList { .. } => "TASK_LIST"@,
    }
}

/// The top-level messages of a project's thread, oldest first.
pub open spec fn thread_messages(ms: Seq<ForumMessage>, project_id: Seq<char>) -> Seq<ForumMessage>
    decreases ms.len(),
{
    if ms.len() == 0 {
        Seq::empty()
    } else {
        let rest = thread_messages(ms.drop_last(), project_id);
        if ms.last().project_id@ == project_id && ms.last().parent_id is None {
            rest.push(ms.last())
        } else {
            rest
        }
    }
}

/// The replies under a message, oldest first.
pub open spec fn replies_of(ms: Seq<ForumMessage>, parent_id: Seq<char>) -> Seq<ForumMessage>
    decreases ms.len(),
{
    if ms.len() == 0 {
        Seq::empty()
    } else {
        let rest = replies_of(ms.drop_last(), parent_id);
        if ms.last().parent_id matches Some(p) && p@ == parent_id {
            rest.push(ms.last())
        } else {
            rest
        }
    }
}

/// The task items under a message, oldest first.
pub open spec fn tasks_of(ts: Seq<TaskItem>, message_id: Seq<char>) -> Seq<TaskItem>
    decreases ts.len(),
{
    if ts.len() == 0 {
        Seq::empty()
    } else {
        let rest = tasks_of(ts.drop_last(), message_id);
        if ts.last().message_id@ == message_id {
            rest.push(ts.last())
        } else {
            rest
        }
    }
}

/// A task item with its completion flipped: completing stamps the author and
/// time, reopening clears both.
pub open spec fn spec_toggle(t: TaskItem, by: Option<String>, now: i64) -> TaskItem {
    if !t.completed {
        TaskItem { completed: true, completed_by: by, completed_at: Some(now), ..t }
    } else {
        TaskItem { completed: false, completed_by: None, completed_at: None, ..t }
    }
}

/// Forum bookkeeping over the store.
pub struct ForumService;

impl ForumService {
    /// Records a top-level message under a caller-chosen id: refused when the
    /// id is already taken.
    pub fn post_with_id(
        store: &mut Store,
        id: String,
        project_id: &String,
        body: MessageBody,
        author_name: &String,
        now: i64,
    ) -> (r: Result<ForumMessage, AppError>)
        requires
            old(store)@.wf(),
        ensures
            final(store)@.wf(),
            match r {
                Ok(m) => {
                    &&& m.id@ == id@
                    &&& m.project_id@ == project_id@
                    &&& m.parent_id is None
                    &&& m.body == body
                    &&& m.author_name@ == author_name@
                    &&& m.created_at == now
                    &&& !has_message(old(store)@.messages, id@)
                    &&& final(store)@ == old(store)@.with_forum(
                        old(store)@.messages.push(m),
                        old(store)@.tasks,
                    )
                },
                Err(e) => {
                    &&& *final(store) == *old(store)
                    &&& e is Internal
                    &&& has_message(old(store)@.messages, id@)
                },
            },
    {
        if message_index(&store.messages, &id).is_some() {
            return Err(AppError::Internal(String::from_str("Message id already taken")));
        }
        let m = ForumMessage {
            id,
            project_id: project_id.clone(),
            parent_id: None,
            body,
            author_name: author_name.clone(),
            created_at: now,
        };
        let out = m.duplicate();
        store.messages.push(m);
        proof {
            assert(final(store)@ =~= old(store)@.with_forum(
                old(store)@.messages.push(out),
                old(store)@.tasks,
            ));
            lemma_push_message_wf(old(store)@, final(store)@, out);
        }
        Ok(out)
    }

    /// Records a text message in a project's thread under a fresh random id.
    /// Success is not owed: the drawn id can collide, which surfaces as an
    /// internal error.
    pub fn create_text_message(
        store: &mut Store,
        project_id: &String,
        content: &String,
        author_name: &String,
        now: i64,
    ) -> (r: Result<ForumMessage, AppError>)
        requires
            old(store)@.wf(),
        ensures
            final(store)@.wf(),
            match r {
                Ok(m) => {
                    &&& m.project_id@ == project_id@
                    &&& m.parent_id is None
                    &&& (m.body matches MessageBody::Text { content: c } && c@ == content@)
                    &&& m.author_name@ == author_name@
                    &&& m.created_at == now
                    &&& final(store)@ == old(store)@.with_forum(
                        old(store)@.messages.push(m),
                        old(store)@.tasks,
                    )
                },
                Err(e) => *final(store) == *old(store) && e is Internal,
            },
    {
        let id = random_uuid();
        Self::post_with_id(
            store,
            id,
            project_id,
            MessageBody::Text { content: content.clone() },
            author_name,
            now,
        )
    }

    /// Records a photo message pointing at a document, under a fresh random
    /// id. Success is not owed: the drawn id can collide.
    pub fn create_photo_message(
        store: &mut Store,
        project_id: &String,
        document_id: &String,
        author_name: &String,
        now: i64,
    ) -> (r: Result<ForumMessage, AppError>)
        requires
            old(store)@.wf(),
        ensures
            final(store)@.wf(),
            match r {
                Ok(m) => {
                    &&& m.project_id@ == project_id@
                    &&& m.parent_id is None
                    &&& (m.body matches MessageBody::Photo { document_id: d } && d@
                        == document_id@)
                    &&& m.author_name@ == author_name@
                    &&& m.created_at == now
                    &&& final(store)@ == old(store)@.with_forum(
                        old(store)@.messages.push(m),
                        old(store)@.tasks,
                    )
                },
                Err(e) => *final(store) == *old(store) && e is Internal,
            },
    {
        let id = random_uuid();
        Self::post_with_id(
            store,
            id,
            project_id,
            MessageBody::Photo { document_id: document_id.clone() },
            author_name,
            now,
        )
    }

    /// Records a voice message carrying a stored audio path, under a fresh
    /// random id. Success is not owed: the drawn id can collide.
    pub fn create_voice_message(
        store: &mut Store,
        project_id: &String,
        audio_path: &String,
        author_name: &String,
        content: Option<&String>,
        now: i64,
    ) -> (r: Result<ForumMessage, AppError>)
        requires
            old(store)@.wf(),
        ensures
            final(store)@.wf(),
            match r {
                Ok(m) => {
                    &&& m.project_id@ == project_id@
                    &&& m.parent_id is None
                    &&& (m.body matches MessageBody::Voice { audio_path: a, content: c } && a@
                        == audio_path@ && opt_str_view(c) == crate::document::opt_key(content))
                    &&& m.author_name@ == author_name@
                    &&& m.created_at == now
                    &&& final(store)@ == old(store)@.with_forum(
                        old(store)@.messages.push(m),
                        old(store)@.tasks,
                    )
                },
                Err(e) => *final(store) == *old(store) && e is Internal,
            },
    {
        let id = random_uuid();
        Self::post_with_id(
            store,
            id,
            project_id,
            MessageBody::Voice {
                audio_path: audio_path.clone(),
                content: match content {
                    Some(c) => Some(c.clone()),
                    None => None,
                },
            },
            author_name,
            now,
        )
    }

    /// Records a task-list message and one item per listed text. The sequence
    /// is not atomic: when an item cannot be recorded, the message and the
    /// items before it remain, and an internal error reports the failure.
    #[verifier::loop_isolation(false)]
    pub fn create_task_list(
        store: &mut Store,
        project_id: &String,
        content: Option<&String>,
        items: &Vec<String>,
        author_name: &String,
        now: i64,
    ) -> (r: Result<ForumMessage, AppError>)
        requires
            old(store)@.wf(),
        ensures
            final(store)@.wf(),
            final(store)@ == old(store)@.with_forum(final(store)@.messages, final(store)@.tasks),
            match r {
                Ok(m) => {
                    &&& m.project_id@ == project_id@
                    &&& m.parent_id is None
                    &&& (m.body matches MessageBody::TaskList { content: c } && opt_str_view(c)
                        == crate::document::opt_key(content))
                    &&& m.author_name@ == author_name@
                    &&& m.created_at == now
                    &&& final(store)@.messages == old(store)@.messages.push(m)
                    &&& final(store)@.tasks.len() == old(store)@.tasks.len() + items@.len()
                    &&& forall|k: int|
                        0 <= k < old(store)@.tasks.len() ==> final(store)@.tasks[k] == old(
                            store,
                        )@.tasks[k]
                    &&& forall|k: int|
                        0 <= k < items@.len() ==> {
                            let t = #[trigger] final(store)@.tasks[old(store)@.tasks.len() + k];
                            &&& t.message_id@ == m.id@
                            &&& t.text@ == items@[k]@
                            &&& t.completed == false
                            &&& t.completed_by is None
                            &&& t.completed_at is None
                            &&& t.created_at == now
                        }
                },
                Err(e) => e is Internal,
            },
    {
        let id = random_uuid();
        let msg = Self::post_with_id(
            store,
            id,
            project_id,
            MessageBody::TaskList {
                content: match content {
                    Some(c) => Some(c.clone()),
                    None => None,
                },
            },
            author_name,
            now,
        );
        let m = match msg {
            Ok(m) => m,
            Err(e) => {
                proof {
                    assert(store@ =~= old(store)@.with_forum(store@.messages, store@.tasks));
                }
                return Err(e);
            },
        };
        let ghost mid = store@;
        let mut k: usize = 0;
        while k < items.len()
            invariant
                k <= items@.len(),
                store@.wf(),
                store@ == mid.with_forum(mid.messages, store@.tasks),
                store@.tasks.len() == mid.tasks.len() + k,
                forall|t: int| 0 <= t < mid.tasks.len() ==> store@.tasks[t] == mid.tasks[t],
                forall|t: int|
                    0 <= t < k ==> {
                        let item = #[trigger] store@.tasks[mid.tasks.len() + t];
                        &&& item.message_id@ == m.id@
                        &&& item.text@ == items@[t]@
                        &&& item.completed == false
                        &&& item.completed_by is None
                        &&& item.completed_at is None
                        &&& item.created_at == now
                    },
            decreases items@.len() - k,
        {
            let ghost pre = store@;
            let item_id = random_uuid();
            if task_index(&store.tasks, &item_id).is_some() {
                proof {
                    assert(store@ =~= old(store)@.with_forum(store@.messages, store@.tasks));
                }
                return Err(AppError::Internal(String::from_str("Task item id already taken")));
            }
            let item = TaskItem {
                id: item_id,
                message_id: m.id.clone(),
                text: items[k].clone(),
                completed: false,
                completed_by: None,
                completed_at: None,
                created_at: now,
            };
            let ghost item_spec = item;
            store.tasks.push(item);
            proof {
                assert(store@ =~= pre.with_forum(pre.messages, pre.tasks.push(item_spec)));
                assert forall|a: int, b: int|
                    0 <= a < b < store@.tasks.len() implies store@.tasks[a].id@
                    != store@.tasks[b].id@ by {
                    if b == pre.tasks.len() {
                        if pre.tasks[a].id@ == item_spec.id@ {
                            assert(has_task(pre.tasks, item_spec.id@));
                        }
                    }
                }
                assert forall|a: int|
                    0 <= a < store@.tasks.len() implies (#[trigger] store@.tasks[a]).wf() by {
                    if a < pre.tasks.len() {
                        assert(pre.tasks[a].wf());
                    }
                }
            }
            k += 1;
        }
        proof {
            assert(store@ =~= old(store)@.with_forum(store@.messages, store@.tasks));
        }
        Ok(m)
    }

    /// Records a reply under the message with this id. The reply carries its
    /// parent's project, whatever the caller might wish; `NotFound` exactly
    /// when no message carries the id.
    pub fn create_reply(
        store: &mut Store,
        parent_id: &String,
        content: &String,
        author_name: &String,
        now: i64,
    ) -> (r: Result<ForumMessage, AppError>)
        requires
            old(store)@.wf(),
        ensures
            final(store)@.wf(),
            match r {
                Ok(m) => {
                    &&& exists|i: int|
                        {
                            &&& 0 <= i < old(store)@.messages.len()
                            &&& (#[trigger] old(store)@.messages[i]).id@ == parent_id@
                            &&& m.project_id@ == old(store)@.messages[i].project_id@
                        }
                    &&& (m.parent_id matches Some(p) && p@ == parent_id@)
                    &&& (m.body matches MessageBody::Text { content: c } && c@ == content@)
                    &&& m.author_name@ == author_name@
                    &&& m.created_at == now
                    &&& final(store)@ == old(store)@.with_forum(
                        old(store)@.messages.push(m),
                        old(store)@.tasks,
                    )
                },
                Err(e) => {
                    &&& *final(store) == *old(store)
                    &&& match e {
                        AppError::NotFound(_) => !has_message(old(store)@.messages, parent_id@),
                        AppError::Internal(_) => has_message(old(store)@.messages, parent_id@),
                        AppError::BadRequest(_) => false,
                    }
                },
            },
    {
        let parent_i = match message_index(&store.messages, parent_id) {
            Some(i) => i,
            None => {
                return Err(AppError::NotFound(String::from_str("Message not found")));
            },
        };
        let id = random_uuid();
        if message_index(&store.messages, &id).is_some() {
            return Err(AppError::Internal(String::from_str("Message id already taken")));
        }
        let m = ForumMessage {
            id,
            project_id: store.messages[parent_i].project_id.clone(),
            parent_id: Some(parent_id.clone()),
            body: MessageBody::Text { content: content.clone() },
            author_name: author_name.clone(),
            created_at: now,
        };
        let out = m.duplicate();
        store.messages.push(m);
        proof {
            assert(final(store)@ =~= old(store)@.with_forum(
                old(store)@.messages.push(out),
                old(store)@.tasks,
            ));
            assert(0 <= parent_i < old(store)@.messages.len() && old(store)@.messages[parent_i as int].id@
                == parent_id@ && old(store)@.messages[parent_i as int].project_id@
                == out.project_id@);
            lemma_push_message_wf(old(store)@, final(store)@, out);
        }
        Ok(out)
    }
}

/// One task item as the API reports it.
#[derive(Debug)]
pub struct TaskItemResponse {
    pub id: String,
    pub message_id: String,
    pub text: String,
    pub completed: bool,
    pub completed_by: Option<String>,
    pub completed_at: Option<i64>,
    pub created_at: i64,
}

impl TaskItemResponse {
    /// The reported form of one item.
    pub fn from_item(t: &TaskItem) -> (r: TaskItemResponse)
        ensures
            r.id@ == t.id@,
            r.message_id@ == t.message_id@,
            r.text@ == t.text@,
            r.completed == t.completed,
            r.completed_by == t.completed_by,
            r.completed_at == t.completed_at,
            r.created_at == t.created_at,
    {
        TaskItemResponse {
            id: t.id.clone(),
            message_id: t.message_id.clone(),
            text: t.text.clone(),
            completed: t.completed,
            completed_by: dup_opt_string(&t.completed_by),
            completed_at: t.completed_at,
            created_at: t.created_at,
        }
    }
}

/// A forum message as the API reports it: the message itself, its reply
/// count, and — depending on its type — the document it shows or the task
/// items under it.
#[derive(Debug)]
pub struct ForumMessageResponse {
    pub id: String,
    pub project_id: String,
    pub parent_id: Option<String>,
    pub message_type: String,
    pub content: Option<String>,
    pub document_id: Option<String>,
    pub audio_path: Option<String>,
    pub audio_url: Option<String>,
    pub author_name: String,
    pub created_at: i64,
    pub reply_count: usize,
    pub document: Option<DocumentResponse>,
    pub items: Option<Vec<TaskItemResponse>>,
}

impl ForumService {
    /// Fetches the message with this id; `NotFound` exactly when none
    /// carries it.
    pub fn get_by_id(store: &Store, id: &String) -> (r: Result<ForumMessage, AppError>)
        ensures
            match r {
                Ok(m) => store@.messages.contains(m) && m.id@ == id@,
                Err(e) => e is NotFound && !has_message(store@.messages, id@),
            },
    {
        match message_index(&store.messages, id) {
            Some(i) => {
                let m = store.messages[i].duplicate();
                Ok(m)
            },
            None => Err(AppError::NotFound(String::from_str("Message not found"))),
        }
    }

    /// The top-level messages of this project's thread, oldest inserted
    /// first — by `laws::lemma_thread_oldest_first`, posting-time ascending
    /// whenever posting times never decrease along insertion.
    pub fn list_messages(store: &Store, project_id: &String) -> (r: Vec<ForumMessage>)
        ensures
            r@ == thread_messages(store@.messages, project_id@),
    {
        let ms = &store.messages;
        let mut out: Vec<ForumMessage> = Vec::new();
        let mut i: usize = 0;
        proof {
            assert(ms@.take(0) =~= Seq::<ForumMessage>::empty());
        }
        while i < ms.len()
            invariant
                i <= ms@.len(),
                out@ == thread_messages(ms@.take(i as int), project_id@),
            decreases ms@.len() - i,
        {
            proof {
                assert(ms@.take(i + 1).drop_last() =~= ms@.take(i as int));
                assert(ms@.take(i + 1).last() == ms@[i as int]);
            }
            let keep = ms[i].project_id == *project_id && match &ms[i].parent_id {
                Some(_) => false,
                None => true,
            };
            if keep {
                out.push(ms[i].duplicate());
            }
            i += 1;
        }
        proof {
            assert(ms@.take(ms@.len() as int) =~= ms@);
        }
        out
    }

    /// The replies under this message, oldest inserted first — by
    /// `laws::lemma_replies_oldest_first`, posting-time ascending whenever
    /// posting times never decrease along insertion.
    pub fn list_replies(store: &Store, message_id: &String) -> (r: Vec<ForumMessage>)
        ensures
            r@ == replies_of(store@.messages, message_id@),
    {
        let ms = &store.messages;
        let mut out: Vec<ForumMessage> = Vec::new();
        let mut i: usize = 0;
        proof {
            assert(ms@.take(0) =~= Seq::<ForumMessage>::empty());
        }
        while i < ms.len()
            invariant
                i <= ms@.len(),
                out@ == replies_of(ms@.take(i as int), message_id@),
            decreases ms@.len() - i,
        {
            proof {
                assert(ms@.take(i + 1).drop_last() =~= ms@.take(i as int));
                assert(ms@.take(i + 1).last() == ms@[i as int]);
            }
            let keep = match &ms[i].parent_id {
                Some(p) => *p == *message_id,
                None => false,
            };
            if keep {
                out.push(ms[i].duplicate());
            }
            i += 1;
        }
        proof {
            assert(ms@.take(ms@.len() as int) =~= ms@);
        }
        out
    }

    /// How many replies sit under this message.
    pub fn get_reply_count(store: &Store, message_id: &String) -> (r: usize)
        ensures
            r == replies_of(store@.messages, message_id@).len(),
    {
        let ms = &store.messages;
        let n = ms.len();
        let mut count: usize = 0;
        let mut i: usize = 0;
        proof {
            assert(ms@.take(0) =~= Seq::<ForumMessage>::empty());
        }
        while i < n
            invariant
                n == ms@.len(),
                i <= n,
                count == replies_of(ms@.take(i as int), message_id@).len(),
                count <= i,
            decreases ms@.len() - i,
        {
            proof {
                assert(ms@.take(i + 1).drop_last() =~= ms@.take(i as int));
                assert(ms@.take(i + 1).last() == ms@[i as int]);
            }
            let keep = match &ms[i].parent_id {
                Some(p) => *p == *message_id,
                None => false,
            };
            if keep {
                count += 1;
            }
            i += 1;
        }
        proof {
            assert(ms@.take(ms@.len() as int) =~= ms@);
        }
        count
    }

    /// The task items under this message, oldest first.
    pub fn get_task_items(store: &Store, message_id: &String) -> (r: Vec<TaskItem>)
        ensures
            r@ == tasks_of(store@.tasks, message_id@),
    {
        let ts = &store.tasks;
        let mut out: Vec<TaskItem> = Vec::new();
        let mut i: usize = 0;
        proof {
            assert(ts@.take(0) =~= Seq::<TaskItem>::empty());
        }
        while i < ts.len()
            invariant
                i <= ts@.len(),
                out@ == tasks_of(ts@.take(i as int), message_id@),
            decreases ts@.len() - i,
        {
            proof {
                assert(ts@.take(i + 1).drop_last() =~= ts@.take(i as int));
                assert(ts@.take(i + 1).last() == ts@[i as int]);
            }
            if ts[i].message_id == *message_id {
                out.push(ts[i].duplicate());
            }
            i += 1;
        }
        proof {
            assert(ts@.take(ts@.len() as int) =~= ts@);
        }
        out
    }

    /// Flips the completion of the task item with this id: completing stamps
    /// the given author and the time, reopening clears both. `NotFound`
    /// exactly when no item carries the id.
    pub fn toggle_task_item(
        store: &mut Store,
        item_id: &String,
        completed_by: Option<&String>,
        now: i64,
    ) -> (r: Result<TaskItem, AppError>)
        requires
            old(store)@.wf(),
        ensures
            final(store)@.wf(),
            match r {
                Ok(item) => exists|i: int|
                    {
                        &&& 0 <= i < old(store)@.tasks.len()
                        &&& (#[trigger] old(store)@.tasks[i]).id@ == item_id@
                        &&& item == spec_toggle(
                            old(store)@.tasks[i],
                            match completed_by {
                                Some(b) => Some(*b),
                                None => None,
                            },
                            now,
                        )
                        &&& final(store)@ == old(store)@.with_forum(
                            old(store)@.messages,
                            old(store)@.tasks.update(i, item),
                        )
                    },
                Err(e) => {
                    &&& *final(store) == *old(store)
                    &&& e is NotFound
                    &&& !has_task(old(store)@.tasks, item_id@)
                },
            },
    {
        match task_index(&store.tasks, item_id) {
            None => Err(AppError::NotFound(String::from_str("Task item not found"))),
            Some(i) => {
                let prev = store.tasks.remove(i);
                let item = if !prev.completed {
                    TaskItem {
                        completed: true,
                        completed_by: match completed_by {
                            Some(b) => Some(b.clone()),
                            None => None,
                        },
                        completed_at: Some(now),
                        ..prev
                    }
                } else {
                    TaskItem { completed: false, completed_by: None, completed_at: None, ..prev }
                };
                let out = item.duplicate();
                store.tasks.insert(i, item);
                proof {
                    let m0 = old(store)@;
                    let m1 = final(store)@;
                    assert(m1.tasks =~= m0.tasks.update(i as int, out));
                    assert(m1 =~= m0.with_forum(m0.messages, m0.tasks.update(i as int, out)));
                    assert forall|a: int, b: int|
                        0 <= a < b < m1.tasks.len() implies m1.tasks[a].id@
                        != m1.tasks[b].id@ by {
                        assert(m0.tasks[a].id@ != m0.tasks[b].id@);
                    }
                    assert forall|a: int|
                        0 <= a < m1.tasks.len() implies (#[trigger] m1.tasks[a]).wf() by {
                        assert(m0.tasks[a].wf());
                    }
                }
                Ok(out)
            },
        }
    }

    /// Records a top-level entry from the HTTP payload: `TEXT` and
    /// `TASK_LIST` are the only accepted message types.
    pub fn create_entry(
        store: &mut Store,
        project_id: &String,
        message_type: &String,
        content: Option<&String>,
        items: &Vec<String>,
        author_name: &String,
        now: i64,
    ) -> (r: Result<ForumMessage, AppError>)
        requires
            old(store)@.wf(),
        ensures
            final(store)@.wf(),
            final(store)@ == old(store)@.with_forum(final(store)@.messages, final(store)@.tasks),
            match r {
                Ok(m) => {
                    &&& (message_type@ == "TEXT"@ || message_type@ == "TASK_LIST"@)
                    &&& m.project_id@ == project_id@
                    &&& m.parent_id is None
                    &&& m.author_name@ == author_name@
                    &&& m.created_at == now
                    &&& (message_type@ == "TEXT"@ ==> (m.body matches MessageBody::Text {
                        content: c,
                    } && c@ == (match content {
                        Some(s) => s@,
                        None => Seq::<char>::empty(),
                    })))
                    &&& (message_type@ != "TEXT"@ ==> (m.body matches MessageBody::TaskList {
                        content: c,
                    } && opt_str_view(c) == crate::document::opt_key(content)))
                    &&& final(store)@.messages == old(store)@.messages.push(m)
                },
                Err(e) => match e {
                    AppError::BadRequest(_) => {
                        &&& message_type@ != "TEXT"@
                        &&& message_type@ != "TASK_LIST"@
                        &&& *final(store) == *old(store)
                    },
                    AppError::Internal(_) => message_type@ == "TEXT"@ || message_type@
                        == "TASK_LIST"@,
                    AppError::NotFound(_) => false,
                },
            },
    {
        if str_eq(message_type.as_str(), "TEXT") {
            let empty = String::new();
            let c = match content {
                Some(s) => s,
                None => &empty,
            };
            let r = Self::create_text_message(store, project_id, c, author_name, now);
            proof {
                assert(store@ =~= old(store)@.with_forum(store@.messages, store@.tasks));
            }
            r
        } else if str_eq(message_type.as_str(), "TASK_LIST") {
            Self::create_task_list(store, project_id, content, items, author_name, now)
        } else {
            proof {
                assert(store@ =~= old(store)@.with_forum(store@.messages, store@.tasks));
            }
            Err(
                AppError::BadRequest(
                    String::from_str("Invalid message_type. Use TEXT or TASK_LIST."),
                ),
            )
        }
    }

    /// Assembles the full response for a message: the message, its reply
    /// count, the shown document of a photo message (when it still exists),
    /// and the task items of a task list.
    pub fn build_response(store: &Store, msg: &ForumMessage, base_url: &str) -> (r:
        ForumMessageResponse)
        ensures
            r.id@ == msg.id@,
            r.project_id@ == msg.project_id@,
            opt_str_view(r.parent_id) == opt_str_view(msg.parent_id),
            r.message_type@ == spec_message_type(msg.body),
            (match msg.body {
                MessageBody::Text { content } => opt_str_view(r.content) == Some(content@),
                MessageBody::Voice { content, .. } => opt_str_view(r.content) == opt_str_view(
                    content,
                ),
                MessageBody::TaskList { content } => opt_str_view(r.content) == opt_str_view(
                    content,
                ),
                MessageBody::Photo { .. } => r.content is None,
            }),
            (match msg.body {
                MessageBody::Photo { document_id } => opt_str_view(r.document_id) == Some(
                    document_id@,
                ),
                _ => r.document_id is None,
            }),
            (match msg.body {
                MessageBody::Voice { audio_path, .. } => {
                    &&& opt_str_view(r.audio_path) == Some(audio_path@)
                    &&& (r.audio_url matches Some(u) && u@ == "/files/"@ + audio_path@)
                },
                _ => r.audio_path is None && r.audio_url is None,
            }),
            r.author_name@ == msg.author_name@,
            r.created_at == msg.created_at,
            r.reply_count == replies_of(store@.messages, msg.id@).len(),
            (match msg.body {
                MessageBody::Photo { document_id } => {
                    &&& (crate::model::has_doc(store@.docs, document_id@) <==> r.document is Some)
                    &&& (r.document matches Some(d) ==> d.id@ == document_id@)
                },
                _ => r.document is None,
            }),
            (match msg.body {
                MessageBody::TaskList { .. } => {
                    &&& (r.items matches Some(v) && v@.len() == tasks_of(
                        store@.tasks,
                        msg.id@,
                    ).len())
                    &&& (r.items matches Some(v) ==> forall|j: int|
                        0 <= j < v@.len() ==> {
                            let t = tasks_of(store@.tasks, msg.id@)[j];
                            &&& (#[trigger] v@[j]).id@ == t.id@
                            &&& v@[j].text@ == t.text@
                            &&& v@[j].completed == t.completed
                            &&& v@[j].completed_by == t.completed_by
                            &&& v@[j].completed_at == t.completed_at
                        })
                },
                _ => r.items is None,
            }),
    {
        let reply_count = Self::get_reply_count(store, &msg.id);
        let message_type = match &msg.body {
            MessageBody::Text { .. } => String::from_str("TEXT"),
            MessageBody::Photo { .. } => String::from_str("PHOTO"),
            MessageBody::Voice { .. } => String::from_str("VOICE"),
            MessageBody::TaskList { .. } => String::from_str("TASK_LIST"),
        };
        let content = match &msg.body {
            MessageBody::Text { content } => Some(content.clone()),
            MessageBody::Voice { content, .. } => dup_opt_string(content),
            MessageBody::TaskList { content } => dup_opt_string(content),
            MessageBody::Photo { .. } => None,
        };
        let document_id = match &msg.body {
            MessageBody::Photo { document_id } => Some(document_id.clone()),
            _ => None,
        };
        let (audio_path, audio_url) = match &msg.body {
            MessageBody::Voice { audio_path, .. } => {
                let mut url = String::from_str("/files/");
                url.append(audio_path.as_str());
                (Some(audio_path.clone()), Some(url))
            },
            _ => (None, None),
        };
        let document = match &msg.body {
            MessageBody::Photo { document_id } => {
                match doc_index(&store.docs, document_id) {
                    Some(i) => Some(DocumentResponse::from_document(&store.docs[i], base_url)),
                    None => None,
                }
            },
            _ => None,
        };
        let items = match &msg.body {
            MessageBody::TaskList { .. } => {
                let task_items = Self::get_task_items(store, &msg.id);
                let mut v: Vec<TaskItemResponse> = Vec::new();
                let mut j: usize = 0;
                while j < task_items.len()
                    invariant
                        j <= task_items@.len(),
                        v@.len() == j,
                        forall|t: int|
                            0 <= t < j ==> {
                                let src = task_items@[t];
                                &&& (#[trigger] v@[t]).id@ == src.id@
                                &&& v@[t].text@ == src.text@
                                &&& v@[t].completed == src.completed
                                &&& v@[t].completed_by == src.completed_by
                                &&& v@[t].completed_at == src.completed_at
                            },
                    decreases task_items@.len() - j,
                {
                    v.push(TaskItemResponse::from_item(&task_items[j]));
                    j += 1;
                }
                Some(v)
            },
            _ => None,
        };
        ForumMessageResponse {
            id: msg.id.clone(),
            project_id: msg.project_id.clone(),
            parent_id: dup_opt_string(&msg.parent_id),
            message_type,
            content,
            document_id,
            audio_path,
            audio_url,
            author_name: msg.author_name.clone(),
            created_at: msg.created_at,
            reply_count,
            document,
            items,
        }
    }
}

} // verus!
