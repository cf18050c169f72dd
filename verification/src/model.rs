//! The data model: one row type per table, the in-memory [`Store`] that holds
//! them, its mathematical view [`StoreModel`], and the well-formedness
//! predicate every operation preserves.

use vstd::prelude::*;

verus! {

// ---------------------------------------------------------------------------
// Enumerations
// ---------------------------------------------------------------------------

/// Workflow status of a project: ongoing or completed.
#[derive(Debug, Clone, Copy, PartialEq, Eq, Structural)]
pub enum ProjectStatus {
    Active,
    Archived,
}

impl ProjectStatus {
    /// The stored notation of the status.
    pub fn as_str(&self) -> (r: &'static str)
        ensures
            *self is Active ==> r@ == "ACTIVE"@,
            *self is Archived ==> r@ == "ARCHIVED"@,
    {
        match self {
            ProjectStatus::Active => "ACTIVE",
            ProjectStatus::Archived => "ARCHIVED",
        }
    }
}

/// Lifecycle status of a document.
#[derive(Debug, Clone, Copy, PartialEq, Eq, Structural)]
pub enum DocStatus {
    Default,
    Doubt,
    InProgress,
    Completed,
}

/// What an email filter inspects.
#[derive(Debug, Clone, Copy, PartialEq, Eq, Structural)]
pub enum FilterKind {
    /// Reject when the file name contains the pattern (ASCII case folded).
    Filename,
    /// Reject when the file name ends with the pattern as an extension.
    Extension,
    /// Reject attachments strictly smaller than the numeric pattern; the
    /// filter aims at small decorative images, hence the inverted sense.
    SizeMax,
}

impl FilterKind {
    /// The stored notation of the kind.
    pub fn as_str(&self) -> (r: &'static str)
        ensures
            *self is Filename ==> r@ == "filename"@,
            *self is Extension ==> r@ == "extension"@,
            *self is SizeMax ==> r@ == "size_max"@,
    {
        match self {
            FilterKind::Filename => "filename",
            FilterKind::Extension => "extension",
            FilterKind::SizeMax => "size_max",
        }
    }
}

// ---------------------------------------------------------------------------
// Rows
// ---------------------------------------------------------------------------

/// A work order ("Obra"): the unit that documents and forum messages are
/// organized under.
#[derive(Debug)]
pub struct Project {
    pub id: String,
    pub name: String,
    pub status: ProjectStatus,
    pub created_at: i64,
}

impl Project {
    /// A field-for-field copy.
    pub fn duplicate(&self) -> (r: Project)
        ensures
            r == *self,
    {
        Project {
            id: self.id.clone(),
            name: self.name.clone(),
            status: self.status,
            created_at: self.created_at,
        }
    }
}

/// An uploaded file. `project_id == None` means the document sits in the
/// Inbox, waiting to be organized.
#[derive(Debug)]
pub struct Document {
    pub id: String,
    pub project_id: Option<String>,
    pub file_path: String,
    pub file_type: String,
    pub original_name: String,
    pub uploaded_at: i64,
    pub notes: Option<String>,
    pub status: DocStatus,
    pub category: Option<String>,
    pub audio_path: Option<String>,
}

/// A field-for-field copy of an optional string.
pub fn dup_opt_string(s: &Option<String>) -> (r: Option<String>)
    ensures
        r == *s,
{
    match s {
        Some(x) => Some(x.clone()),
        None => None,
    }
}

impl Document {
    /// A field-for-field copy.
    pub fn duplicate(&self) -> (r: Document)
        ensures
            r == *self,
    {
        Document {
            id: self.id.clone(),
            project_id: dup_opt_string(&self.project_id),
            file_path: self.file_path.clone(),
            file_type: self.file_type.clone(),
            original_name: self.original_name.clone(),
            uploaded_at: self.uploaded_at,
            notes: dup_opt_string(&self.notes),
            status: self.status,
            category: dup_opt_string(&self.category),
            audio_path: dup_opt_string(&self.audio_path),
        }
    }
}

/// A routing rule: mail whose sender matches `sender_pattern` has its
/// attachments filed under `project_id` (`None` routes to the Inbox).
#[derive(Debug)]
pub struct EmailRule {
    pub id: String,
    pub sender_pattern: String,
    pub project_id: Option<String>,
    pub description: Option<String>,
    pub active: bool,
    pub created_at: i64,
}

impl EmailRule {
    /// A field-for-field copy.
    pub fn duplicate(&self) -> (r: EmailRule)
        ensures
            r == *self,
    {
        EmailRule {
            id: self.id.clone(),
            sender_pattern: self.sender_pattern.clone(),
            project_id: dup_opt_string(&self.project_id),
            description: dup_opt_string(&self.description),
            active: self.active,
            created_at: self.created_at,
        }
    }
}

/// An attachment filter: attachments it matches are dropped, not saved.
#[derive(Debug)]
pub struct EmailFilter {
    pub id: String,
    pub pattern: String,
    pub kind: FilterKind,
    pub active: bool,
    pub created_at: i64,
}

impl EmailFilter {
    /// A field-for-field copy.
    pub fn duplicate(&self) -> (r: EmailFilter)
        ensures
            r == *self,
    {
        EmailFilter {
            id: self.id.clone(),
            pattern: self.pattern.clone(),
            kind: self.kind,
            active: self.active,
            created_at: self.created_at,
        }
    }
}

/// The payload of a forum message, by message type.
#[derive(Debug)]
pub enum MessageBody {
    Text { content: String },
    Photo { document_id: String },
    Voice { audio_path: String, content: Option<String> },
    TaskList { content: Option<String> },
}

impl MessageBody {
    /// A field-for-field copy.
    pub fn duplicate(&self) -> (r: MessageBody)
        ensures
            r == *self,
    {
        match self {
            MessageBody::Text { content } => MessageBody::Text { content: content.clone() },
            MessageBody::Photo { document_id } => MessageBody::Photo {
                document_id: document_id.clone(),
            },
            MessageBody::Voice { audio_path, content } => MessageBody::Voice {
                audio_path: audio_path.clone(),
                content: dup_opt_string(content),
            },
            MessageBody::TaskList { content } => MessageBody::TaskList {
                content: dup_opt_string(content),
            },
        }
    }
}

/// A forum post. `parent_id == Some(_)` makes it a reply; replies always
/// carry their parent's `project_id`.
#[derive(Debug)]
pub struct ForumMessage {
    pub id: String,
    pub project_id: String,
    pub parent_id: Option<String>,
    pub body: MessageBody,
    pub author_name: String,
    pub created_at: i64,
}

impl ForumMessage {
    /// A field-for-field copy.
    pub fn duplicate(&self) -> (r: ForumMessage)
        ensures
            r == *self,
    {
        ForumMessage {
            id: self.id.clone(),
            project_id: self.project_id.clone(),
            parent_id: dup_opt_string(&self.parent_id),
            body: self.body.duplicate(),
            author_name: self.author_name.clone(),
            created_at: self.created_at,
        }
    }
}

/// One entry of a task-list message. When not completed, the completion
/// stamps are clear.
#[derive(Debug)]
pub struct TaskItem {
    pub id: String,
    pub message_id: String,
    pub text: String,
    pub completed: bool,
    pub completed_by: Option<String>,
    pub completed_at: Option<i64>,
    pub created_at: i64,
}

impl TaskItem {
    /// The completion stamps agree with the flag.
    pub open spec fn wf(self) -> bool {
        &&& (!self.completed ==> self.completed_by is None && self.completed_at is None)
        &&& (self.completed ==> self.completed_at is Some)
    }

    /// A field-for-field copy.
    pub fn duplicate(&self) -> (r: TaskItem)
        ensures
            r == *self,
    {
        TaskItem {
            id: self.id.clone(),
            message_id: self.message_id.clone(),
            text: self.text.clone(),
            completed: self.completed,
            completed_by: dup_opt_string(&self.completed_by),
            completed_at: self.completed_at,
            created_at: self.created_at,
        }
    }
}

/// A web-push subscription, keyed by its endpoint.
#[derive(Debug)]
pub struct PushSubscription {
    pub id: String,
    pub endpoint: String,
    pub p256dh: String,
    pub auth: String,
    pub author_name: Option<String>,
    pub created_at: i64,
}

impl PushSubscription {
    /// A field-for-field copy.
    pub fn duplicate(&self) -> (r: PushSubscription)
        ensures
            r == *self,
    {
        PushSubscription {
            id: self.id.clone(),
            endpoint: self.endpoint.clone(),
            p256dh: self.p256dh.clone(),
            auth: self.auth.clone(),
            author_name: dup_opt_string(&self.author_name),
            created_at: self.created_at,
        }
    }
}

/// A user profile, keyed by name.
#[derive(Debug)]
pub struct UserProfile {
    pub name: String,
    pub photo_url: String,
    pub updated_at: i64,
}

impl UserProfile {
    /// A field-for-field copy.
    pub fn duplicate(&self) -> (r: UserProfile)
        ensures
            r == *self,
    {
        UserProfile {
            name: self.name.clone(),
            photo_url: self.photo_url.clone(),
            updated_at: self.updated_at,
        }
    }
}

// ---------------------------------------------------------------------------
// The store
// ---------------------------------------------------------------------------

/// The whole persistent state, as rows in memory. The hosting program is
/// expected to keep the real storage (database rows, the upload directory)
/// in step with this value.
#[derive(Debug)]
pub struct Store {
    pub projects: Vec<Project>,
    pub docs: Vec<Document>,
    pub rules: Vec<EmailRule>,
    pub filters: Vec<EmailFilter>,
    pub messages: Vec<ForumMessage>,
    pub tasks: Vec<TaskItem>,
    pub subs: Vec<PushSubscription>,
    pub profiles: Vec<UserProfile>,
    /// Paths of the stored document files, newest last.
    pub files: Vec<String>,
    pub vapid_private_pem: Option<String>,
    pub vapid_public_key: Option<String>,
}

/// The store seen as plain sequences.
#[verifier::ext_equal]
pub struct StoreModel {
    pub projects: Seq<Project>,
    pub docs: Seq<Document>,
    pub rules: Seq<EmailRule>,
    pub filters: Seq<EmailFilter>,
    pub messages: Seq<ForumMessage>,
    pub tasks: Seq<TaskItem>,
    pub subs: Seq<PushSubscription>,
    pub profiles: Seq<UserProfile>,
    pub files: Seq<String>,
    pub vapid_private_pem: Option<String>,
    pub vapid_public_key: Option<String>,
}

impl View for Store {
    type V = StoreModel;

    open spec fn view(&self) -> StoreModel {
        StoreModel {
            projects: self.projects@,
            docs: self.docs@,
            rules: self.rules@,
            filters: self.filters@,
            messages: self.messages@,
            tasks: self.tasks@,
            subs: self.subs@,
            profiles: self.profiles@,
            files: self.files@,
            vapid_private_pem: self.vapid_private_pem,
            vapid_public_key: self.vapid_public_key,
        }
    }
}


/// The view of an optional string.
pub open spec fn opt_str_view(o: Option<String>) -> Option<Seq<char>> {
    match o {
        Some(s) => Some(s@),
        None => None,
    }
}

// ---------------------------------------------------------------------------
// Existence predicates
// ---------------------------------------------------------------------------

/// Some project carries this id.
pub open spec fn has_project(s: Seq<Project>, id: Seq<char>) -> bool {
    exists|i: int| 0 <= i < s.len() && (#[trigger] s[i]).id@ == id
}

/// Some document carries this id.
pub open spec fn has_doc(s: Seq<Document>, id: Seq<char>) -> bool {
    exists|i: int| 0 <= i < s.len() && (#[trigger] s[i]).id@ == id
}

/// Some rule carries this id.
pub open spec fn has_rule(s: Seq<EmailRule>, id: Seq<char>) -> bool {
    exists|i: int| 0 <= i < s.len() && (#[trigger] s[i]).id@ == id
}

/// Some filter carries this id.
pub open spec fn has_filter(s: Seq<EmailFilter>, id: Seq<char>) -> bool {
    exists|i: int| 0 <= i < s.len() && (#[trigger] s[i]).id@ == id
}

/// Some message carries this id.
pub open spec fn has_message(s: Seq<ForumMessage>, id: Seq<char>) -> bool {
    exists|i: int| 0 <= i < s.len() && (#[trigger] s[i]).id@ == id
}

/// Some task item carries this id.
pub open spec fn has_task(s: Seq<TaskItem>, id: Seq<char>) -> bool {
    exists|i: int| 0 <= i < s.len() && (#[trigger] s[i]).id@ == id
}

/// Some subscription uses this endpoint.
pub open spec fn has_endpoint(s: Seq<PushSubscription>, endpoint: Seq<char>) -> bool {
    exists|i: int| 0 <= i < s.len() && (#[trigger] s[i]).endpoint@ == endpoint
}

/// Some profile carries this name.
pub open spec fn has_profile(s: Seq<UserProfile>, name: Seq<char>) -> bool {
    exists|i: int| 0 <= i < s.len() && (#[trigger] s[i]).name@ == name
}

/// Some stored file uses this path.
pub open spec fn has_file(s: Seq<String>, path: Seq<char>) -> bool {
    exists|i: int| 0 <= i < s.len() && (#[trigger] s[i])@ == path
}

// ---------------------------------------------------------------------------
// Well-formedness
// ---------------------------------------------------------------------------

impl StoreModel {
    /// Project ids are pairwise distinct.
    pub open spec fn projects_wf(self) -> bool {
        forall|i: int, j: int|
            #![trigger self.projects[i], self.projects[j]]
            0 <= i < j < self.projects.len() ==> self.projects[i].id@ != self.projects[j].id@
    }

    /// Document ids and file paths are pairwise distinct, and every
    /// document's file is present in the store.
    pub open spec fn docs_wf(self) -> bool {
        &&& forall|i: int, j: int|
            #![trigger self.docs[i], self.docs[j]]
            0 <= i < j < self.docs.len() ==> self.docs[i].id@ != self.docs[j].id@
                && self.docs[i].file_path@ != self.docs[j].file_path@
        &&& forall|i: int|
            0 <= i < self.docs.len() ==> has_file(self.files, (#[trigger] self.docs[i]).file_path@)
    }

    /// Stored file paths are pairwise distinct.
    pub open spec fn files_wf(self) -> bool {
        forall|i: int, j: int|
            #![trigger self.files[i], self.files[j]]
            0 <= i < j < self.files.len() ==> self.files[i]@ != self.files[j]@
    }

    /// Rule ids are pairwise distinct.
    pub open spec fn rules_wf(self) -> bool {
        forall|i: int, j: int|
            #![trigger self.rules[i], self.rules[j]]
            0 <= i < j < self.rules.len() ==> self.rules[i].id@ != self.rules[j].id@
    }

    /// Filter ids are pairwise distinct.
    pub open spec fn filters_wf(self) -> bool {
        forall|i: int, j: int|
            #![trigger self.filters[i], self.filters[j]]
            0 <= i < j < self.filters.len() ==> self.filters[i].id@ != self.filters[j].id@
    }

    /// Message ids are pairwise distinct, and every reply's parent exists
    /// and carries the same project.
    pub open spec fn messages_wf(self) -> bool {
        &&& forall|i: int, j: int|
            #![trigger self.messages[i], self.messages[j]]
            0 <= i < j < self.messages.len() ==> self.messages[i].id@ != self.messages[j].id@
        &&& forall|i: int|
            0 <= i < self.messages.len() && (#[trigger] self.messages[i]).parent_id is Some
                ==> exists|p: int|
                    0 <= p < self.messages.len()
                        && (#[trigger] self.messages[p]).id@
                            == self.messages[i].parent_id->0@
                        && self.messages[p].project_id@ == self.messages[i].project_id@
    }

    /// Task ids are pairwise distinct and every item's stamps agree with
    /// its flag.
    pub open spec fn tasks_wf(self) -> bool {
        &&& forall|i: int, j: int|
            #![trigger self.tasks[i], self.tasks[j]]
            0 <= i < j < self.tasks.len() ==> self.tasks[i].id@ != self.tasks[j].id@
        &&& forall|i: int| 0 <= i < self.tasks.len() ==> (#[trigger] self.tasks[i]).wf()
    }

    /// Subscription endpoints are pairwise distinct.
    pub open spec fn subs_wf(self) -> bool {
        forall|i: int, j: int|
            #![trigger self.subs[i], self.subs[j]]
            0 <= i < j < self.subs.len() ==> self.subs[i].endpoint@ != self.subs[j].endpoint@
    }

    /// Profiles are strictly ordered by name, which also keeps the names
    /// pairwise distinct.
    pub open spec fn profiles_wf(self) -> bool {
        forall|i: int, j: int|
            #![trigger self.profiles[i], self.profiles[j]]
            0 <= i < j < self.profiles.len() ==> crate::text::lex_lt(
                self.profiles[i].name@,
                self.profiles[j].name@,
            )
    }

    /// The invariant every operation preserves.
    pub open spec fn wf(self) -> bool {
        &&& self.projects_wf()
        &&& self.docs_wf()
        &&& self.files_wf()
        &&& self.rules_wf()
        &&& self.filters_wf()
        &&& self.messages_wf()
        &&& self.tasks_wf()
        &&& self.subs_wf()
        &&& self.profiles_wf()
    }

    /// This model with the documents (and their files) replaced.
    pub open spec fn with_docs_files(self, docs: Seq<Document>, files: Seq<String>) -> StoreModel {
        StoreModel { docs, files, ..self }
    }

    /// This model with the projects replaced.
    pub open spec fn with_projects(self, projects: Seq<Project>) -> StoreModel {
        StoreModel { projects, ..self }
    }

    /// This model with the rules replaced.
    pub open spec fn with_rules(self, rules: Seq<EmailRule>) -> StoreModel {
        StoreModel { rules, ..self }
    }

    /// This model with the filters replaced.
    pub open spec fn with_filters(self, filters: Seq<EmailFilter>) -> StoreModel {
        StoreModel { filters, ..self }
    }

    /// This model with the messages and task items replaced.
    pub open spec fn with_forum(self, messages: Seq<ForumMessage>, tasks: Seq<TaskItem>) -> StoreModel {
        StoreModel { messages, tasks, ..self }
    }

    /// This model with the subscriptions replaced.
    pub open spec fn with_subs(self, subs: Seq<PushSubscription>) -> StoreModel {
        StoreModel { subs, ..self }
    }

    /// This model with the profiles replaced.
    pub open spec fn with_profiles(self, profiles: Seq<UserProfile>) -> StoreModel {
        StoreModel { profiles, ..self }
    }

    /// This model with the push key pair replaced.
    pub open spec fn with_vapid(
        self,
        vapid_private_pem: Option<String>,
        vapid_public_key: Option<String>,
    ) -> StoreModel {
        StoreModel { vapid_private_pem, vapid_public_key, ..self }
    }
}

impl Store {
    /// An empty store.
    pub fn new() -> (r: Store)
        ensures
            r@.wf(),
            r@.projects.len() == 0,
            r@.docs.len() == 0,
            r@.rules.len() == 0,
            r@.filters.len() == 0,
            r@.messages.len() == 0,
            r@.tasks.len() == 0,
            r@.subs.len() == 0,
            r@.profiles.len() == 0,
            r@.files.len() == 0,
            r@.vapid_private_pem is None,
            r@.vapid_public_key is None,
    {
        Store {
            projects: Vec::new(),
            docs: Vec::new(),
            rules: Vec::new(),
            filters: Vec::new(),
            messages: Vec::new(),
            tasks: Vec::new(),
            subs: Vec::new(),
            profiles: Vec::new(),
            files: Vec::new(),
            vapid_private_pem: None,
            vapid_public_key: None,
        }
    }
}


// ---------------------------------------------------------------------------
// Listing order
// ---------------------------------------------------------------------------

/// Whether `d` is filed under `key` (`None` names the Inbox).
pub open spec fn doc_key_matches(d: Document, key: Option<Seq<char>>) -> bool {
    match (d.project_id, key) {
        (Option::None, Option::None) => true,
        (Option::Some(p), Option::Some(k)) => p@ == k,
        _ => false,
    }
}

/// The documents filed under `key`, newest (latest inserted) first.
pub open spec fn docs_under(docs: Seq<Document>, key: Option<Seq<char>>) -> Seq<Document>
    decreases docs.len(),
{
    if docs.len() == 0 {
        Seq::empty()
    } else {
        let rest = docs_under(docs.drop_first(), key);
        if doc_key_matches(docs.first(), key) {
            rest.push(docs.first())
        } else {
            rest
        }
    }
}

// ---------------------------------------------------------------------------
// Lookups
// ---------------------------------------------------------------------------

/// The position of the project with this id, if any.
pub fn project_index(v: &Vec<Project>, id: &String) -> (r: Option<usize>)
    ensures
        match r {
            Some(i) => i < v@.len() && v@[i as int].id@ == id@,
            None => !has_project(v@, id@),
        },
{
    let mut i: usize = 0;
    while i < v.len()
        invariant
            i <= v@.len(),
            forall|k: int| 0 <= k < i ==> (#[trigger] v@[k]).id@ != id@,
        decreases v@.len() - i,
    {
        if v[i].id == *id {
            return Some(i);
        }
        i += 1;
    }
    None
}

/// The position of the document with this id, if any.
pub fn doc_index(v: &Vec<Document>, id: &String) -> (r: Option<usize>)
    ensures
        match r {
            Some(i) => i < v@.len() && v@[i as int].id@ == id@,
            None => !has_doc(v@, id@),
        },
{
    let mut i: usize = 0;
    while i < v.len()
        invariant
            i <= v@.len(),
            forall|k: int| 0 <= k < i ==> (#[trigger] v@[k]).id@ != id@,
        decreases v@.len() - i,
    {
        if v[i].id == *id {
            return Some(i);
        }
        i += 1;
    }
    None
}

/// The position of the rule with this id, if any.
pub fn rule_index(v: &Vec<EmailRule>, id: &String) -> (r: Option<usize>)
    ensures
        match r {
            Some(i) => i < v@.len() && v@[i as int].id@ == id@,
            None => !has_rule(v@, id@),
        },
{
    let mut i: usize = 0;
    while i < v.len()
        invariant
            i <= v@.len(),
            forall|k: int| 0 <= k < i ==> (#[trigger] v@[k]).id@ != id@,
        decreases v@.len() - i,
    {
        if v[i].id == *id {
            return Some(i);
        }
        i += 1;
    }
    None
}

/// The position of the filter with this id, if any.
pub fn filter_index(v: &Vec<EmailFilter>, id: &String) -> (r: Option<usize>)
    ensures
        match r {
            Some(i) => i < v@.len() && v@[i as int].id@ == id@,
            None => !has_filter(v@, id@),
        },
{
    let mut i: usize = 0;
    while i < v.len()
        invariant
            i <= v@.len(),
            forall|k: int| 0 <= k < i ==> (#[trigger] v@[k]).id@ != id@,
        decreases v@.len() - i,
    {
        if v[i].id == *id {
            return Some(i);
        }
        i += 1;
    }
    None
}

/// The position of the message with this id, if any.
pub fn message_index(v: &Vec<ForumMessage>, id: &String) -> (r: Option<usize>)
    ensures
        match r {
            Some(i) => i < v@.len() && v@[i as int].id@ == id@,
            None => !has_message(v@, id@),
        },
{
    let mut i: usize = 0;
    while i < v.len()
        invariant
            i <= v@.len(),
            forall|k: int| 0 <= k < i ==> (#[trigger] v@[k]).id@ != id@,
        decreases v@.len() - i,
    {
        if v[i].id == *id {
            return Some(i);
        }
        i += 1;
    }
    None
}

/// The position of the task item with this id, if any.
pub fn task_index(v: &Vec<TaskItem>, id: &String) -> (r: Option<usize>)
    ensures
        match r {
            Some(i) => i < v@.len() && v@[i as int].id@ == id@,
            None => !has_task(v@, id@),
        },
{
    let mut i: usize = 0;
    while i < v.len()
        invariant
            i <= v@.len(),
            forall|k: int| 0 <= k < i ==> (#[trigger] v@[k]).id@ != id@,
        decreases v@.len() - i,
    {
        if v[i].id == *id {
            return Some(i);
        }
        i += 1;
    }
    None
}

/// The position of the subscription with this endpoint, if any.
pub fn endpoint_index(v: &Vec<PushSubscription>, endpoint: &String) -> (r: Option<usize>)
    ensures
        match r {
            Some(i) => i < v@.len() && v@[i as int].endpoint@ == endpoint@,
            None => !has_endpoint(v@, endpoint@),
        },
{
    let mut i: usize = 0;
    while i < v.len()
        invariant
            i <= v@.len(),
            forall|k: int| 0 <= k < i ==> (#[trigger] v@[k]).endpoint@ != endpoint@,
        decreases v@.len() - i,
    {
        if v[i].endpoint == *endpoint {
            return Some(i);
        }
        i += 1;
    }
    None
}

/// The position of the profile with this name, if any.
pub fn profile_index(v: &Vec<UserProfile>, name: &String) -> (r: Option<usize>)
    ensures
        match r {
            Some(i) => i < v@.len() && v@[i as int].name@ == name@,
            None => !has_profile(v@, name@),
        },
{
    let mut i: usize = 0;
    while i < v.len()
        invariant
            i <= v@.len(),
            forall|k: int| 0 <= k < i ==> (#[trigger] v@[k]).name@ != name@,
        decreases v@.len() - i,
    {
        if v[i].name == *name {
            return Some(i);
        }
        i += 1;
    }
    None
}

/// Whether some stored file uses this path.
pub fn file_exists(v: &Vec<String>, path: &String) -> (r: bool)
    ensures
        r == has_file(v@, path@),
{
    let mut i: usize = 0;
    while i < v.len()
        invariant
            i <= v@.len(),
            forall|k: int| 0 <= k < i ==> (#[trigger] v@[k])@ != path@,
        decreases v@.len() - i,
    {
        if v[i] == *path {
            return true;
        }
        i += 1;
    }
    false
}

/// The position of the stored file with this path, if any.
pub fn file_index(v: &Vec<String>, path: &String) -> (r: Option<usize>)
    ensures
        match r {
            Some(i) => i < v@.len() && v@[i as int]@ == path@,
            None => !has_file(v@, path@),
        },
{
    let mut i: usize = 0;
    while i < v.len()
        invariant
            i <= v@.len(),
            forall|k: int| 0 <= k < i ==> (#[trigger] v@[k])@ != path@,
        decreases v@.len() - i,
    {
        if v[i] == *path {
            return Some(i);
        }
        i += 1;
    }
    None
}

/// Appending a document with a fresh id and a fresh file path, and its path,
/// keeps the store well formed.
pub proof fn lemma_push_doc_wf(m0: StoreModel, m1: StoreModel, d: Document)
    requires
        m0.wf(),
        !has_doc(m0.docs, d.id@),
        !has_file(m0.files, d.file_path@),
        m1 == m0.with_docs_files(m0.docs.push(d), m0.files.push(d.file_path)),
    ensures
        m1.wf(),
{
    let nd = m0.docs.len() as int;
    let nf = m0.files.len() as int;
    assert forall|i: int, j: int|
        0 <= i < j < m1.docs.len() implies m1.docs[i].id@ != m1.docs[j].id@
        && m1.docs[i].file_path@ != m1.docs[j].file_path@ by {
        if j == nd {
            assert(m1.docs[i] == m0.docs[i]);
            if m0.docs[i].id@ == d.id@ {
                assert(0 <= i < m0.docs.len() && m0.docs[i].id@ == d.id@);
                assert(has_doc(m0.docs, d.id@));
            }
            if m0.docs[i].file_path@ == d.file_path@ {
                assert(has_file(m0.files, m0.docs[i].file_path@));
                assert(has_file(m0.files, d.file_path@));
            }
        }
    }
    assert forall|i: int|
        0 <= i < m1.docs.len() implies has_file(m1.files, (#[trigger] m1.docs[i]).file_path@) by {
        if i < nd {
            assert(has_file(m0.files, m0.docs[i].file_path@));
            let w = choose|w: int| 0 <= w < nf && (#[trigger] m0.files[w])@ == m0.docs[i].file_path@;
            assert(m1.files[w]@ == m1.docs[i].file_path@);
        } else {
            assert(m1.files[nf]@ == m1.docs[i].file_path@);
        }
    }
    assert forall|i: int, j: int|
        0 <= i < j < m1.files.len() implies m1.files[i]@ != m1.files[j]@ by {
        if j == nf {
            if m0.files[i]@ == d.file_path@ {
                assert(0 <= i < nf && m0.files[i]@ == d.file_path@);
                assert(has_file(m0.files, d.file_path@));
            }
        }
    }
}

/// Appending a message with a fresh id, whose parent (if any) exists and
/// carries the same project, keeps the store well formed.
pub proof fn lemma_push_message_wf(m0: StoreModel, m1: StoreModel, m: ForumMessage)
    requires
        m0.wf(),
        !has_message(m0.messages, m.id@),
        match m.parent_id {
            Some(p) => exists|i: int|
                0 <= i < m0.messages.len() && (#[trigger] m0.messages[i]).id@ == p@
                    && m0.messages[i].project_id@ == m.project_id@,
            None => true,
        },
        m1 == m0.with_forum(m0.messages.push(m), m0.tasks),
    ensures
        m1.wf(),
{
    let n = m0.messages.len() as int;
    assert forall|a: int, b: int|
        0 <= a < b < m1.messages.len() implies m1.messages[a].id@ != m1.messages[b].id@ by {
        if b == n {
            if m0.messages[a].id@ == m.id@ {
                assert(has_message(m0.messages, m.id@));
            }
        }
    }
    assert forall|a: int|
        0 <= a < m1.messages.len() && (#[trigger] m1.messages[a]).parent_id is Some
        implies exists|p: int|
        0 <= p < m1.messages.len() && (#[trigger] m1.messages[p]).id@
            == m1.messages[a].parent_id->0@ && m1.messages[p].project_id@
            == m1.messages[a].project_id@ by {
        if a < n {
            let w = choose|w: int|
                0 <= w < n && (#[trigger] m0.messages[w]).id@ == m0.messages[a].parent_id->0@
                    && m0.messages[w].project_id@ == m0.messages[a].project_id@;
            assert(0 <= w < m1.messages.len() && m1.messages[w].id@
                == m1.messages[a].parent_id->0@ && m1.messages[w].project_id@
                == m1.messages[a].project_id@);
        } else {
            let w = choose|w: int|
                0 <= w < n && (#[trigger] m0.messages[w]).id@ == m.parent_id->0@
                    && m0.messages[w].project_id@ == m.project_id@;
            assert(0 <= w < m1.messages.len() && m1.messages[w].id@
                == m1.messages[a].parent_id->0@ && m1.messages[w].project_id@
                == m1.messages[a].project_id@);
        }
    }
}

} // verus!
