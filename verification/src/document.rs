//! The document workflow engine: upload intake, the Inbox, assignment to
//! projects, single-field updates, and deletion.

use vstd::prelude::*;

use crate::clock::{format_photo_label, format_upload_stamp, photo_label, upload_stamp, valid_time};
use crate::error::AppError;
use crate::ids::random_uuid;
use crate::model::{
    doc_index, doc_key_matches, docs_under, file_exists, file_index, has_doc, has_file,
    has_project, project_index, DocStatus, Document, Store,
};
use crate::text::{
    lower_seq, starts_with_ignore_case, starts_with_seq, starts_with_str, str_eq, eq_ignore_case,
};

verus! {

/// The category a MIME type is filed under: `image`, `pdf`, `video` or
/// `other`.
pub open spec fn spec_mime_category(m: Seq<char>) -> Seq<char> {
    if starts_with_seq(m, "image/"@) {
        "image"@
    } else if m == "application/pdf"@ {
        "pdf"@
    } else if starts_with_seq(m, "video/"@) {
        "video"@
    } else {
        "other"@
    }
}

/// A file name that a camera or browser hands out without meaning: such
/// names are replaced by a readable photo label.
pub open spec fn spec_is_generic(name: Seq<char>) -> bool {
    let l = lower_seq(name);
    ||| l == lower_seq("image.jpg"@)
    ||| l == lower_seq("image.jpeg"@)
    ||| l == lower_seq("image.png"@)
    ||| l == lower_seq("photo.jpg"@)
    ||| l == lower_seq("photo.jpeg"@)
    ||| l == lower_seq("blob"@)
    ||| l == lower_seq("unknown"@)
    ||| starts_with_seq(l, lower_seq("img_"@))
    ||| starts_with_seq(l, lower_seq("dsc"@))
    ||| starts_with_seq(l, lower_seq("photo_"@))
}

/// The position of the last `.` in `s`, or `-1`.
pub open spec fn last_dot(s: Seq<char>) -> int
    decreases s.len(),
{
    if s.len() == 0 {
        -1
    } else if s.last() == '.' {
        s.len() - 1
    } else {
        last_dot(s.drop_last())
    }
}

/// The extension of a file name: what follows the last `.`, provided that
/// dot is neither absent nor the first character.
pub open spec fn spec_extension(s: Seq<char>) -> Option<Seq<char>> {
    if last_dot(s) <= 0 {
        None
    } else {
        Some(s.skip(last_dot(s) + 1))
    }
}

/// The extension of a file name, with `bin` standing in where there is none.
pub open spec fn ext_or_bin(s: Seq<char>) -> Seq<char> {
    match spec_extension(s) {
        Some(e) => e,
        None => "bin"@,
    }
}

/// The generated storage name of an upload: time stamp, random suffix and
/// extension.
pub open spec fn upload_path(now: int, suffix: Seq<char>, raw_name: Seq<char>) -> Seq<char> {
    upload_stamp(now) + "_"@ + suffix + "."@ + ext_or_bin(raw_name)
}

/// The display name an upload is recorded under: a photo label for generic
/// camera names, the uploaded name otherwise.
pub open spec fn display_name(raw_name: Seq<char>, now: int) -> Seq<char> {
    if spec_is_generic(raw_name) {
        "Foto "@ + photo_label(now)
    } else {
        raw_name
    }
}

/// Document bookkeeping over the store.
pub struct DocumentService;

impl DocumentService {
    /// Files a MIME type under `image`, `pdf`, `video` or `other`.
    pub fn categorize_mime_type(mime: &str) -> (r: String)
        ensures
            r@ == spec_mime_category(mime@),
    {
        if starts_with_str(mime, "image/") {
            String::from_str("image")
        } else if str_eq(mime, "application/pdf") {
            String::from_str("pdf")
        } else if starts_with_str(mime, "video/") {
            String::from_str("video")
        } else {
            String::from_str("other")
        }
    }

    /// Whether a file name is one of the generic camera or browser names.
    pub fn is_generic_filename(name: &str) -> (r: bool)
        ensures
            r == spec_is_generic(name@),
    {
        eq_ignore_case(name, "image.jpg") || eq_ignore_case(name, "image.jpeg")
            || eq_ignore_case(name, "image.png") || eq_ignore_case(name, "photo.jpg")
            || eq_ignore_case(name, "photo.jpeg") || eq_ignore_case(name, "blob")
            || eq_ignore_case(name, "unknown") || starts_with_ignore_case(name, "img_")
            || starts_with_ignore_case(name, "dsc") || starts_with_ignore_case(name, "photo_")
    }
}

pub proof fn lemma_last_dot_take(s: Seq<char>, i: int)
    requires
        0 <= i <= s.len(),
        forall|t: int| i <= t < s.len() ==> s[t] != '.',
    ensures
        last_dot(s) == last_dot(s.take(i)),
    decreases s.len() - i,
{
    if i == s.len() {
        assert(s.take(i) =~= s);
    } else {
        assert(s.last() != '.');
        assert(s.drop_last() =~= s.take(s.len() - 1));
        lemma_last_dot_take(s.take(s.len() - 1), i);
        assert(s.take(s.len() - 1).take(i) =~= s.take(i));
    }
}

/// The extension of `name`, as [`spec_extension`] gives it.
fn extension_part(name: &str) -> (r: Option<&str>)
    ensures
        match r {
            Some(e) => spec_extension(name@) == Some(e@),
            None => spec_extension(name@) is None,
        },
{
    let len = name.unicode_len();
    let mut i: usize = len;
    while i > 0
        invariant
            i <= len,
            len == name@.len(),
            forall|t: int| i <= t < len ==> name@[t] != '.',
        decreases i,
    {
        i -= 1;
        if name.get_char(i) == '.' {
            proof {
                lemma_last_dot_take(name@, i + 1);
                assert(name@.take(i + 1).last() == name@[i as int]);
                assert(last_dot(name@) == i);
            }
            if i == 0 {
                return None;
            }
            let e = name.substring_char(i + 1, len);
            proof {
                assert(e@ =~= name@.skip(i + 1));
            }
            return Some(e);
        }
    }
    proof {
        lemma_last_dot_take(name@, 0);
        assert(name@.take(0) =~= Seq::<char>::empty());
    }
    None
}

impl DocumentService {
    /// Records an upload under a caller-chosen document id and file-name
    /// suffix: refused (with an internal error) when the id or the generated
    /// path is already taken, recorded in the Inbox otherwise.
    pub fn upload_as(
        store: &mut Store,
        doc_id: String,
        suffix: &String,
        raw_name: &String,
        content_type: &String,
        now: i64,
    ) -> (r: Result<Document, AppError>)
        requires
            old(store)@.wf(),
            valid_time(now),
        ensures
            final(store)@.wf(),
            match r {
                Ok(d) => {
                    &&& d.id@ == doc_id@
                    &&& !has_doc(old(store)@.docs, doc_id@)
                    &&& d.file_path@ == upload_path(now as int, suffix@, raw_name@)
                    &&& !has_file(old(store)@.files, d.file_path@)
                    &&& d.file_type@ == spec_mime_category(content_type@)
                    &&& d.original_name@ == display_name(raw_name@, now as int)
                    &&& d.uploaded_at == now
                    &&& d.project_id is None
                    &&& d.notes is None
                    &&& d.status is Default
                    &&& d.category is None
                    &&& d.audio_path is None
                    &&& final(store)@ == old(store)@.with_docs_files(
                        old(store)@.docs.push(d),
                        old(store)@.files.push(d.file_path),
                    )
                },
                Err(e) => {
                    &&& *final(store) == *old(store)
                    &&& e is Internal
                    &&& (has_doc(old(store)@.docs, doc_id@) || has_file(
                        old(store)@.files,
                        upload_path(now as int, suffix@, raw_name@),
                    ))
                },
            },
    {
        let mut path = format_upload_stamp(now);
        path.append("_");
        path.append(suffix.as_str());
        path.append(".");
        match extension_part(raw_name.as_str()) {
            Some(e) => path.append(e),
            None => path.append("bin"),
        }
        assert(path@ =~= upload_path(now as int, suffix@, raw_name@));
        if doc_index(&store.docs, &doc_id).is_some() {
            return Err(AppError::Internal(String::from_str("Document id already taken")));
        }
        if file_exists(&store.files, &path) {
            return Err(AppError::Internal(String::from_str("Generated file path already taken")));
        }
        let file_type = Self::categorize_mime_type(content_type.as_str());
        let original_name = if Self::is_generic_filename(raw_name.as_str()) {
            let label = format_photo_label(now);
            let mut n = String::from_str("Foto ");
            n.append(label.as_str());
            n
        } else {
            raw_name.clone()
        };
        let d = Document {
            id: doc_id,
            project_id: None,
            file_path: path,
            file_type,
            original_name,
            uploaded_at: now,
            notes: None,
            status: DocStatus::Default,
            category: None,
            audio_path: None,
        };
        let out = d.duplicate();
        let path_copy = d.file_path.clone();
        store.docs.push(d);
        store.files.push(path_copy);
        proof {
            assert(final(store)@ =~= old(store)@.with_docs_files(
                old(store)@.docs.push(out),
                old(store)@.files.push(out.file_path),
            ));
            crate::model::lemma_push_doc_wf(old(store)@, final(store)@, out);
        }
        Ok(out)
    }

    /// Records an upload in the Inbox under a fresh random id and file name.
    /// Success is not owed: a drawn id or path can collide, which surfaces as
    /// an internal error.
    pub fn upload(store: &mut Store, raw_name: &String, content_type: &String, now: i64) -> (r:
        Result<Document, AppError>)
        requires
            old(store)@.wf(),
            valid_time(now),
        ensures
            final(store)@.wf(),
            match r {
                Ok(d) => {
                    &&& d.uploaded_at == now
                    &&& d.project_id is None
                    &&& d.file_type@ == spec_mime_category(content_type@)
                    &&& d.original_name@ == display_name(raw_name@, now as int)
                    &&& (exists|sfx: Seq<char>|
                        sfx.len() == 4 && d.file_path@ == upload_path(now as int, sfx, raw_name@))
                    &&& d.notes is None
                    &&& d.status is Default
                    &&& d.category is None
                    &&& d.audio_path is None
                    &&& !has_doc(old(store)@.docs, d.id@)
                    &&& !has_file(old(store)@.files, d.file_path@)
                    &&& final(store)@ == old(store)@.with_docs_files(
                        old(store)@.docs.push(d),
                        old(store)@.files.push(d.file_path),
                    )
                },
                Err(e) => *final(store) == *old(store) && e is Internal,
            },
    {
        let doc_id = random_uuid();
        let suffix_source = random_uuid();
        let suffix = String::from_str(suffix_source.as_str().substring_char(0, 4));
        let r = Self::upload_as(store, doc_id, &suffix, raw_name, content_type, now);
        proof {
            if r is Ok {
                let d = r->Ok_0;
                assert(suffix@.len() == 4 && d.file_path@ == upload_path(
                    now as int,
                    suffix@,
                    raw_name@,
                ));
            }
        }
        r
    }
}

/// The fields assignment never touches.
pub open spec fn same_except_assign(a: Document, b: Document) -> bool {
    &&& b.id == a.id
    &&& b.file_path == a.file_path
    &&& b.file_type == a.file_type
    &&& b.original_name == a.original_name
    &&& b.uploaded_at == a.uploaded_at
    &&& b.notes == a.notes
    &&& b.status == a.status
    &&& b.audio_path == a.audio_path
}

/// The key (a project id, or the Inbox) that an optional argument names.
pub open spec fn opt_key(key: Option<&String>) -> Option<Seq<char>> {
    match key {
        Some(k) => Some(k@),
        None => None,
    }
}

impl DocumentService {
    /// Fetches the document with this id; `NotFound` exactly when none
    /// carries it.
    pub fn get_by_id(store: &Store, id: &String) -> (r: Result<Document, AppError>)
        ensures
            match r {
                Ok(d) => store@.docs.contains(d) && d.id@ == id@,
                Err(e) => e is NotFound && !has_doc(store@.docs, id@),
            },
    {
        match doc_index(&store.docs, id) {
            Some(i) => {
                let d = store.docs[i].duplicate();
                Ok(d)
            },
            None => Err(AppError::not_found_named("Document with id '", id, "' not found")),
        }
    }

    fn collect_under(docs: &Vec<Document>, key: Option<&String>) -> (r: Vec<Document>)
        ensures
            r@ == docs_under(docs@, opt_key(key)),
    {
        let mut out: Vec<Document> = Vec::new();
        let mut i: usize = docs.len();
        while i > 0
            invariant
                i <= docs@.len(),
                out@ == docs_under(docs@.skip(i as int), opt_key(key)),
            decreases i,
        {
            i -= 1;
            proof {
                assert(docs@.skip(i as int).drop_first() =~= docs@.skip(i + 1));
                assert(docs@.skip(i as int).first() == docs@[i as int]);
            }
            let keep = match (&docs[i].project_id, key) {
                (Some(p), Some(k)) => *p == *k,
                (None, None) => true,
                _ => false,
            };
            if keep {
                out.push(docs[i].duplicate());
            }
        }
        proof {
            assert(docs@.skip(0) =~= docs@);
        }
        out
    }

    /// The Inbox: every unassigned document, newest inserted first — by
    /// `laws::lemma_docs_listing_newest_first`, upload-time descending
    /// whenever upload times never decrease along insertion.
    pub fn list_inbox(store: &Store) -> (r: Vec<Document>)
        ensures
            r@ == docs_under(store@.docs, None),
    {
        Self::collect_under(&store.docs, None)
    }

    /// The documents filed under this project, newest inserted first — by
    /// `laws::lemma_docs_listing_newest_first`, upload-time descending
    /// whenever upload times never decrease along insertion.
    pub fn list_by_project(store: &Store, project_id: &String) -> (r: Vec<Document>)
        ensures
            r@ == docs_under(store@.docs, Some(project_id@)),
    {
        Self::collect_under(&store.docs, Some(project_id))
    }

    /// Moves a document to a project (or, with `None`, back to the Inbox),
    /// optionally relabelling its category. `NotFound` exactly when the named
    /// project or document does not exist; the store is then unchanged.
    pub fn assign_to_project(
        store: &mut Store,
        document_id: &String,
        project_id: Option<&String>,
        category: Option<&String>,
    ) -> (r: Result<Document, AppError>)
        requires
            old(store)@.wf(),
        ensures
            final(store)@.wf(),
            match r {
                Ok(d) => {
                    &&& (match project_id {
                        Some(p) => has_project(old(store)@.projects, p@) && (d.project_id
                            matches Some(q) && q@ == p@),
                        None => d.project_id is None,
                    })
                    &&& (match category {
                        Some(c) => d.category matches Some(q) && q@ == c@,
                        None => true,
                    })
                    &&& exists|i: int|
                        {
                            &&& 0 <= i < old(store)@.docs.len()
                            &&& (#[trigger] old(store)@.docs[i]).id@ == document_id@
                            &&& same_except_assign(old(store)@.docs[i], d)
                            &&& (category is None ==> d.category == old(store)@.docs[i].category)
                            &&& final(store)@ == old(store)@.with_docs_files(
                                old(store)@.docs.update(i, d),
                                old(store)@.files,
                            )
                        }
                },
                Err(e) => {
                    &&& *final(store) == *old(store)
                    &&& e is NotFound
                    &&& ((match project_id {
                        Some(p) => !has_project(old(store)@.projects, p@),
                        None => false,
                    }) || !has_doc(old(store)@.docs, document_id@))
                },
            },
    {
        match project_id {
            Some(p) => {
                if project_index(&store.projects, p).is_none() {
                    return Err(AppError::not_found_named("Project with id '", p, "' not found"));
                }
            },
            None => {},
        }
        match doc_index(&store.docs, document_id) {
            None => Err(AppError::not_found_named(
                "Document with id '",
                document_id,
                "' not found",
            )),
            Some(i) => {
                let prev = store.docs.remove(i);
                let new_category = match category {
                    Some(c) => Some(c.clone()),
                    None => prev.category,
                };
                let d = Document {
                    id: prev.id,
                    project_id: match project_id {
                        Some(p) => Some(p.clone()),
                        None => None,
                    },
                    file_path: prev.file_path,
                    file_type: prev.file_type,
                    original_name: prev.original_name,
                    uploaded_at: prev.uploaded_at,
                    notes: prev.notes,
                    status: prev.status,
                    category: new_category,
                    audio_path: prev.audio_path,
                };
                let out = d.duplicate();
                store.docs.insert(i, d);
                proof {
                    let m0 = old(store)@;
                    let m1 = final(store)@;
                    assert(m1.docs =~= m0.docs.update(i as int, out));
                    assert(m1 =~= m0.with_docs_files(m0.docs.update(i as int, out), m0.files));
                    assert(0 <= i < m0.docs.len() && m0.docs[i as int].id@ == document_id@
                        && same_except_assign(m0.docs[i as int], out) && (category is None
                        ==> out.category == m0.docs[i as int].category) && m1 == m0.with_docs_files(
                        m0.docs.update(i as int, out),
                        m0.files,
                    ));
                    assert forall|a: int, b: int|
                        0 <= a < b < m1.docs.len() implies m1.docs[a].id@ != m1.docs[b].id@
                        && m1.docs[a].file_path@ != m1.docs[b].file_path@ by {
                        assert(m0.docs[a].id@ != m0.docs[b].id@ && m0.docs[a].file_path@
                            != m0.docs[b].file_path@);
                    }
                    assert forall|a: int|
                        0 <= a < m1.docs.len() implies has_file(
                        m1.files,
                        (#[trigger] m1.docs[a]).file_path@,
                    ) by {
                        assert(has_file(m0.files, m0.docs[a].file_path@));
                    }
                }
                Ok(out)
            },
        }
    }
}

impl DocumentService {
    /// Replaces the notes of the document with this id (`None` clears them);
    /// `NotFound` exactly when no document carries the id.
    pub fn update_notes(store: &mut Store, id: &String, notes: Option<&String>) -> (r: Result<
        Document,
        AppError,
    >)
        requires
            old(store)@.wf(),
        ensures
            final(store)@.wf(),
            match r {
                Ok(d) => exists|i: int|
                    {
                        &&& 0 <= i < old(store)@.docs.len()
                        &&& (#[trigger] old(store)@.docs[i]).id@ == id@
                        &&& d == (Document {
                            notes: match notes {
                                Some(n) => Some(*n),
                                None => None,
                            },
                            ..old(store)@.docs[i]
                        })
                        &&& final(store)@ == old(store)@.with_docs_files(
                            old(store)@.docs.update(i, d),
                            old(store)@.files,
                        )
                    },
                Err(e) => {
                    &&& *final(store) == *old(store)
                    &&& e is NotFound
                    &&& !has_doc(old(store)@.docs, id@)
                },
            },
    {
        match doc_index(&store.docs, id) {
            None => Err(AppError::not_found_named("Document with id '", id, "' not found")),
            Some(i) => {
                let prev = store.docs.remove(i);
                let d = Document {
                    notes: match notes {
                        Some(n) => Some(n.clone()),
                        None => None,
                    },
                    ..prev
                };
                let out = d.duplicate();
                store.docs.insert(i, d);
                proof {
                    Self::lemma_docs_field_update(old(store)@, final(store)@, i as int, out);
                }
                Ok(out)
            },
        }
    }

    /// Replaces the lifecycle status of the document with this id;
    /// `NotFound` exactly when no document carries the id.
    pub fn update_status(store: &mut Store, id: &String, status: DocStatus) -> (r: Result<
        Document,
        AppError,
    >)
        requires
            old(store)@.wf(),
        ensures
            final(store)@.wf(),
            match r {
                Ok(d) => exists|i: int|
                    {
                        &&& 0 <= i < old(store)@.docs.len()
                        &&& (#[trigger] old(store)@.docs[i]).id@ == id@
                        &&& d == (Document { status, ..old(store)@.docs[i] })
                        &&& final(store)@ == old(store)@.with_docs_files(
                            old(store)@.docs.update(i, d),
                            old(store)@.files,
                        )
                    },
                Err(e) => {
                    &&& *final(store) == *old(store)
                    &&& e is NotFound
                    &&& !has_doc(old(store)@.docs, id@)
                },
            },
    {
        match doc_index(&store.docs, id) {
            None => Err(AppError::not_found_named("Document with id '", id, "' not found")),
            Some(i) => {
                let prev = store.docs.remove(i);
                let d = Document { status, ..prev };
                let out = d.duplicate();
                store.docs.insert(i, d);
                proof {
                    Self::lemma_docs_field_update(old(store)@, final(store)@, i as int, out);
                }
                Ok(out)
            },
        }
    }

    /// Replaces the category label of the document with this id (`None`
    /// clears it); `NotFound` exactly when no document carries the id.
    pub fn update_category(store: &mut Store, id: &String, category: Option<&String>) -> (r: Result<
        Document,
        AppError,
    >)
        requires
            old(store)@.wf(),
        ensures
            final(store)@.wf(),
            match r {
                Ok(d) => exists|i: int|
                    {
                        &&& 0 <= i < old(store)@.docs.len()
                        &&& (#[trigger] old(store)@.docs[i]).id@ == id@
                        &&& d == (Document {
                            category: match category {
                                Some(c) => Some(*c),
                                None => None,
                            },
                            ..old(store)@.docs[i]
                        })
                        &&& final(store)@ == old(store)@.with_docs_files(
                            old(store)@.docs.update(i, d),
                            old(store)@.files,
                        )
                    },
                Err(e) => {
                    &&& *final(store) == *old(store)
                    &&& e is NotFound
                    &&& !has_doc(old(store)@.docs, id@)
                },
            },
    {
        match doc_index(&store.docs, id) {
            None => Err(AppError::not_found_named("Document with id '", id, "' not found")),
            Some(i) => {
                let prev = store.docs.remove(i);
                let d = Document {
                    category: match category {
                        Some(c) => Some(c.clone()),
                        None => None,
                    },
                    ..prev
                };
                let out = d.duplicate();
                store.docs.insert(i, d);
                proof {
                    Self::lemma_docs_field_update(old(store)@, final(store)@, i as int, out);
                }
                Ok(out)
            },
        }
    }

    /// After replacing one document by another that keeps its id and file
    /// path, the store is the pointwise update and is still well formed.
    proof fn lemma_docs_field_update(m0: crate::model::StoreModel, m1: crate::model::StoreModel, i: int, d: Document)
        requires
            m0.wf(),
            0 <= i < m0.docs.len(),
            d.id == m0.docs[i].id,
            d.file_path == m0.docs[i].file_path,
            m1.docs == m0.docs.remove(i).insert(i, d),
            m1 == m0.with_docs_files(m1.docs, m0.files),
        ensures
            m1.wf(),
            m1.docs == m0.docs.update(i, d),
            m1 == m0.with_docs_files(m0.docs.update(i, d), m0.files),
    {
        assert(m1.docs =~= m0.docs.update(i, d));
        assert forall|a: int, b: int|
            0 <= a < b < m1.docs.len() implies m1.docs[a].id@ != m1.docs[b].id@
            && m1.docs[a].file_path@ != m1.docs[b].file_path@ by {
            assert(m0.docs[a].id@ != m0.docs[b].id@ && m0.docs[a].file_path@
                != m0.docs[b].file_path@);
        }
        assert forall|a: int|
            0 <= a < m1.docs.len() implies has_file(
            m1.files,
            (#[trigger] m1.docs[a]).file_path@,
        ) by {
            assert(has_file(m0.files, m0.docs[a].file_path@));
        }
    }

    /// Removes the document with this id and hands back the storage path the
    /// caller must delete; `NotFound` exactly when no document carries the
    /// id. Afterwards neither the row nor the stored file remains.
    pub fn delete(store: &mut Store, id: &String) -> (r: Result<String, AppError>)
        requires
            old(store)@.wf(),
        ensures
            final(store)@.wf(),
            match r {
                Ok(path) => {
                    &&& exists|i: int|
                        {
                            &&& 0 <= i < old(store)@.docs.len()
                            &&& (#[trigger] old(store)@.docs[i]).id@ == id@
                            &&& path@ == old(store)@.docs[i].file_path@
                            &&& final(store)@.docs == old(store)@.docs.remove(i)
                        }
                    &&& (exists|j: int|
                        {
                            &&& 0 <= j < old(store)@.files.len()
                            &&& (#[trigger] old(store)@.files[j])@ == path@
                            &&& final(store)@.files == old(store)@.files.remove(j)
                        })
                    &&& !has_doc(final(store)@.docs, id@)
                    &&& !has_file(final(store)@.files, path@)
                    &&& final(store)@ == old(store)@.with_docs_files(
                        final(store)@.docs,
                        final(store)@.files,
                    )
                },
                Err(e) => {
                    &&& *final(store) == *old(store)
                    &&& e is NotFound
                    &&& !has_doc(old(store)@.docs, id@)
                },
            },
    {
        match doc_index(&store.docs, id) {
            None => Err(AppError::not_found_named("Document with id '", id, "' not found")),
            Some(i) => {
                let doc = store.docs.remove(i);
                let path = doc.file_path;
                match file_index(&store.files, &path) {
                    Some(j) => {
                        let stored = store.files.remove(j);
                        proof {
                            let m0 = old(store)@;
                            let m1 = final(store)@;
                            assert(m1 =~= m0.with_docs_files(m1.docs, m1.files));
                            // The removed document was the only one with this id
                            // or this path.
                            assert forall|a: int|
                                0 <= a < m1.docs.len() implies (#[trigger] m1.docs[a]).id@ != id@
                                && m1.docs[a].file_path@ != path@ by {
                                if a < i {
                                    assert(m1.docs[a] == m0.docs[a]);
                                    assert(m0.docs[a].id@ != m0.docs[i as int].id@);
                                    assert(m0.docs[a].file_path@ != m0.docs[i as int].file_path@);
                                } else {
                                    assert(m1.docs[a] == m0.docs[a + 1]);
                                    assert(m0.docs[i as int].id@ != m0.docs[a + 1].id@);
                                    assert(m0.docs[i as int].file_path@ != m0.docs[a + 1].file_path@);
                                }
                            }
                            assert forall|a: int|
                                0 <= a < m1.files.len() implies (#[trigger] m1.files[a])@
                                != path@ by {
                                if a < j {
                                    assert(m0.files[a]@ != m0.files[j as int]@);
                                } else {
                                    assert(m0.files[j as int]@ != m0.files[a + 1]@);
                                }
                            }
                            // Well-formedness of the shrunken sequences.
                            assert forall|a: int, b: int|
                                0 <= a < b < m1.docs.len() implies m1.docs[a].id@
                                != m1.docs[b].id@ && m1.docs[a].file_path@
                                != m1.docs[b].file_path@ by {
                                let a0: int = if a < i { a } else { a + 1 };
                                let b0: int = if b < i { b } else { b + 1 };
                                assert(m1.docs[a] == m0.docs[a0] && m1.docs[b] == m0.docs[b0]);
                                assert(m0.docs[a0].id@ != m0.docs[b0].id@ && m0.docs[a0].file_path@
                                    != m0.docs[b0].file_path@);
                            }
                            assert forall|a: int, b: int|
                                0 <= a < b < m1.files.len() implies m1.files[a]@
                                != m1.files[b]@ by {
                                let a0: int = if a < j { a } else { a + 1 };
                                let b0: int = if b < j { b } else { b + 1 };
                                assert(m0.files[a0]@ != m0.files[b0]@);
                            }
                            assert forall|a: int|
                                0 <= a < m1.docs.len() implies has_file(
                                m1.files,
                                (#[trigger] m1.docs[a]).file_path@,
                            ) by {
                                let a0: int = if a < i { a } else { a + 1 };
                                assert(m1.docs[a] == m0.docs[a0]);
                                assert(has_file(m0.files, m0.docs[a0].file_path@));
                                let w = choose|w: int|
                                    0 <= w < m0.files.len() && (#[trigger] m0.files[w])@
                                        == m0.docs[a0].file_path@;
                                // The witness cannot be the removed path.
                                assert(m0.docs[a0].file_path@ != path@);
                                assert(w != j);
                                let w1: int = if w < j { w } else { w - 1 };
                                assert(m1.files[w1]@ == m0.docs[a0].file_path@);
                            }
                        }
                        Ok(path)
                    },
                    None => {
                        // Well-formedness puts every document file among the
                        // stored paths, so the lookup cannot miss.
                        proof {
                            assert(has_file(old(store)@.files, old(store)@.docs[i as int].file_path@));
                            assert(false);
                        }
                        Err(AppError::Internal(String::from_str("Stored file missing")))
                    },
                }
            },
        }
    }
}

/// Whether one of the listed id strings reads `id`.
pub open spec fn has_id_in(ids: Seq<String>, id: Seq<char>) -> bool {
    exists|i: int| 0 <= i < ids.len() && (#[trigger] ids[i])@ == id
}

proof fn lemma_has_id_in_take_step(ids: Seq<String>, t: int, id: Seq<char>)
    requires
        0 <= t < ids.len(),
    ensures
        has_id_in(ids.take(t + 1), id) == (has_id_in(ids.take(t), id) || ids[t]@ == id),
{
    if has_id_in(ids.take(t), id) {
        let w = choose|w: int| 0 <= w < t && (#[trigger] ids.take(t)[w])@ == id;
        assert(ids.take(t + 1)[w]@ == id);
    }
    if ids[t]@ == id {
        assert(ids.take(t + 1)[t]@ == id);
    }
    if has_id_in(ids.take(t + 1), id) {
        let w = choose|w: int| 0 <= w < t + 1 && (#[trigger] ids.take(t + 1)[w])@ == id;
        if w < t {
            assert(ids.take(t)[w]@ == id);
        }
    }
}

impl DocumentService {
    /// Assigns every listed document to the target, best effort: an id that
    /// names no document is skipped, the rest are still updated, and the
    /// updated documents come back. A target project that does not exist
    /// leaves the store unchanged.
    pub fn batch_assign(store: &mut Store, ids: &Vec<String>, project_id: Option<&String>) -> (r:
        Vec<Document>)
        requires
            old(store)@.wf(),
        ensures
            final(store)@.wf(),
            final(store)@ == old(store)@.with_docs_files(final(store)@.docs, old(store)@.files),
            final(store)@.docs.len() == old(store)@.docs.len(),
            forall|k: int|
                0 <= k < old(store)@.docs.len() ==> same_except_assign(
                    old(store)@.docs[k],
                    #[trigger] final(store)@.docs[k],
                ) && final(store)@.docs[k].category == old(store)@.docs[k].category,
            (match project_id {
                Some(p) => !has_project(old(store)@.projects, p@),
                None => false,
            }) ==> *final(store) == *old(store) && r@.len() == 0,
            (match project_id {
                Some(p) => has_project(old(store)@.projects, p@),
                None => true,
            }) ==> {
                &&& forall|k: int|
                    0 <= k < old(store)@.docs.len() && has_id_in(
                        ids@,
                        (#[trigger] old(store)@.docs[k]).id@,
                    ) ==> doc_key_matches(final(store)@.docs[k], opt_key(project_id))
                &&& forall|k: int|
                    0 <= k < old(store)@.docs.len() && !has_id_in(
                        ids@,
                        (#[trigger] old(store)@.docs[k]).id@,
                    ) ==> final(store)@.docs[k].project_id == old(store)@.docs[k].project_id
                &&& forall|j: int|
                    0 <= j < r@.len() ==> has_id_in(ids@, (#[trigger] r@[j]).id@) && has_doc(
                        final(store)@.docs,
                        r@[j].id@,
                    ) && doc_key_matches(r@[j], opt_key(project_id))
            },
    {
        match project_id {
            Some(p) => {
                if project_index(&store.projects, p).is_none() {
                    return Vec::new();
                }
            },
            None => {},
        }
        let ghost m0 = old(store)@;
        let mut out: Vec<Document> = Vec::new();
        let mut t: usize = 0;
        while t < ids.len()
            invariant
                t <= ids@.len(),
                store@.wf(),
                store@ == m0.with_docs_files(store@.docs, m0.files),
                store@.docs.len() == m0.docs.len(),
                match project_id {
                    Some(p) => has_project(m0.projects, p@),
                    None => true,
                },
                forall|k: int|
                    0 <= k < m0.docs.len() ==> same_except_assign(
                        m0.docs[k],
                        #[trigger] store@.docs[k],
                    ) && store@.docs[k].category == m0.docs[k].category,
                forall|k: int|
                    0 <= k < m0.docs.len() && has_id_in(
                        ids@.take(t as int),
                        (#[trigger] m0.docs[k]).id@,
                    ) ==> doc_key_matches(store@.docs[k], opt_key(project_id)),
                forall|k: int|
                    0 <= k < m0.docs.len() && !has_id_in(
                        ids@.take(t as int),
                        (#[trigger] m0.docs[k]).id@,
                    ) ==> store@.docs[k].project_id == m0.docs[k].project_id,
                forall|j: int|
                    0 <= j < out@.len() ==> has_id_in(ids@, (#[trigger] out@[j]).id@) && has_doc(
                        store@.docs,
                        out@[j].id@,
                    ) && doc_key_matches(out@[j], opt_key(project_id)),
            decreases ids@.len() - t,
        {
            let ghost pre = store@;
            let res = Self::assign_to_project(store, &ids[t], project_id, None);
            proof {
                lemma_has_id_in_take_step(ids@, t as int, ids@[t as int]@);
            }
            match res {
                Ok(d) => {
                    proof {
                        let i = choose|i: int|
                            {
                                &&& 0 <= i < pre.docs.len()
                                &&& (#[trigger] pre.docs[i]).id@ == ids@[t as int]@
                                &&& same_except_assign(pre.docs[i], d)
                                &&& d.category == pre.docs[i].category
                                &&& store@ == pre.with_docs_files(pre.docs.update(i, d), pre.files)
                            };
                        assert(store@.docs == pre.docs.update(i, d));
                        assert forall|k: int|
                            0 <= k < m0.docs.len() && has_id_in(
                                ids@.take(t + 1),
                                (#[trigger] m0.docs[k]).id@,
                            ) implies doc_key_matches(store@.docs[k], opt_key(project_id)) by {
                            lemma_has_id_in_take_step(ids@, t as int, m0.docs[k].id@);
                            if m0.docs[k].id@ == ids@[t as int]@ {
                                assert(pre.docs[k].id@ == m0.docs[k].id@);
                                assert(k == i);
                            } else {
                                assert(has_id_in(ids@.take(t as int), m0.docs[k].id@));
                                if k != i {
                                    assert(store@.docs[k] == pre.docs[k]);
                                }
                            }
                        }
                        assert forall|k: int|
                            0 <= k < m0.docs.len() && !has_id_in(
                                ids@.take(t + 1),
                                (#[trigger] m0.docs[k]).id@,
                            ) implies store@.docs[k].project_id == m0.docs[k].project_id by {
                            lemma_has_id_in_take_step(ids@, t as int, m0.docs[k].id@);
                            assert(m0.docs[k].id@ != ids@[t as int]@);
                            assert(pre.docs[i].id@ == ids@[t as int]@);
                            assert(k != i);
                            assert(store@.docs[k] == pre.docs[k]);
                        }
                        assert forall|j: int|
                            0 <= j < out@.len() implies has_doc(
                            store@.docs,
                            (#[trigger] out@[j]).id@,
                        ) by {
                            let w = choose|w: int|
                                0 <= w < pre.docs.len() && (#[trigger] pre.docs[w]).id@
                                    == out@[j].id@;
                            assert(store@.docs[w].id@ == out@[j].id@);
                        }
                        assert(store@ == m0.with_docs_files(store@.docs, m0.files));
                    }
                    let ghost d_spec = d;
                    out.push(d);
                    proof {
                        assert(has_id_in(ids@, d_spec.id@)) by {
                            assert(ids@[t as int]@ == d_spec.id@);
                        }
                        assert(has_doc(store@.docs, d_spec.id@)) by {
                            let i = choose|i: int|
                                0 <= i < store@.docs.len() && (#[trigger] store@.docs[i]).id@
                                    == d_spec.id@;
                        }
                    }
                },
                Err(_) => {
                    proof {
                        assert(*store == *old(store) || store@ == pre);
                        assert forall|k: int|
                            0 <= k < m0.docs.len() && has_id_in(
                                ids@.take(t + 1),
                                (#[trigger] m0.docs[k]).id@,
                            ) implies doc_key_matches(store@.docs[k], opt_key(project_id)) by {
                            lemma_has_id_in_take_step(ids@, t as int, m0.docs[k].id@);
                            if m0.docs[k].id@ == ids@[t as int]@ {
                                // The assignment failed, so no document reads
                                // this id; but document k does.
                                assert(pre.docs[k].id@ == m0.docs[k].id@);
                                assert(has_doc(pre.docs, ids@[t as int]@));
                                assert(false);
                            }
                        }
                        assert forall|k: int|
                            0 <= k < m0.docs.len() && !has_id_in(
                                ids@.take(t + 1),
                                (#[trigger] m0.docs[k]).id@,
                            ) implies store@.docs[k].project_id == m0.docs[k].project_id by {
                            lemma_has_id_in_take_step(ids@, t as int, m0.docs[k].id@);
                        }
                    }
                },
            }
            t += 1;
        }
        proof {
            assert(ids@.take(ids@.len() as int) =~= ids@);
        }
        out
    }
}

} // verus!
