//! The document workflow: uploads land in the Inbox, assignment moves them
//! between projects and back, deletion removes row and file.

use digpaper::document::DocumentService;
use digpaper::error::AppError;
use digpaper::model::Store;
use digpaper::project::ProjectService;

const NOW: i64 = 1_700_000_000;

fn store_with_project(name: &str) -> (Store, String) {
    let mut store = Store::new();
    let p = ProjectService::create(&mut store, &name.to_string(), NOW).unwrap();
    (store, p.id)
}

#[test]
fn upload_goes_to_inbox() {
    let mut store = Store::new();
    let doc = DocumentService::upload(
        &mut store,
        &"plan.pdf".to_string(),
        &"application/pdf".to_string(),
        NOW,
    )
    .unwrap();
    assert!(doc.project_id.is_none());
    assert_eq!(doc.file_type, "pdf");
    assert_eq!(doc.original_name, "plan.pdf");
    let inbox = DocumentService::list_inbox(&store);
    assert_eq!(inbox.len(), 1);
    assert_eq!(inbox[0].id, doc.id);
}

#[test]
fn upload_as_builds_exact_path_and_photo_name() {
    let mut store = Store::new();
    // 2023-11-14 22:13:20 UTC
    let doc = DocumentService::upload_as(
        &mut store,
        "doc-1".to_string(),
        &"abcd".to_string(),
        &"IMG_001.jpg".to_string(),
        &"image/jpeg".to_string(),
        NOW,
    )
    .unwrap();
    assert_eq!(doc.file_path, "2023-11-14_22-13-20_abcd.jpg");
    assert_eq!(doc.original_name, "Foto 14-11-2023 22:13");
    assert_eq!(doc.file_type, "image");
}

#[test]
fn upload_keeps_meaningful_names() {
    let mut store = Store::new();
    let doc = DocumentService::upload_as(
        &mut store,
        "doc-1".to_string(),
        &"abcd".to_string(),
        &"cortes-cozinha.pdf".to_string(),
        &"application/pdf".to_string(),
        NOW,
    )
    .unwrap();
    assert_eq!(doc.original_name, "cortes-cozinha.pdf");
    assert_eq!(doc.file_path, "2023-11-14_22-13-20_abcd.pdf");
}

#[test]
fn upload_without_extension_uses_bin() {
    let mut store = Store::new();
    let doc = DocumentService::upload_as(
        &mut store,
        "doc-1".to_string(),
        &"abcd".to_string(),
        &"blob".to_string(),
        &"application/octet-stream".to_string(),
        NOW,
    )
    .unwrap();
    assert_eq!(doc.file_path, "2023-11-14_22-13-20_abcd.bin");
    // "blob" is a generic browser name.
    assert_eq!(doc.original_name, "Foto 14-11-2023 22:13");
    assert_eq!(doc.file_type, "other");
}

#[test]
fn assign_to_missing_project_fails_and_leaves_document() {
    let mut store = Store::new();
    let doc = DocumentService::upload(
        &mut store,
        &"a.jpg".to_string(),
        &"image/jpeg".to_string(),
        NOW,
    )
    .unwrap();
    let r = DocumentService::assign_to_project(
        &mut store,
        &doc.id,
        Some(&"no-such-project".to_string()),
        None,
    );
    match r {
        Err(e) => assert_eq!(e.kind(), "not_found"),
        Ok(_) => panic!("assignment to a missing project must fail"),
    }
    let again = DocumentService::get_by_id(&store, &doc.id).unwrap();
    assert!(again.project_id.is_none());
}

#[test]
fn assign_to_missing_document_fails() {
    let (mut store, pid) = store_with_project("Obra A");
    let r = DocumentService::assign_to_project(
        &mut store,
        &"no-such-doc".to_string(),
        Some(&pid),
        None,
    );
    match r {
        Err(e) => assert_eq!(e.kind(), "not_found"),
        Ok(_) => panic!("assignment of a missing document must fail"),
    }
}

#[test]
fn assign_then_unassign_returns_to_inbox() {
    let (mut store, pid) = store_with_project("Obra A");
    let doc = DocumentService::upload(
        &mut store,
        &"a.jpg".to_string(),
        &"image/jpeg".to_string(),
        NOW,
    )
    .unwrap();
    DocumentService::assign_to_project(&mut store, &doc.id, Some(&pid), None).unwrap();
    assert_eq!(DocumentService::list_by_project(&store, &pid).len(), 1);
    assert_eq!(DocumentService::list_inbox(&store).len(), 0);

    DocumentService::assign_to_project(&mut store, &doc.id, None, None).unwrap();
    let inbox = DocumentService::list_inbox(&store);
    assert_eq!(inbox.len(), 1);
    assert_eq!(inbox[0].id, doc.id);
    assert_eq!(DocumentService::list_by_project(&store, &pid).len(), 0);
}

#[test]
fn assign_sets_category() {
    let (mut store, pid) = store_with_project("Obra A");
    let doc = DocumentService::upload(
        &mut store,
        &"a.jpg".to_string(),
        &"image/jpeg".to_string(),
        NOW,
    )
    .unwrap();
    let updated = DocumentService::assign_to_project(
        &mut store,
        &doc.id,
        Some(&pid),
        Some(&"Cozinha".to_string()),
    )
    .unwrap();
    assert_eq!(updated.category.as_deref(), Some("Cozinha"));
    assert_eq!(updated.project_id.as_deref(), Some(pid.as_str()));
}

#[test]
fn batch_assign_is_best_effort() {
    let (mut store, pid) = store_with_project("Obra A");
    let doc = DocumentService::upload(
        &mut store,
        &"a.jpg".to_string(),
        &"image/jpeg".to_string(),
        NOW,
    )
    .unwrap();
    let ids = vec![doc.id.clone(), "no-such-doc".to_string()];
    let updated = DocumentService::batch_assign(&mut store, &ids, Some(&pid));
    assert_eq!(updated.len(), 1);
    assert_eq!(updated[0].id, doc.id);
    assert_eq!(updated[0].project_id.as_deref(), Some(pid.as_str()));
    let again = DocumentService::get_by_id(&store, &doc.id).unwrap();
    assert_eq!(again.project_id.as_deref(), Some(pid.as_str()));
}

#[test]
fn batch_assign_to_missing_project_changes_nothing() {
    let mut store = Store::new();
    let doc = DocumentService::upload(
        &mut store,
        &"a.jpg".to_string(),
        &"image/jpeg".to_string(),
        NOW,
    )
    .unwrap();
    let ids = vec![doc.id.clone()];
    let updated = DocumentService::batch_assign(&mut store, &ids, Some(&"ghost".to_string()));
    assert_eq!(updated.len(), 0);
    let again = DocumentService::get_by_id(&store, &doc.id).unwrap();
    assert!(again.project_id.is_none());
}

#[test]
fn delete_removes_row_and_file() {
    let mut store = Store::new();
    let doc = DocumentService::upload(
        &mut store,
        &"a.jpg".to_string(),
        &"image/jpeg".to_string(),
        NOW,
    )
    .unwrap();
    assert_eq!(store.files.len(), 1);
    let path = DocumentService::delete(&mut store, &doc.id).unwrap();
    assert_eq!(path, doc.file_path);
    assert_eq!(store.files.len(), 0);
    match DocumentService::get_by_id(&store, &doc.id) {
        Err(e) => assert_eq!(e.kind(), "not_found"),
        Ok(_) => panic!("a deleted document must not be found"),
    }
}

#[test]
fn missing_ids_are_named_in_errors() {
    let mut store = Store::new();
    match DocumentService::get_by_id(&store, &"ghost".to_string()) {
        Err(e) => assert_eq!(e.message(), "Document with id 'ghost' not found"),
        Ok(_) => panic!("a missing document must not be found"),
    }
    let doc = DocumentService::upload(
        &mut store,
        &"a.jpg".to_string(),
        &"image/jpeg".to_string(),
        NOW,
    )
    .unwrap();
    match DocumentService::assign_to_project(&mut store, &doc.id, Some(&"p9".to_string()), None) {
        Err(e) => assert_eq!(e.message(), "Project with id 'p9' not found"),
        Ok(_) => panic!("assignment to a missing project must fail"),
    }
}

#[test]
fn delete_missing_document_fails() {
    let mut store = Store::new();
    match DocumentService::delete(&mut store, &"ghost".to_string()) {
        Err(e) => assert_eq!(e.kind(), "not_found"),
        Ok(_) => panic!("deleting a missing document must fail"),
    }
}

#[test]
fn update_notes_status_category() {
    let mut store = Store::new();
    let doc = DocumentService::upload(
        &mut store,
        &"a.jpg".to_string(),
        &"image/jpeg".to_string(),
        NOW,
    )
    .unwrap();
    let d = DocumentService::update_notes(&mut store, &doc.id, Some(&"medir de novo".to_string()))
        .unwrap();
    assert_eq!(d.notes.as_deref(), Some("medir de novo"));
    let d = DocumentService::update_status(&mut store, &doc.id, digpaper::model::DocStatus::Doubt)
        .unwrap();
    assert_eq!(d.status, digpaper::model::DocStatus::Doubt);
    let d = DocumentService::update_category(&mut store, &doc.id, Some(&"Sala".to_string()))
        .unwrap();
    assert_eq!(d.category.as_deref(), Some("Sala"));
    let d = DocumentService::update_notes(&mut store, &doc.id, None).unwrap();
    assert_eq!(d.notes, None);
    match DocumentService::update_notes(&mut store, &"ghost".to_string(), None) {
        Err(e) => assert_eq!(e.kind(), "not_found"),
        Ok(_) => panic!("updating a missing document must fail"),
    }
}

#[test]
fn end_to_end_obra_x() {
    let mut store = Store::new();
    let project = ProjectService::create(&mut store, &"Obra X".to_string(), NOW).unwrap();
    let doc = DocumentService::upload(
        &mut store,
        &"IMG_001.jpg".to_string(),
        &"image/jpeg".to_string(),
        NOW,
    )
    .unwrap();
    // The camera name is rewritten to a photo label.
    assert!(doc.original_name.starts_with("Foto "));
    assert!(doc.project_id.is_none());
    assert_eq!(DocumentService::list_inbox(&store).len(), 1);

    DocumentService::assign_to_project(&mut store, &doc.id, Some(&project.id), None).unwrap();
    let listed = DocumentService::list_by_project(&store, &project.id);
    assert_eq!(listed.len(), 1);
    assert_eq!(listed[0].id, doc.id);
    assert_eq!(listed[0].project_id.as_deref(), Some(project.id.as_str()));
    assert_eq!(DocumentService::list_inbox(&store).len(), 0);
}

#[test]
fn project_create_validates_name() {
    let mut store = Store::new();
    match ProjectService::create(&mut store, &"   ".to_string(), NOW) {
        Err(e) => assert_eq!(e.kind(), "bad_request"),
        Ok(_) => panic!("an all-whitespace name must be refused"),
    }
    let p = ProjectService::create(&mut store, &"  Obra Porto  ".to_string(), NOW).unwrap();
    assert_eq!(p.name, "Obra Porto");
    // Fresh UUIDs are written in the 36-character hyphenated form.
    assert_eq!(p.id.len(), 36);
}

#[test]
fn project_listing_filters_by_status() {
    let mut store = Store::new();
    let a = ProjectService::create(&mut store, &"Obra A".to_string(), NOW).unwrap();
    let b = ProjectService::create(&mut store, &"Obra B".to_string(), NOW + 1).unwrap();
    ProjectService::update_status(
        &mut store,
        &a.id,
        digpaper::model::ProjectStatus::Archived,
    )
    .unwrap();

    let all = ProjectService::list(&store, None).unwrap();
    assert_eq!(all.len(), 2);
    // Newest first.
    assert_eq!(all[0].id, b.id);

    let active = ProjectService::list(&store, Some(&"active".to_string())).unwrap();
    assert_eq!(active.len(), 1);
    assert_eq!(active[0].id, b.id);

    let archived = ProjectService::list(&store, Some(&"ARCHIVED".to_string())).unwrap();
    assert_eq!(archived.len(), 1);
    assert_eq!(archived[0].id, a.id);

    match ProjectService::list(&store, Some(&"done".to_string())) {
        Err(e) => assert_eq!(e.kind(), "bad_request"),
        Ok(_) => panic!("an unknown status filter must be refused"),
    }
}

#[test]
fn project_lookup_and_counts() {
    let mut store = Store::new();
    let p = ProjectService::create(&mut store, &"Obra A".to_string(), NOW).unwrap();
    assert_eq!(ProjectService::get_by_id(&store, &p.id).unwrap().name, "Obra A");
    match ProjectService::get_by_id(&store, &"ghost".to_string()) {
        Err(e) => assert_eq!(e.kind(), "not_found"),
        Ok(_) => panic!("a missing project must not be found"),
    }
    match ProjectService::update_status(
        &mut store,
        &"ghost".to_string(),
        digpaper::model::ProjectStatus::Active,
    ) {
        Err(e) => assert_eq!(e.kind(), "not_found"),
        Ok(_) => panic!("updating a missing project must fail"),
    }
    assert_eq!(ProjectService::get_document_count(&store, &p.id), 0);
    let doc = DocumentService::upload(
        &mut store,
        &"a.jpg".to_string(),
        &"image/jpeg".to_string(),
        NOW,
    )
    .unwrap();
    DocumentService::assign_to_project(&mut store, &doc.id, Some(&p.id), None).unwrap();
    assert_eq!(ProjectService::get_document_count(&store, &p.id), 1);
}

#[test]
fn document_response_builds_urls() {
    let mut store = Store::new();
    let doc = DocumentService::upload_as(
        &mut store,
        "doc-1".to_string(),
        &"abcd".to_string(),
        &"a.jpg".to_string(),
        &"image/jpeg".to_string(),
        NOW,
    )
    .unwrap();
    let resp = digpaper::dto::DocumentResponse::from_document(&doc, "http://localhost:3000");
    assert_eq!(
        resp.file_url,
        "http://localhost:3000/files/2023-11-14_22-13-20_abcd.jpg"
    );
    let up = digpaper::dto::UploadResponse::from_document(&doc);
    assert_eq!(up.file_url, "/files/2023-11-14_22-13-20_abcd.jpg");
}
