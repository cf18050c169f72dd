//! Email ingestion: filters, routing rules, and whole-webhook processing.

use digpaper::document::DocumentService;
use digpaper::dto::EmailWebhookResponse;
use digpaper::email::{Attachment, EmailService};
use digpaper::model::{FilterKind, Store};
use digpaper::project::ProjectService;

const NOW: i64 = 1_700_000_000;

fn att(name: &str, ctype: &str, size: u64) -> Attachment {
    Attachment {
        filename: name.to_string(),
        content_type: ctype.to_string(),
        size,
    }
}

#[test]
fn size_max_filters_small_attachments_only() {
    let mut store = Store::new();
    EmailService::create_filter(&mut store, &"5000".to_string(), &"size_max".to_string(), NOW)
        .unwrap();
    assert!(EmailService::should_filter_attachment(&store, "photo.jpg", 4000));
    assert!(!EmailService::should_filter_attachment(&store, "photo.jpg", 6000));
    assert!(!EmailService::should_filter_attachment(&store, "photo.jpg", 5000));
}

#[test]
fn size_max_with_unreadable_pattern_filters_nothing() {
    let mut store = Store::new();
    EmailService::create_filter(&mut store, &"big".to_string(), &"size_max".to_string(), NOW)
        .unwrap();
    assert!(!EmailService::should_filter_attachment(&store, "photo.jpg", 1));
}

#[test]
fn extension_filter_supplies_the_dot() {
    let mut store = Store::new();
    EmailService::create_filter(&mut store, &"pdf".to_string(), &"extension".to_string(), NOW)
        .unwrap();
    assert!(EmailService::should_filter_attachment(&store, "report.pdf", 9000));
    assert!(EmailService::should_filter_attachment(&store, "REPORT.PDF", 9000));
    assert!(!EmailService::should_filter_attachment(&store, "report.pdfx", 9000));
    assert!(!EmailService::should_filter_attachment(&store, "notapdf", 9000));
}

#[test]
fn extension_filter_accepts_a_dotted_pattern() {
    let mut store = Store::new();
    EmailService::create_filter(&mut store, &".pdf".to_string(), &"extension".to_string(), NOW)
        .unwrap();
    assert!(EmailService::should_filter_attachment(&store, "report.pdf", 9000));
}

#[test]
fn filename_filter_is_case_insensitive() {
    let mut store = Store::new();
    EmailService::create_filter(&mut store, &"logo".to_string(), &"filename".to_string(), NOW)
        .unwrap();
    assert!(EmailService::should_filter_attachment(&store, "Company-LOGO-small.png", 9000));
    assert!(!EmailService::should_filter_attachment(&store, "floorplan.png", 9000));
}

#[test]
fn filter_type_is_validated() {
    let mut store = Store::new();
    match EmailService::create_filter(&mut store, &"x".to_string(), &"weight".to_string(), NOW) {
        Err(e) => assert_eq!(e.kind(), "bad_request"),
        Ok(_) => panic!("an unknown filter type must be refused"),
    }
    assert_eq!(FilterKind::parse("filename"), Some(FilterKind::Filename));
    assert_eq!(FilterKind::parse("extension"), Some(FilterKind::Extension));
    assert_eq!(FilterKind::parse("size_max"), Some(FilterKind::SizeMax));
    assert_eq!(FilterKind::parse("Filename"), None);
}

#[test]
fn rules_match_wildcard_suffix_case_insensitively() {
    let mut store = Store::new();
    let p = ProjectService::create(&mut store, &"Obra Acme".to_string(), NOW).unwrap();
    EmailService::create_rule(
        &mut store,
        &"*@acme.com".to_string(),
        Some(&p.id),
        Some(&"acme mail".to_string()),
        NOW,
    )
    .unwrap();
    let hit = EmailService::find_matching_rule(&store, "office@ACME.com").unwrap();
    assert_eq!(hit.project_id.as_deref(), Some(p.id.as_str()));
    assert!(EmailService::find_matching_rule(&store, "office@other.com").is_none());
}

#[test]
fn rules_match_substring_and_newest_wins() {
    let mut store = Store::new();
    let a = ProjectService::create(&mut store, &"Obra A".to_string(), NOW).unwrap();
    let b = ProjectService::create(&mut store, &"Obra B".to_string(), NOW).unwrap();
    EmailService::create_rule(&mut store, &"builder".to_string(), Some(&a.id), None, NOW).unwrap();
    EmailService::create_rule(&mut store, &"builder".to_string(), Some(&b.id), None, NOW + 1)
        .unwrap();
    // The rule created last is tried first.
    let hit = EmailService::find_matching_rule(&store, "jo@BUILDER.example").unwrap();
    assert_eq!(hit.project_id.as_deref(), Some(b.id.as_str()));
}

#[test]
fn rule_and_filter_deletion() {
    let mut store = Store::new();
    let rule = EmailService::create_rule(&mut store, &"x@y.z".to_string(), None, None, NOW)
        .unwrap();
    let filter = EmailService::create_filter(
        &mut store,
        &"logo".to_string(),
        &"filename".to_string(),
        NOW,
    )
    .unwrap();
    assert_eq!(EmailService::list_rules(&store).len(), 1);
    assert_eq!(EmailService::list_filters(&store).len(), 1);
    EmailService::delete_rule(&mut store, &rule.id).unwrap();
    EmailService::delete_filter(&mut store, &filter.id).unwrap();
    assert_eq!(EmailService::list_rules(&store).len(), 0);
    assert_eq!(EmailService::list_filters(&store).len(), 0);
    match EmailService::delete_rule(&mut store, &rule.id) {
        Err(e) => assert_eq!(e.kind(), "not_found"),
        Ok(_) => panic!("deleting a missing rule must fail"),
    }
    match EmailService::delete_filter(&mut store, &filter.id) {
        Err(e) => assert_eq!(e.kind(), "not_found"),
        Ok(_) => panic!("deleting a missing filter must fail"),
    }
}

#[test]
fn inbound_email_routes_and_filters() {
    let mut store = Store::new();
    let p = ProjectService::create(&mut store, &"Obra Acme".to_string(), NOW).unwrap();
    EmailService::create_rule(&mut store, &"*@acme.com".to_string(), Some(&p.id), None, NOW)
        .unwrap();
    EmailService::create_filter(&mut store, &"5000".to_string(), &"size_max".to_string(), NOW)
        .unwrap();
    let attachments = vec![
        att("floorplan.pdf", "application/pdf", 90_000),
        att("tiny-logo.png", "image/png", 1_200),
    ];
    let (result, paths) = EmailService::process_inbound_email(
        &mut store,
        &"Office@ACME.com".to_string(),
        &"Cortes".to_string(),
        &attachments,
        NOW,
    );
    assert_eq!(result.documents_created, 1);
    assert_eq!(result.documents_filtered, 1);
    assert_eq!(result.sender, "Office@ACME.com");
    assert_eq!(result.subject, "Cortes");
    assert_eq!(paths.len(), 2);
    assert!(paths[0].is_some());
    assert!(paths[1].is_none());

    // The surviving attachment is filed under the routed project.
    let docs = DocumentService::list_by_project(&store, &p.id);
    assert_eq!(docs.len(), 1);
    assert_eq!(docs[0].original_name, "floorplan.pdf");
    assert_eq!(docs[0].file_type, "pdf");
    assert_eq!(
        docs[0].notes.as_deref(),
        Some("\u{1F4E7} Email de: Office@ACME.com\n\u{1F4CB} Assunto: Cortes")
    );
    assert_eq!(paths[0].as_deref(), Some(docs[0].file_path.as_str()));
}

#[test]
fn inbound_email_without_rule_goes_to_inbox() {
    let mut store = Store::new();
    let attachments = vec![att("a.jpg", "image/jpeg", 50_000)];
    let (result, _) = EmailService::process_inbound_email(
        &mut store,
        &"stranger@nowhere.org".to_string(),
        &"hello".to_string(),
        &attachments,
        NOW,
    );
    assert_eq!(result.documents_created, 1);
    let inbox = DocumentService::list_inbox(&store);
    assert_eq!(inbox.len(), 1);
    assert!(inbox[0].project_id.is_none());
}

#[test]
fn inbound_email_defaults_sender_and_subject() {
    let mut store = Store::new();
    let attachments = vec![att("a.jpg", "image/jpeg", 50_000)];
    let (result, _) = EmailService::process_inbound_email(
        &mut store,
        &"".to_string(),
        &"".to_string(),
        &attachments,
        NOW,
    );
    assert_eq!(result.sender, "unknown@email.com");
    assert_eq!(result.subject, "Email sem assunto");
    let inbox = DocumentService::list_inbox(&store);
    assert_eq!(
        inbox[0].notes.as_deref(),
        Some("\u{1F4E7} Email de: unknown@email.com\n\u{1F4CB} Assunto: Email sem assunto")
    );
}

#[test]
fn webhook_response_reports_counts() {
    let mut store = Store::new();
    EmailService::create_filter(&mut store, &"5000".to_string(), &"size_max".to_string(), NOW)
        .unwrap();
    let attachments = vec![
        att("a.jpg", "image/jpeg", 50_000),
        att("logo.png", "image/png", 100),
    ];
    let (result, _) = EmailService::process_inbound_email(
        &mut store,
        &"x@y.z".to_string(),
        &"s".to_string(),
        &attachments,
        NOW,
    );
    let resp = EmailWebhookResponse::from_result(&result);
    assert!(resp.success);
    assert_eq!(
        resp.message,
        "Email processed: 1 document(s) created, 1 filtered out."
    );
    let empty: Vec<Attachment> = Vec::new();
    let (r2, _) =
        EmailService::process_inbound_email(&mut store, &"x@y.z".to_string(), &"s".to_string(), &empty, NOW);
    let resp2 = EmailWebhookResponse::from_result(&r2);
    assert_eq!(
        resp2.message,
        "Email processed: 0 document(s) created, 0 filtered out."
    );
}

#[test]
fn extensions_fall_back_to_content_type() {
    assert_eq!(EmailService::get_extension("report.PDF", "application/pdf"), "pdf");
    assert_eq!(EmailService::get_extension("noext", "image/png"), "noext");
    assert_eq!(
        EmailService::get_extension("averylongextension.thispartistoolong", "image/png"),
        "png"
    );
    assert_eq!(EmailService::get_extension("weird./slash", "text/plain"), "txt");
    assert_eq!(EmailService::get_extension("x.tar.gz", "application/octet-stream"), "gz");
    assert_eq!(EmailService::get_extension("data.", "application/unknown"), "");
}

#[test]
fn content_types_are_categorized() {
    assert_eq!(EmailService::categorize_content_type("image/png"), "image");
    assert_eq!(EmailService::categorize_content_type("application/pdf"), "pdf");
    assert_eq!(
        EmailService::categorize_content_type(
            "application/vnd.openxmlformats-officedocument.spreadsheetml.sheet"
        ),
        "excel"
    );
    assert_eq!(EmailService::categorize_content_type("text/csv"), "excel");
    assert_eq!(EmailService::categorize_content_type("application/msword"), "word");
    assert_eq!(EmailService::categorize_content_type("video/mp4"), "video");
    assert_eq!(EmailService::categorize_content_type("application/zip"), "other");
}

#[test]
fn mime_types_are_categorized() {
    assert_eq!(DocumentService::categorize_mime_type("image/jpeg"), "image");
    assert_eq!(DocumentService::categorize_mime_type("application/pdf"), "pdf");
    assert_eq!(DocumentService::categorize_mime_type("video/webm"), "video");
    assert_eq!(DocumentService::categorize_mime_type("text/html"), "other");
}

#[test]
fn generic_filenames_are_recognized() {
    assert!(DocumentService::is_generic_filename("IMG_001.jpg"));
    assert!(DocumentService::is_generic_filename("image.JPG"));
    assert!(DocumentService::is_generic_filename("blob"));
    assert!(DocumentService::is_generic_filename("DSC04512.jpg"));
    assert!(DocumentService::is_generic_filename("photo_2024.png"));
    assert!(!DocumentService::is_generic_filename("cortes-cozinha.pdf"));
    assert!(!DocumentService::is_generic_filename("my-image.jpg"));
}
