//! The forum engine, push bookkeeping, profiles, authentication and startup
//! provisioning.

use digpaper::auth::api_key_auth;
use digpaper::document::DocumentService;
use digpaper::email::EmailService;
use digpaper::forum::ForumService;
use digpaper::init::{ensure_default_filters, ensure_geral};
use digpaper::model::{MessageBody, Store};
use digpaper::project::ProjectService;
use digpaper::push::PushService;
use digpaper::user::UserService;
use digpaper::model::ProjectStatus;

const NOW: i64 = 1_700_000_000;

fn store_with_project(name: &str) -> (Store, String) {
    let mut store = Store::new();
    let p = ProjectService::create(&mut store, &name.to_string(), NOW).unwrap();
    (store, p.id)
}

#[test]
fn reply_inherits_parent_project() {
    let (mut store, pid) = store_with_project("Obra A");
    let msg = ForumService::create_text_message(
        &mut store,
        &pid,
        &"bom dia".to_string(),
        &"Rui".to_string(),
        NOW,
    )
    .unwrap();
    let reply = ForumService::create_reply(
        &mut store,
        &msg.id,
        &"boa tarde".to_string(),
        &"Ana".to_string(),
        NOW + 10,
    )
    .unwrap();
    assert_eq!(reply.project_id, msg.project_id);
    assert_eq!(reply.parent_id.as_deref(), Some(msg.id.as_str()));

    match ForumService::create_reply(
        &mut store,
        &"ghost".to_string(),
        &"x".to_string(),
        &"Ana".to_string(),
        NOW,
    ) {
        Err(e) => assert_eq!(e.kind(), "not_found"),
        Ok(_) => panic!("replying to a missing message must fail"),
    }
}

#[test]
fn toggle_twice_restores_task_item() {
    let (mut store, pid) = store_with_project("Obra A");
    ForumService::create_task_list(
        &mut store,
        &pid,
        Some(&"cozinha".to_string()),
        &vec!["cortar tampo".to_string(), "montar porta".to_string()],
        &"Rui".to_string(),
        NOW,
    )
    .unwrap();
    let item_id = store.tasks[0].id.clone();

    let once =
        ForumService::toggle_task_item(&mut store, &item_id, Some(&"Ana".to_string()), NOW + 5)
            .unwrap();
    assert!(once.completed);
    assert_eq!(once.completed_by.as_deref(), Some("Ana"));
    assert_eq!(once.completed_at, Some(NOW + 5));

    let twice =
        ForumService::toggle_task_item(&mut store, &item_id, Some(&"Rui".to_string()), NOW + 9)
            .unwrap();
    assert!(!twice.completed);
    assert_eq!(twice.completed_by, None);
    assert_eq!(twice.completed_at, None);

    match ForumService::toggle_task_item(&mut store, &"ghost".to_string(), None, NOW) {
        Err(e) => assert_eq!(e.kind(), "not_found"),
        Ok(_) => panic!("toggling a missing item must fail"),
    }
}

#[test]
fn threads_and_replies_are_listed_in_order() {
    let (mut store, pid) = store_with_project("Obra A");
    let m1 = ForumService::create_text_message(
        &mut store,
        &pid,
        &"primeiro".to_string(),
        &"Rui".to_string(),
        NOW,
    )
    .unwrap();
    let m2 = ForumService::create_text_message(
        &mut store,
        &pid,
        &"segundo".to_string(),
        &"Ana".to_string(),
        NOW + 1,
    )
    .unwrap();
    ForumService::create_reply(&mut store, &m1.id, &"r1".to_string(), &"Ana".to_string(), NOW + 2)
        .unwrap();
    ForumService::create_reply(&mut store, &m1.id, &"r2".to_string(), &"Rui".to_string(), NOW + 3)
        .unwrap();

    let thread = ForumService::list_messages(&store, &pid);
    assert_eq!(thread.len(), 2);
    assert_eq!(thread[0].id, m1.id);
    assert_eq!(thread[1].id, m2.id);

    let replies = ForumService::list_replies(&store, &m1.id);
    assert_eq!(replies.len(), 2);
    assert_eq!(ForumService::get_reply_count(&store, &m1.id), 2);
    assert_eq!(ForumService::get_reply_count(&store, &m2.id), 0);
}

#[test]
fn create_entry_dispatches_on_type() {
    let (mut store, pid) = store_with_project("Obra A");
    let items: Vec<String> = Vec::new();
    let m = ForumService::create_entry(
        &mut store,
        &pid,
        &"TEXT".to_string(),
        Some(&"ola".to_string()),
        &items,
        &"Rui".to_string(),
        NOW,
    )
    .unwrap();
    match &m.body {
        MessageBody::Text { content } => assert_eq!(content, "ola"),
        _ => panic!("a TEXT entry must carry a text body"),
    }
    let tl = ForumService::create_entry(
        &mut store,
        &pid,
        &"TASK_LIST".to_string(),
        None,
        &vec!["a".to_string()],
        &"Rui".to_string(),
        NOW,
    )
    .unwrap();
    match &tl.body {
        MessageBody::TaskList { content } => assert_eq!(*content, None),
        _ => panic!("a TASK_LIST entry must carry a task-list body"),
    }
    match ForumService::create_entry(
        &mut store,
        &pid,
        &"VOICE".to_string(),
        None,
        &items,
        &"Rui".to_string(),
        NOW,
    ) {
        Err(e) => assert_eq!(e.kind(), "bad_request"),
        Ok(_) => panic!("an entry type besides TEXT and TASK_LIST must be refused"),
    }
}

#[test]
fn build_response_assembles_each_type() {
    let (mut store, pid) = store_with_project("Obra A");
    let doc = DocumentService::upload(
        &mut store,
        &"a.jpg".to_string(),
        &"image/jpeg".to_string(),
        NOW,
    )
    .unwrap();
    let photo = ForumService::create_photo_message(
        &mut store,
        &pid,
        &doc.id,
        &"Rui".to_string(),
        NOW,
    )
    .unwrap();
    let resp = ForumService::build_response(&store, &photo, "http://h");
    assert_eq!(resp.message_type, "PHOTO");
    assert_eq!(resp.document_id.as_deref(), Some(doc.id.as_str()));
    let shown = resp.document.expect("the shown document must be attached");
    assert_eq!(shown.id, doc.id);
    assert!(shown.file_url.starts_with("http://h/files/"));
    assert_eq!(resp.reply_count, 0);

    let voice = ForumService::create_voice_message(
        &mut store,
        &pid,
        &"voice_x.webm".to_string(),
        &"Ana".to_string(),
        Some(&"transcricao".to_string()),
        NOW,
    )
    .unwrap();
    let resp = ForumService::build_response(&store, &voice, "http://h");
    assert_eq!(resp.message_type, "VOICE");
    assert_eq!(resp.audio_path.as_deref(), Some("voice_x.webm"));
    assert_eq!(resp.audio_url.as_deref(), Some("/files/voice_x.webm"));
    assert_eq!(resp.content.as_deref(), Some("transcricao"));

    ForumService::create_task_list(
        &mut store,
        &pid,
        None,
        &vec!["um".to_string(), "dois".to_string()],
        &"Rui".to_string(),
        NOW,
    )
    .unwrap();
    let tl = ForumService::list_messages(&store, &pid)
        .into_iter()
        .last()
        .unwrap();
    let resp = ForumService::build_response(&store, &tl, "http://h");
    assert_eq!(resp.message_type, "TASK_LIST");
    let items = resp.items.expect("task items must be attached");
    assert_eq!(items.len(), 2);
    assert_eq!(items[0].text, "um");
    assert_eq!(items[1].text, "dois");
}

#[test]
fn push_subscriptions_upsert_by_endpoint() {
    let mut store = Store::new();
    PushService::store_vapid_keys(&mut store, "pem".to_string(), "pub".to_string());
    assert_eq!(PushService::get_vapid_public_key(&store).unwrap(), "pub");

    PushService::subscribe(
        &mut store,
        &"https://push/e1".to_string(),
        &"k1".to_string(),
        &"a1".to_string(),
        Some(&"Rui".to_string()),
        NOW,
    );
    PushService::subscribe(
        &mut store,
        &"https://push/e1".to_string(),
        &"k2".to_string(),
        &"a2".to_string(),
        Some(&"Ana".to_string()),
        NOW + 1,
    );
    PushService::subscribe(
        &mut store,
        &"https://push/e2".to_string(),
        &"k3".to_string(),
        &"a3".to_string(),
        None,
        NOW,
    );
    assert_eq!(store.subs.len(), 2);

    let plan = PushService::notification_plan(
        &store,
        &"Obra A".to_string(),
        &"Ana".to_string(),
        &"nova mensagem".to_string(),
    )
    .expect("a plan is due: a key is stored and one stranger subscribes");
    // Ana's own subscription is skipped; the anonymous one is kept.
    assert_eq!(plan.recipients.len(), 1);
    assert_eq!(plan.recipients[0].endpoint, "https://push/e2");
    assert_eq!(plan.title, "Obra A - Ana");
    assert_eq!(plan.body, "nova mensagem");
    assert_eq!(plan.tag, "Obra A");

    PushService::unsubscribe(&mut store, &"https://push/e2".to_string());
    assert_eq!(store.subs.len(), 1);
    // Only the author subscribes: nothing to send.
    assert!(PushService::notification_plan(
        &store,
        &"Obra A".to_string(),
        &"Ana".to_string(),
        &"x".to_string(),
    )
    .is_none());
}

#[test]
fn notification_body_is_truncated() {
    let mut store = Store::new();
    PushService::store_vapid_keys(&mut store, "pem".to_string(), "pub".to_string());
    PushService::subscribe(
        &mut store,
        &"https://push/e1".to_string(),
        &"k".to_string(),
        &"a".to_string(),
        None,
        NOW,
    );
    let long = "x".repeat(150);
    let plan = PushService::notification_plan(
        &store,
        &"Obra".to_string(),
        &"Rui".to_string(),
        &long,
    )
    .unwrap();
    assert_eq!(plan.body.chars().count(), 100);
    assert!(plan.body.ends_with("..."));
    assert!(plan.body.starts_with("xxx"));
}

#[test]
fn plan_requires_stored_keys() {
    let mut store = Store::new();
    PushService::subscribe(
        &mut store,
        &"https://push/e1".to_string(),
        &"k".to_string(),
        &"a".to_string(),
        None,
        NOW,
    );
    assert!(PushService::notification_plan(
        &store,
        &"Obra".to_string(),
        &"Rui".to_string(),
        &"x".to_string(),
    )
    .is_none());
    match PushService::get_vapid_public_key(&store) {
        Err(e) => assert_eq!(e.kind(), "internal_error"),
        Ok(_) => panic!("no key is stored yet"),
    }
}

#[test]
fn profiles_upsert_by_name() {
    let mut store = Store::new();
    assert!(UserService::get_profile(&store, &"Rui".to_string()).is_none());
    UserService::update_profile_photo(&mut store, &"Rui".to_string(), &"/p/1.jpg".to_string(), NOW);
    UserService::update_profile_photo(
        &mut store,
        &"Rui".to_string(),
        &"/p/2.jpg".to_string(),
        NOW + 5,
    );
    UserService::update_profile_photo(&mut store, &"Ana".to_string(), &"/p/a.jpg".to_string(), NOW);
    UserService::update_profile_photo(&mut store, &"Zoe".to_string(), &"/p/z.jpg".to_string(), NOW);
    let all = UserService::list_profiles(&store);
    assert_eq!(all.len(), 3);
    // Profiles come out in name order.
    assert_eq!(all[0].name, "Ana");
    assert_eq!(all[1].name, "Rui");
    assert_eq!(all[2].name, "Zoe");
    let rui = UserService::get_profile(&store, &"Rui".to_string()).unwrap();
    assert_eq!(rui.photo_url, "/p/2.jpg");
    assert_eq!(rui.updated_at, NOW + 5);
}

#[test]
fn api_key_decision() {
    let key = "SECRET-REDACTED".to_string();
    // No configured key, or an empty one: open access.
    assert!(api_key_auth(None, None));
    assert!(api_key_auth(Some(&"".to_string()), None));
    // A configured key admits exactly itself.
    assert!(api_key_auth(Some(&key), Some(&key)));
    assert!(!api_key_auth(Some(&key), Some(&"wrong".to_string())));
    assert!(!api_key_auth(Some(&key), None));
}

#[test]
fn startup_provisioning_is_idempotent() {
    let mut store = Store::new();
    let g1 = ensure_geral(&mut store, NOW).unwrap();
    assert_eq!(g1.name, "Geral");
    let g2 = ensure_geral(&mut store, NOW + 1).unwrap();
    assert_eq!(g1.id, g2.id);
    assert_eq!(store.projects.len(), 1);

    ensure_default_filters(&mut store, NOW).unwrap();
    assert_eq!(store.filters.len(), 11);
    ensure_default_filters(&mut store, NOW + 1).unwrap();
    assert_eq!(store.filters.len(), 11);
    // The stock filters drop tiny decorative images and named logos.
    assert!(EmailService::should_filter_attachment(&store, "big-logo.png", 50_000));
    assert!(EmailService::should_filter_attachment(&store, "site-plan.pdf", 900));
    assert!(!EmailService::should_filter_attachment(&store, "site-plan.pdf", 90_000));
}

#[test]
fn project_status_words() {
    assert_eq!(ProjectStatus::Active.as_str(), "ACTIVE");
    assert_eq!(ProjectStatus::Archived.as_str(), "ARCHIVED");
    assert_eq!(ProjectStatus::parse_filter("Active"), Some(ProjectStatus::Active));
    assert_eq!(ProjectStatus::parse_filter("archived"), Some(ProjectStatus::Archived));
    assert_eq!(ProjectStatus::parse_filter("open"), None);
}

#[test]
fn current_time_is_in_calendar_range() {
    let t = digpaper::clock::current_time();
    assert!(t >= 0);
    assert!(t <= 253_402_300_799);
}
