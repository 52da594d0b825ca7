use session_auth::db::text_eq;
use session_auth::db::Database;
use session_auth::db::RefreshSession;

fn session(user_id: i64, token_hash: &str, expires_at: i64) -> RefreshSession {
    RefreshSession { user_id, token_hash: token_hash.to_string(), expires_at }
}

#[test]
fn new_database_is_empty() {
    let db = Database::new();
    assert!(db.find_user_by_email("a@x.com").is_none());
    assert!(db.find_user_by_id(1).is_none());
    assert!(db.find_session_by_hash("h").is_none());
}

#[test]
fn accounts_get_ids_from_one_upwards() {
    let mut db = Database::new();
    assert_eq!(db.insert_user("a@x.com".to_string(), "hash-a".to_string()), Some(1));
    assert_eq!(db.insert_user("b@x.com".to_string(), "hash-b".to_string()), Some(2));
    assert_eq!(db.insert_user("c@x.com".to_string(), "hash-c".to_string()), Some(3));

    let b = db.find_user_by_email("b@x.com").unwrap();
    assert_eq!(b.id, 2);
    assert_eq!(b.email, "b@x.com");
    assert_eq!(b.password_hash, "hash-b");

    let c = db.find_user_by_id(3).unwrap();
    assert_eq!(c.email, "c@x.com");
    assert_eq!(c.password_hash, "hash-c");

    assert!(db.find_user_by_id(0).is_none());
    assert!(db.find_user_by_id(4).is_none());
    assert!(db.find_user_by_email("d@x.com").is_none());
}

#[test]
fn email_match_is_exact() {
    let mut db = Database::new();
    db.insert_user("a@x.com".to_string(), "h".to_string());
    assert!(db.find_user_by_email("A@x.com").is_none());
    assert!(db.find_user_by_email("a@x.com ").is_none());
    assert!(db.find_user_by_email("a@x.co").is_none());
    assert!(db.find_user_by_email("a@x.com").is_some());
}

#[test]
fn a_taken_email_is_not_inserted_again() {
    let mut db = Database::new();
    assert_eq!(db.insert_user("a@x.com".to_string(), "first".to_string()), Some(1));
    assert_eq!(db.insert_user("a@x.com".to_string(), "second".to_string()), None);
    assert_eq!(db.find_user_by_email("a@x.com").unwrap().password_hash, "first");
    // The refused insert used up no id.
    assert_eq!(db.insert_user("b@x.com".to_string(), "third".to_string()), Some(2));
}

#[test]
fn upsert_keeps_one_session_for_each_account() {
    let mut db = Database::new();
    db.upsert_session(session(1, "h1", 100));
    db.upsert_session(session(2, "h2", 200));
    db.upsert_session(session(1, "h3", 300));

    assert!(db.find_session_by_hash("h1").is_none());
    let second = db.find_session_by_hash("h2").unwrap();
    assert_eq!((second.user_id, second.expires_at), (2, 200));
    let third = db.find_session_by_hash("h3").unwrap();
    assert_eq!((third.user_id, third.expires_at), (1, 300));
}

#[test]
fn look_up_by_hash_answers_with_the_smallest_account_id() {
    let mut db = Database::new();
    db.upsert_session(session(9, "same", 900));
    db.upsert_session(session(4, "same", 400));
    db.upsert_session(session(6, "same", 600));
    db.upsert_session(session(1, "other", 100));
    let found = db.find_session_by_hash("same").unwrap();
    assert_eq!((found.user_id, found.expires_at), (4, 400));
}

#[test]
fn delete_by_hash_removes_every_holder_and_nothing_else() {
    let mut db = Database::new();
    db.upsert_session(session(1, "same", 100));
    db.upsert_session(session(2, "keep", 200));
    db.upsert_session(session(3, "same", 300));
    db.upsert_session(session(4, "same", 400));
    db.delete_sessions_by_hash("same");
    assert!(db.find_session_by_hash("same").is_none());
    assert_eq!(db.find_session_by_hash("keep").unwrap().user_id, 2);
    db.delete_sessions_by_hash("absent");
    assert_eq!(db.find_session_by_hash("keep").unwrap().user_id, 2);
}

#[test]
fn delete_by_account_is_idempotent() {
    let mut db = Database::new();
    db.upsert_session(session(1, "h1", 100));
    db.upsert_session(session(2, "h2", 200));
    db.delete_session_of(1);
    assert!(db.find_session_by_hash("h1").is_none());
    assert!(db.find_session_by_hash("h2").is_some());
    db.delete_session_of(1);
    db.delete_session_of(77);
    assert!(db.find_session_by_hash("h1").is_none());
    assert!(db.find_session_by_hash("h2").is_some());
}

#[test]
fn rotation_deletes_the_old_hash_and_stores_the_new_session() {
    let mut db = Database::new();
    db.upsert_session(session(1, "old", 100));
    db.upsert_session(session(2, "other", 200));
    db.rotate_session(Some("old"), session(1, "new", 500));
    assert!(db.find_session_by_hash("old").is_none());
    let fresh = db.find_session_by_hash("new").unwrap();
    assert_eq!((fresh.user_id, fresh.expires_at), (1, 500));
    assert_eq!(db.find_session_by_hash("other").unwrap().user_id, 2);
}

#[test]
fn rotation_without_an_old_hash_is_an_upsert() {
    let mut db = Database::new();
    db.upsert_session(session(1, "old", 100));
    db.rotate_session(None, session(1, "new", 500));
    assert!(db.find_session_by_hash("old").is_none());
    assert_eq!(db.find_session_by_hash("new").unwrap().expires_at, 500);
    db.rotate_session(None, session(2, "second", 600));
    assert_eq!(db.find_session_by_hash("new").unwrap().user_id, 1);
    assert_eq!(db.find_session_by_hash("second").unwrap().user_id, 2);
}

#[test]
fn rotation_deletes_the_old_hash_of_another_account_too() {
    let mut db = Database::new();
    db.upsert_session(session(1, "old", 100));
    db.upsert_session(session(2, "old", 200));
    db.rotate_session(Some("old"), session(1, "new", 500));
    assert!(db.find_session_by_hash("old").is_none());
    assert_eq!(db.find_session_by_hash("new").unwrap().user_id, 1);
}

#[test]
fn texts_compare_by_their_characters() {
    assert!(text_eq("", ""));
    assert!(text_eq("abc", "abc"));
    assert!(!text_eq("abc", "abd"));
    assert!(!text_eq("abc", "ab"));
    assert!(!text_eq("é", "e"));
}
