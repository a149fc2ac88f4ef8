use scriptorium::plan::{plan_deletions, plan_upserts};
use scriptorium::replica::{sync_replicas, Replica};
use scriptorium::session::{Outcome, Step, SyncSession};
use scriptorium::timestamp::Timestamp;
use scriptorium::types::{Book, Document, IdAndModified, RemoteServer};

fn at(text: &str) -> Timestamp {
    Timestamp::parse_rfc3339(text).unwrap()
}

fn book(id: &str, modified: &str, name: &str) -> Book {
    Book {
        id: id.to_string(),
        modified: at(modified),
        name: Some(name.to_string()),
        icon: None,
        icon_color: None,
        trash: 0,
    }
}

fn document(id: &str, book: &str, modified: &str, content: &str) -> Document {
    Document {
        id: id.to_string(),
        book: book.to_string(),
        modified: at(modified),
        name: Some(id.to_string()),
        content: Some(content.to_string()),
        syntax: "md".to_string(),
        icon: None,
        icon_color: None,
    }
}

fn stamp(id: &str, micros: i64) -> IdAndModified {
    IdAndModified { id: id.to_string(), modified: Timestamp::from_micros(micros) }
}

fn sorted(mut v: Vec<String>) -> Vec<String> {
    v.sort();
    v
}

fn ids(v: &[&str]) -> Vec<String> {
    v.iter().map(|s| s.to_string()).collect()
}

fn same_rows(a: &Replica, b: &Replica) -> bool {
    if a.books.len() != b.books.len() || a.documents.len() != b.documents.len() {
        return false;
    }
    for x in &a.books.rows {
        match b.book(&x.id) {
            Some(y) => {
                if y.modified != x.modified || y.name != x.name || y.trash != x.trash || y.icon != x.icon {
                    return false;
                }
            }
            None => return false,
        }
    }
    for x in &a.documents.rows {
        match b.document(&x.id) {
            Some(y) => {
                if y.modified != x.modified || y.content != x.content || y.book != x.book {
                    return false;
                }
            }
            None => return false,
        }
    }
    sorted(a.deleted.clone()) == sorted(b.deleted.clone())
}

#[test]
fn new_local_book_reaches_remote_and_second_pass_is_quiet() {
    let mut local = Replica::new();
    let mut remote = Replica::new();
    assert!(local.put_book(book("b1", "2024-01-01T00:00:00Z", "Notes")));
    assert!(sync_replicas(&mut local, &mut remote));
    let b = remote.book(&"b1".to_string()).unwrap();
    assert_eq!(b.name, Some("Notes".to_string()));
    assert_eq!(b.modified, at("2024-01-01T00:00:00Z"));
    assert!(!sync_replicas(&mut local, &mut remote));
    assert_eq!(remote.books.len(), 1);
    assert_eq!(local.books.len(), 1);
}

#[test]
fn local_tombstone_deletes_remote_document() {
    let mut local = Replica::new();
    let mut remote = Replica::new();
    assert!(local.put_book(book("default", "2024-01-01T00:00:00Z", "default")));
    assert!(remote.put_book(book("default", "2024-01-01T00:00:00Z", "default")));
    assert!(remote.put_document(document("d1", "default", "2024-02-01T00:00:00Z", "text")));
    local.apply_deletions(&ids(&["d1"]));
    assert!(sync_replicas(&mut local, &mut remote));
    assert!(remote.is_deleted(&"d1".to_string()));
    assert!(remote.document(&"d1".to_string()).is_none());
    assert!(local.document(&"d1".to_string()).is_none());
}

#[test]
fn newer_remote_book_overwrites_local() {
    let mut local = Replica::new();
    let mut remote = Replica::new();
    assert!(local.put_book(book("b", "2024-01-01T00:00:00Z", "old")));
    assert!(remote.put_book(book("b", "2024-03-01T12:00:00Z", "new")));
    assert!(sync_replicas(&mut local, &mut remote));
    let b = local.book(&"b".to_string()).unwrap();
    assert_eq!(b.name, Some("new".to_string()));
    assert_eq!(b.modified, at("2024-03-01T12:00:00Z"));
}

#[test]
fn newer_local_book_overwrites_remote() {
    let mut local = Replica::new();
    let mut remote = Replica::new();
    assert!(local.put_book(book("b", "2024-05-01T00:00:00Z", "mine")));
    assert!(remote.put_book(book("b", "2024-01-01T00:00:00Z", "theirs")));
    assert!(sync_replicas(&mut local, &mut remote));
    assert_eq!(remote.book(&"b".to_string()).unwrap().name, Some("mine".to_string()));
}

#[test]
fn equal_stamps_are_left_alone() {
    let mut local = Replica::new();
    let mut remote = Replica::new();
    assert!(local.put_book(book("b", "2024-01-01T00:00:00Z", "here")));
    assert!(remote.put_book(book("b", "2024-01-01T00:00:00Z", "there")));
    assert!(!sync_replicas(&mut local, &mut remote));
    assert_eq!(local.book(&"b".to_string()).unwrap().name, Some("here".to_string()));
    assert_eq!(remote.book(&"b".to_string()).unwrap().name, Some("there".to_string()));
}

#[test]
fn tombstone_beats_newer_row() {
    let mut local = Replica::new();
    let mut remote = Replica::new();
    assert!(local.put_book(book("x", "2024-01-01T00:00:00Z", "gone")));
    local.apply_deletions(&ids(&["x"]));
    assert!(remote.put_book(book("x", "2025-01-01T00:00:00Z", "edited later")));
    assert!(sync_replicas(&mut local, &mut remote));
    assert!(local.book(&"x".to_string()).is_none());
    assert!(remote.book(&"x".to_string()).is_none());
    assert!(local.is_deleted(&"x".to_string()));
    assert!(remote.is_deleted(&"x".to_string()));
    assert!(!remote.put_book(book("x", "2026-01-01T00:00:00Z", "again")));
    assert!(!sync_replicas(&mut local, &mut remote));
    assert!(local.book(&"x".to_string()).is_none());
}

#[test]
fn mixed_mutations_converge() {
    let mut local = Replica::new();
    let mut remote = Replica::new();
    assert!(local.put_book(book("default", "2024-01-01T00:00:00Z", "default")));
    assert!(remote.put_book(book("default", "2024-01-01T00:00:00Z", "default")));
    assert!(local.put_book(book("l1", "2024-01-02T00:00:00Z", "local only")));
    assert!(remote.put_book(book("r1", "2024-01-03T00:00:00Z", "remote only")));
    assert!(local.put_document(document("d1", "default", "2024-01-04T00:00:00Z", "one")));
    assert!(remote.put_document(document("d1", "default", "2024-01-05T00:00:00Z", "two")));
    assert!(remote.put_document(document("d2", "r1", "2024-01-05T00:00:00Z", "three")));
    assert!(local.put_document(document("d3", "l1", "2024-01-06T00:00:00Z", "four")));
    local.apply_deletions(&ids(&["d3"]));
    remote.apply_deletions(&ids(&["old"]));
    assert!(sync_replicas(&mut local, &mut remote));
    assert!(same_rows(&local, &remote));
    assert_eq!(local.books.len(), 3);
    assert_eq!(local.documents.len(), 2);
    assert_eq!(
        local.document(&"d1".to_string()).unwrap().content,
        Some("two".to_string())
    );
    assert_eq!(sorted(local.deleted.clone()), ids(&["d3", "old"]));
    assert!(!sync_replicas(&mut local, &mut remote));
    assert!(same_rows(&local, &remote));
}

#[test]
fn second_sync_changes_nothing() {
    let mut local = Replica::new();
    let mut remote = Replica::new();
    assert!(local.put_book(book("a", "2024-01-01T00:00:00Z", "a")));
    assert!(remote.put_book(book("a", "2024-01-02T00:00:00Z", "a2")));
    remote.apply_deletions(&ids(&["z"]));
    assert!(sync_replicas(&mut local, &mut remote));
    let books_before = local.books.len();
    let deleted_before = local.deleted.len();
    assert!(!sync_replicas(&mut local, &mut remote));
    assert_eq!(local.books.len(), books_before);
    assert_eq!(local.deleted.len(), deleted_before);
}

#[test]
fn deletion_plan_is_set_difference() {
    let plan = plan_deletions(&ids(&["a", "b", "b"]), &ids(&["b", "c", "c", "d"]));
    assert_eq!(sorted(plan.local_missing.clone()), ids(&["c", "d"]));
    assert_eq!(sorted(plan.remote_missing.clone()), ids(&["a"]));
    assert!(plan.changes_anything());
    let none = plan_deletions(&ids(&["a"]), &ids(&["a"]));
    assert!(!none.changes_anything());
    let empty = plan_deletions(&vec![], &vec![]);
    assert!(empty.local_missing.is_empty() && empty.remote_missing.is_empty());
}

#[test]
fn upsert_plan_goes_by_strictly_newer_stamp() {
    let local = vec![stamp("a", 10), stamp("b", 20), stamp("c", 30), stamp("l", 1)];
    let remote = vec![stamp("a", 11), stamp("b", 19), stamp("c", 30), stamp("r", 2)];
    let plan = plan_upserts(&local, &remote);
    assert_eq!(sorted(plan.to_local.clone()), ids(&["a", "r"]));
    assert_eq!(sorted(plan.to_remote.clone()), ids(&["b", "l"]));
    assert!(plan.changes_anything());
}

#[test]
fn upsert_plan_takes_last_entry_of_repeated_id() {
    let local = vec![stamp("a", 50), stamp("a", 5)];
    let remote = vec![stamp("a", 10)];
    let plan = plan_upserts(&local, &remote);
    assert_eq!(plan.to_local, ids(&["a"]));
    assert!(plan.to_remote.is_empty());
}

fn server(id: &str, db_type: &str) -> RemoteServer {
    RemoteServer {
        id: id.to_string(),
        host: "localhost".to_string(),
        port: 5432,
        db: "notes".to_string(),
        user: "me".to_string(),
        password: "secret".to_string(),
        db_type: db_type.to_string(),
    }
}

#[test]
fn unreachable_remote_is_one_error_and_others_converge() {
    let mut local = Replica::new();
    assert!(local.put_book(book("b1", "2024-01-01T00:00:00Z", "Notes")));
    let mut reachable = Replica::new();
    assert!(reachable.put_book(book("b2", "2024-01-02T00:00:00Z", "Other")));
    let mut session = SyncSession::new(vec![server("down", "postgresql"), server("up", "mysql")]);
    let mut visits = 0;
    loop {
        match session.advance() {
            Step::Finish => break,
            Step::Skipped => {}
            Step::Visit { index, .. } => {
                visits += 1;
                if session.servers[index].id == "down" {
                    session.record(Outcome::Unreachable("connection refused".to_string()));
                } else {
                    let changed = sync_replicas(&mut local, &mut reachable);
                    session.record(Outcome::Synced(changed));
                }
            }
        }
        assert!(visits < 10);
    }
    assert_eq!(session.errors.len(), 1);
    assert_eq!(session.result(), Err(vec!["connection refused".to_string()]));
    assert_eq!(session.servers.len(), 1);
    assert!(same_rows(&local, &reachable));
    assert_eq!(local.books.len(), 2);
}

#[test]
fn session_without_servers_finishes_at_once() {
    let mut session = SyncSession::new(vec![]);
    assert!(matches!(session.advance(), Step::Finish));
    assert_eq!(session.result(), Ok(()));
}

#[test]
fn unknown_dialect_is_reported_and_passed_over() {
    let mut session = SyncSession::new(vec![server("s", "oracle")]);
    assert!(matches!(session.advance(), Step::Skipped));
    assert!(matches!(session.advance(), Step::Finish));
    assert_eq!(
        session.result(),
        Err(vec!["Unrecognized database type: \"oracle\"".to_string()])
    );
    assert_eq!(session.servers.len(), 1);
}

#[test]
fn query_failure_keeps_the_registration() {
    let mut session = SyncSession::new(vec![server("s", "mysql")]);
    assert!(matches!(session.advance(), Step::Visit { index: 0, .. }));
    session.record(Outcome::Failed { changed: true, message: "lost connection".to_string() });
    assert_eq!(session.servers.len(), 1);
    assert!(matches!(session.advance(), Step::Visit { index: 0, .. }));
    session.record(Outcome::Synced(false));
    assert!(matches!(session.advance(), Step::Finish));
    assert_eq!(session.result(), Err(vec!["lost connection".to_string()]));
}

#[test]
fn changed_pass_starts_another() {
    let mut session = SyncSession::new(vec![server("a", "mysql"), server("b", "postgresql")]);
    assert!(matches!(session.advance(), Step::Visit { index: 0, .. }));
    session.record(Outcome::Synced(true));
    assert!(matches!(session.advance(), Step::Visit { index: 1, .. }));
    session.record(Outcome::Synced(false));
    assert!(matches!(session.advance(), Step::Visit { index: 0, .. }));
    session.record(Outcome::Synced(false));
    assert!(matches!(session.advance(), Step::Visit { index: 1, .. }));
    session.record(Outcome::Synced(false));
    assert!(matches!(session.advance(), Step::Finish));
}

#[test]
fn unreachable_remotes_exhaust_the_run() {
    let mut session = SyncSession::new(vec![server("a", "mysql"), server("b", "mysql")]);
    assert!(matches!(session.advance(), Step::Visit { index: 0, .. }));
    session.record(Outcome::Unreachable("a down".to_string()));
    assert!(matches!(session.advance(), Step::Visit { index: 0, .. }));
    assert_eq!(session.servers[0].id, "b");
    session.record(Outcome::Unreachable("b down".to_string()));
    assert!(matches!(session.advance(), Step::Finish));
    assert_eq!(session.errors.len(), 2);
}

fn run(local: &mut Replica, remotes: &mut [Replica], names: &[&str]) -> (usize, Result<(), Vec<String>>) {
    let servers = names.iter().map(|n| server(n, "mysql")).collect();
    let mut session = SyncSession::new(servers);
    let mut visits = 0;
    loop {
        match session.advance() {
            Step::Finish => break,
            Step::Skipped => {}
            Step::Visit { index, .. } => {
                visits += 1;
                let changed = sync_replicas(local, &mut remotes[index]);
                session.record(Outcome::Synced(changed));
            }
        }
        assert!(visits < 20);
    }
    (visits, session.result())
}

#[test]
fn second_run_over_several_remotes_is_one_quiet_pass() {
    let mut local = Replica::new();
    assert!(local.put_book(book("l", "2024-01-01T00:00:00Z", "local")));
    let mut a = Replica::new();
    assert!(a.put_book(book("a", "2024-01-02T00:00:00Z", "from a")));
    a.apply_deletions(&ids(&["gone"]));
    let mut b = Replica::new();
    assert!(b.put_book(book("b", "2024-01-03T00:00:00Z", "from b")));
    let mut remotes = vec![a, b];
    let (first, result) = run(&mut local, &mut remotes, &["a", "b"]);
    assert_eq!(result, Ok(()));
    assert!(first > 2);
    assert!(same_rows(&local, &remotes[0]));
    assert!(same_rows(&local, &remotes[1]));
    let (second, result) = run(&mut local, &mut remotes, &["a", "b"]);
    assert_eq!(result, Ok(()));
    assert_eq!(second, 2);
    assert_eq!(local.books.len(), 3);
    assert!(same_rows(&local, &remotes[0]));
    assert!(same_rows(&local, &remotes[1]));
}
