use memorable::{DataBase, Docs, Error, MemoDoc, Staged};

#[derive(Clone, Debug, PartialEq)]
struct Note {
    uuid: String,
    name: String,
}

impl MemoDoc for Note {
    fn get_id(&self) -> &str {
        &self.uuid
    }

    fn set_id(&mut self, id: &str) {
        self.uuid = id.to_string();
    }
}

fn note(uuid: &str, name: &str) -> Note {
    Note { uuid: uuid.to_string(), name: name.to_string() }
}

/// The entries by ascending identity: a collection promises no order.
fn sorted(docs: &Docs<Note>) -> Vec<(String, Note)> {
    let mut entries = docs.entries().clone();
    entries.sort_by(|a, b| a.0.cmp(&b.0));
    entries
}

fn docs_of(notes: &[Note]) -> Docs<Note> {
    let mut docs = Docs::new();
    for n in notes {
        docs.insert(n.uuid.clone(), n.clone());
    }
    docs
}

/// Runs a whole insertion against a file that holds `file`, as a caller
/// does: the file is read between the first and the second step and
/// written after the second.
fn insert(
    db: &mut DataBase<Note>,
    file: &mut Option<Docs<Note>>,
    data: Note,
) -> Result<String, Error> {
    let staged = db.push(data)?;
    let key = staged.key.clone();
    let merged = staged.merge(file.clone());
    *file = Some(merged.clone());
    db.commit(merged);
    Ok(key)
}

#[test]
fn set_id_then_get_id() {
    let mut n = note("", "a");
    assert_eq!(n.get_id(), "");
    n.set_id("k1");
    assert_eq!(n.get_id(), "k1");
    assert_eq!(n.name, "a");
}

#[test]
fn open_without_file_is_empty_and_asks_for_a_write() {
    let (db, rewrite) = DataBase::<Note>::open("db.json", None);
    assert!(rewrite);
    assert_eq!(db.file_path(), "db.json");
    assert!(db.docs().is_empty());
    assert_eq!(db.docs().len(), 0);
    assert_eq!(db.get("k1"), None);
}

#[test]
fn open_on_undecodable_file_starts_empty() {
    // Whatever the file held, the caller hands over nothing where it could
    // not decode it, and is told to overwrite the file.
    let (db, rewrite) = DataBase::<Note>::open("./some/dir/notes.json", None);
    assert!(rewrite);
    assert_eq!(db.file_path(), "./some/dir/notes.json");
    assert_eq!(db.docs().entries().len(), 0);
}

#[test]
fn open_on_decoded_file_takes_it_and_asks_for_no_write() {
    let stored = docs_of(&[note("k1", "a"), note("k2", "b")]);
    let (db, rewrite) = DataBase::open("db.json", Some(stored));
    assert!(!rewrite);
    assert_eq!(db.docs().len(), 2);
    assert_eq!(db.get("k1"), Some(note("k1", "a")));
    assert_eq!(db.get("k2"), Some(note("k2", "b")));
    assert_eq!(db.get("k3"), None);
}

#[test]
fn open_on_decoded_empty_collection_asks_for_no_write() {
    let (db, rewrite) = DataBase::<Note>::open("db.json", Some(Docs::new()));
    assert!(!rewrite);
    assert!(db.docs().is_empty());
}

#[test]
fn get_is_by_key_and_returns_a_copy() {
    let (db, _) = DataBase::open("db.json", Some(docs_of(&[note("k1", "a")])));
    let mut copy = db.get("k1").unwrap();
    copy.name.push('!');
    assert_eq!(db.get("k1"), Some(note("k1", "a")));
    assert_eq!(db.get(""), None);
    assert_eq!(db.get("K1"), None);
}

#[test]
fn judge_refuses_a_taken_identity() {
    let (db, _) = DataBase::open("db.json", Some(docs_of(&[note("k1", "a")])));
    assert_eq!(db.judge("k1"), Err(Error::AlreadyExists));
}

#[test]
fn judge_lets_a_free_identity_pass() {
    let (db, _) = DataBase::open("db.json", Some(docs_of(&[note("k1", "a")])));
    assert_eq!(db.judge("k2"), Ok(None));
}

#[test]
fn judge_gives_the_empty_identity_a_fresh_one() {
    let (db, _) = DataBase::open("db.json", Some(docs_of(&[note("k1", "a")])));
    match db.judge("") {
        Ok(Some(fresh)) => assert_eq!(fresh.len(), 36),
        other => panic!("no fresh identity: {:?}", other),
    }
}

#[test]
fn judge_never_looks_the_empty_identity_up() {
    // A file may hold a record under the empty key.
    let mut stored = Docs::new();
    stored.insert(String::new(), note("", "a"));
    let (db, _) = DataBase::open("db.json", Some(stored));
    assert!(db.docs().contains_key(""));
    assert!(matches!(db.judge(""), Ok(Some(_))));
    assert!(db.push(note("", "b")).is_ok());
}

#[test]
fn push_with_an_unused_identity_keeps_the_record_as_it_is() {
    let (db, _) = DataBase::open("db.json", Some(docs_of(&[note("k1", "a")])));
    let staged = db.push(note("k2", "b")).unwrap();
    assert_eq!(staged.key, "k2");
    assert_eq!(staged.doc, note("k2", "b"));
    // Nothing has changed yet.
    assert_eq!(db.docs().len(), 1);
    assert_eq!(db.get("k2"), None);
}

#[test]
fn push_then_get_returns_an_equal_record() {
    let (mut db, _) = DataBase::open("db.json", None);
    let mut file = Some(Docs::new());
    let key = insert(&mut db, &mut file, note("k1", "a")).unwrap();
    assert_eq!(key, "k1");
    assert_eq!(db.get("k1"), Some(note("k1", "a")));
    assert_eq!(db.docs().len(), 1);
}

#[test]
fn push_with_a_taken_identity_fails_and_changes_nothing() {
    let (mut db, _) = DataBase::open("db.json", None);
    let mut file = Some(Docs::new());
    insert(&mut db, &mut file, note("k1", "a")).unwrap();

    let before = db.clone();
    let refused = db.push(note("k1", "other"));
    assert_eq!(refused.err(), Some(Error::AlreadyExists));
    assert_eq!(sorted(db.docs()), sorted(before.docs()));
    assert_eq!(db.get("k1"), Some(note("k1", "a")));

    // Through the whole insertion the file is left alone too.
    let file_before = file.clone().unwrap();
    assert_eq!(insert(&mut db, &mut file, note("k1", "other")), Err(Error::AlreadyExists));
    assert_eq!(sorted(&file.unwrap()), sorted(&file_before));
}

#[test]
fn push_with_empty_identity_assigns_a_random_uuid() {
    let (db, _) = DataBase::<Note>::open("db.json", None);
    let staged = db.push(note("", "a")).unwrap();

    assert_eq!(staged.key.len(), 36);
    assert_eq!(staged.doc.uuid, staged.key);
    assert_eq!(staged.doc.name, "a");
    for (i, c) in staged.key.chars().enumerate() {
        if i == 8 || i == 13 || i == 18 || i == 23 {
            assert_eq!(c, '-');
        } else {
            assert!(c.is_ascii_digit() || ('a'..='f').contains(&c), "{c} at {i}");
        }
    }
    assert_eq!(staged.key.chars().nth(14), Some('4'));
    assert!("89ab".contains(staged.key.chars().nth(19).unwrap()));

    let parsed = uuid::Uuid::parse_str(&staged.key).unwrap();
    assert_eq!(parsed.get_version(), Some(uuid::Version::Random));
    assert_eq!(parsed.to_string(), staged.key);
}

#[test]
fn push_with_empty_identity_draws_a_new_uuid_each_time() {
    let (db, _) = DataBase::<Note>::open("db.json", None);
    let first = db.push(note("", "a")).unwrap();
    let second = db.push(note("", "a")).unwrap();
    assert_ne!(first.key, second.key);
}

#[test]
fn merge_inserts_into_what_the_file_holds() {
    let staged = Staged { key: "k3".to_string(), doc: note("k3", "c") };
    let merged = staged.merge(Some(docs_of(&[note("k1", "a"), note("k2", "b")])));
    assert_eq!(merged.len(), 3);
    assert_eq!(merged.get("k1"), Some(&note("k1", "a")));
    assert_eq!(merged.get("k2"), Some(&note("k2", "b")));
    assert_eq!(merged.get("k3"), Some(&note("k3", "c")));
}

#[test]
fn merge_starts_empty_where_the_file_could_not_be_decoded() {
    let staged = Staged { key: "k1".to_string(), doc: note("k1", "a") };
    let merged = staged.merge(None);
    assert_eq!(merged.len(), 1);
    assert_eq!(merged.get("k1"), Some(&note("k1", "a")));
}

#[test]
fn merge_overwrites_a_record_that_only_the_file_holds() {
    let staged = Staged { key: "k1".to_string(), doc: note("k1", "new") };
    let merged = staged.merge(Some(docs_of(&[note("k1", "stale"), note("k2", "b")])));
    assert_eq!(merged.len(), 2);
    assert_eq!(merged.get("k1"), Some(&note("k1", "new")));
    assert_eq!(merged.get("k2"), Some(&note("k2", "b")));
}

#[test]
fn push_takes_over_what_the_file_holds() {
    // The store knows k1; meanwhile the file came to hold k2 only.
    let (mut db, _) = DataBase::open("db.json", Some(docs_of(&[note("k1", "a")])));
    let mut file = Some(docs_of(&[note("k2", "b")]));
    insert(&mut db, &mut file, note("k3", "c")).unwrap();
    assert_eq!(db.get("k1"), None);
    assert_eq!(db.get("k2"), Some(note("k2", "b")));
    assert_eq!(db.get("k3"), Some(note("k3", "c")));
    assert_eq!(sorted(db.docs()), sorted(&file.unwrap()));
}

#[test]
fn push_on_an_undecodable_file_keeps_the_new_record_only() {
    let (mut db, _) = DataBase::open("db.json", Some(docs_of(&[note("k1", "a")])));
    let mut file = None;
    insert(&mut db, &mut file, note("k2", "b")).unwrap();
    assert_eq!(db.docs().len(), 1);
    assert_eq!(db.get("k1"), None);
    assert_eq!(db.get("k2"), Some(note("k2", "b")));
}

#[test]
fn commit_replaces_the_collection_and_keeps_the_path() {
    let (mut db, _) = DataBase::open("db.json", Some(docs_of(&[note("k1", "a")])));
    db.commit(docs_of(&[note("k2", "b"), note("k3", "c")]));
    assert_eq!(db.file_path(), "db.json");
    assert_eq!(db.docs().len(), 2);
    assert_eq!(db.get("k1"), None);
    assert_eq!(db.get("k3"), Some(note("k3", "c")));
}

#[test]
fn del_on_an_absent_identity_fails_and_changes_nothing() {
    let (mut db, _) = DataBase::open("db.json", Some(docs_of(&[note("k1", "a")])));
    let before = db.clone();
    assert_eq!(db.del("k2"), Err(Error::NotFound("k2".to_string())));
    assert_eq!(sorted(db.docs()), sorted(before.docs()));
    assert_eq!(db.file_path(), "db.json");
}

#[test]
fn del_on_an_empty_store_fails() {
    let (mut db, _) = DataBase::<Note>::open("db.json", None);
    assert_eq!(db.del(""), Err(Error::NotFound(String::new())));
}

#[test]
fn del_returns_the_record_and_removes_it() {
    let (mut db, _) = DataBase::open("db.json", Some(docs_of(&[note("k1", "a"), note("k2", "b")])));
    assert_eq!(db.del("k1"), Ok(note("k1", "a")));
    assert_eq!(db.get("k1"), None);
    assert_eq!(db.get("k2"), Some(note("k2", "b")));
    assert_eq!(db.docs().len(), 1);
    assert_eq!(db.file_path(), "db.json");
    assert_eq!(db.del("k1"), Err(Error::NotFound("k1".to_string())));
}

#[test]
fn del_then_reopen_no_longer_holds_the_identity() {
    let (mut db, _) = DataBase::open("db.json", Some(docs_of(&[note("k1", "a"), note("k2", "b")])));
    db.del("k1").unwrap();
    // The caller writes the file from what is left, and opens it again.
    let file = Some(db.docs().clone());
    let (again, rewrite) = DataBase::open("db.json", file);
    assert!(!rewrite);
    assert!(!again.docs().contains_key("k1"));
    assert_eq!(again.get("k1"), None);
    assert_eq!(again.get("k2"), Some(note("k2", "b")));
}

#[test]
fn push_then_reopen_holds_the_record() {
    let (mut db, rewrite) = DataBase::open("db.json", None);
    assert!(rewrite);
    let mut file = Some(db.docs().clone());
    insert(&mut db, &mut file, note("k1", "a")).unwrap();

    let (again, rewrite) = DataBase::open("db.json", file);
    assert!(!rewrite);
    assert_eq!(again.get("k1"), Some(note("k1", "a")));
    assert_eq!(again.docs().len(), 1);
}

#[test]
fn whole_life_of_a_record() {
    // A fresh path: nothing to decode, so the file is written empty.
    let (mut db, rewrite) = DataBase::open("db.json", None);
    assert!(rewrite);
    let mut file = Some(db.docs().clone());
    assert_eq!(file.as_ref().unwrap().len(), 0);

    // A record without identity gets a UUID, and the file holds it under
    // that UUID.
    let key = insert(&mut db, &mut file, note("", "a")).unwrap();
    assert_eq!(key.len(), 36);
    let on_file = file.as_ref().unwrap();
    assert_eq!(on_file.len(), 1);
    assert_eq!(on_file.entries()[0].0, key);
    assert_eq!(on_file.entries()[0].1, note(&key, "a"));

    assert_eq!(db.get(&key), Some(note(&key, "a")));

    assert_eq!(db.del(&key), Ok(note(&key, "a")));
    let file = Some(db.docs().clone());
    assert!(file.unwrap().is_empty());
    assert_eq!(db.get(&key), None);
}

#[test]
fn clone_of_a_store_is_independent() {
    let (mut db, _) = DataBase::open("db.json", Some(docs_of(&[note("k1", "a")])));
    let copy = db.clone();
    db.del("k1").unwrap();
    assert_eq!(copy.file_path(), "db.json");
    assert_eq!(copy.get("k1"), Some(note("k1", "a")));
    assert_eq!(db.get("k1"), None);
}
