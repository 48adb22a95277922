use agreement_vault::agreement_store::AgreementStore;
use agreement_vault::agreement_types::AgreementStatus;
use agreement_vault::principal::Principal;
use sha2::Digest;

fn principal(id: &str) -> Principal {
    Principal { id: id.to_string() }
}

fn hex(bytes: &[u8]) -> String {
    bytes.iter().map(|b| format!("{:02x}", b)).collect()
}

fn expected_id(a: &str, b: &str, t: u64) -> String {
    hex(&sha2::Sha256::digest(format!("{}{}{}", a, b, t).as_bytes()))
}

#[test]
fn create_agreement_id_is_content_derived() {
    let mut store = AgreementStore::new();
    let id = store.create_agreement(
        "nda".to_string(),
        "Title".to_string(),
        "H".to_string(),
        vec![principal("bob")],
        principal("alice"),
        42,
    );
    assert_eq!(id, expected_id("alice", "Title", 42));
}

#[test]
fn create_agreement_is_deterministic() {
    let mut store1 = AgreementStore::new();
    let mut store2 = AgreementStore::new();
    let id1 = store1.create_agreement(
        "nda".to_string(),
        "Title".to_string(),
        "H1".to_string(),
        vec![principal("bob")],
        principal("alice"),
        7,
    );
    let id2 = store2.create_agreement(
        "lease".to_string(),
        "Title".to_string(),
        "H2".to_string(),
        vec![],
        principal("alice"),
        7,
    );
    // The id depends on the caller, the title and the timestamp alone.
    assert_eq!(id1, id2);
    let id3 = store2.create_agreement(
        "nda".to_string(),
        "Other".to_string(),
        "H1".to_string(),
        vec![principal("bob")],
        principal("alice"),
        7,
    );
    assert_ne!(id1, id3);
    let id4 = store2.create_agreement(
        "nda".to_string(),
        "Title".to_string(),
        "H1".to_string(),
        vec![principal("bob")],
        principal("alice"),
        8,
    );
    assert_ne!(id1, id4);
}

#[test]
fn create_agreement_initial_record() {
    let mut store = AgreementStore::new();
    let id = store.create_agreement(
        "nda".to_string(),
        "Title".to_string(),
        "H".to_string(),
        vec![principal("a"), principal("b")],
        principal("creator"),
        5,
    );
    let a = store.get_agreement(&id).expect("agreement must exist");
    assert_eq!(a.id, id);
    assert_eq!(a.template_type, "nda");
    assert_eq!(a.title, "Title");
    assert_eq!(a.content_hash, "H");
    assert_eq!(a.creator.id, "creator");
    assert_eq!(a.parties.len(), 2);
    assert_eq!(a.status, AgreementStatus::Draft);
    assert!(a.signatures.is_empty());
    assert_eq!(a.created_at, 5);
    assert_eq!(a.updated_at, 5);
}

#[test]
fn duplicate_party_indexed_once() {
    let mut store = AgreementStore::new();
    let id = store.create_agreement(
        "nda".to_string(),
        "Title".to_string(),
        "H".to_string(),
        vec![principal("bob"), principal("bob")],
        principal("alice"),
        1,
    );
    let ids = store.get_user_agreement_ids(&principal("bob"));
    assert_eq!(ids, vec![id]);
}

#[test]
fn add_user_agreement_index_is_idempotent() {
    let mut store = AgreementStore::new();
    store.add_user_agreement_index(principal("u"), "x".to_string());
    store.add_user_agreement_index(principal("u"), "x".to_string());
    store.add_user_agreement_index(principal("u"), "y".to_string());
    let ids = store.get_user_agreement_ids(&principal("u"));
    assert_eq!(ids, vec!["x".to_string(), "y".to_string()]);
}

#[test]
fn creator_and_parties_are_indexed() {
    let mut store = AgreementStore::new();
    let id = store.create_agreement(
        "nda".to_string(),
        "Title".to_string(),
        "H".to_string(),
        vec![principal("bob")],
        principal("alice"),
        1,
    );
    assert_eq!(store.get_user_agreement_ids(&principal("alice")), vec![id.clone()]);
    assert_eq!(store.get_user_agreement_ids(&principal("bob")), vec![id]);
    assert!(store.get_user_agreement_ids(&principal("carol")).is_empty());
}

#[test]
fn sign_agreement_twice_fails_and_changes_nothing() {
    let mut store = AgreementStore::new();
    let id = store.create_agreement(
        "nda".to_string(),
        "Title".to_string(),
        "H".to_string(),
        vec![principal("a"), principal("b")],
        principal("creator"),
        1,
    );
    assert!(store.sign_agreement(id.clone(), &principal("a"), 2));
    let before = store.get_agreement(&id).unwrap();
    assert!(!store.sign_agreement(id.clone(), &principal("a"), 3));
    let after = store.get_agreement(&id).unwrap();
    assert_eq!(before, after);
    assert_eq!(after.signatures.len(), 1);
}

#[test]
fn sign_agreement_rejects_non_party_and_missing_id() {
    let mut store = AgreementStore::new();
    let id = store.create_agreement(
        "nda".to_string(),
        "Title".to_string(),
        "H".to_string(),
        vec![principal("a")],
        principal("creator"),
        1,
    );
    assert!(!store.sign_agreement(id.clone(), &principal("stranger"), 2));
    assert!(!store.sign_agreement("missing".to_string(), &principal("a"), 2));
    let a = store.get_agreement(&id).unwrap();
    assert!(a.signatures.is_empty());
    assert_eq!(a.status, AgreementStatus::Draft);
}

#[test]
fn completion_transition_over_three_parties() {
    let mut store = AgreementStore::new();
    let id = store.create_agreement(
        "nda".to_string(),
        "Title".to_string(),
        "H".to_string(),
        vec![principal("a"), principal("b"), principal("c")],
        principal("creator"),
        1,
    );
    assert!(store.sign_agreement(id.clone(), &principal("a"), 2));
    assert_eq!(store.get_agreement(&id).unwrap().status, AgreementStatus::Pending);
    assert!(store.sign_agreement(id.clone(), &principal("b"), 3));
    assert_eq!(store.get_agreement(&id).unwrap().status, AgreementStatus::Pending);
    assert!(store.sign_agreement(id.clone(), &principal("c"), 4));
    let a = store.get_agreement(&id).unwrap();
    assert_eq!(a.status, AgreementStatus::Signed);
    assert_eq!(a.signatures.len(), 3);
    assert_eq!(a.updated_at, 4);
}

#[test]
fn signature_hash_is_digest_of_signer() {
    let mut store = AgreementStore::new();
    let id = store.create_agreement(
        "nda".to_string(),
        "Title".to_string(),
        "H".to_string(),
        vec![principal("a")],
        principal("creator"),
        1,
    );
    assert!(store.sign_agreement(id.clone(), &principal("a"), 2));
    let a = store.get_agreement(&id).unwrap();
    assert_eq!(a.signatures[0].signer.id, "a");
    assert_eq!(a.signatures[0].signed_at, 2);
    assert_eq!(a.signatures[0].signature_hash, hex(&sha2::Sha256::digest(b"a")));
}

#[test]
fn update_status_by_non_creator_fails_unchanged() {
    let mut store = AgreementStore::new();
    let id = store.create_agreement(
        "nda".to_string(),
        "Title".to_string(),
        "H".to_string(),
        vec![principal("a")],
        principal("creator"),
        1,
    );
    let before = store.get_agreement(&id).unwrap();
    assert!(!store.update_status(id.clone(), "Cancelled".to_string(), &principal("a"), 2));
    let after = store.get_agreement(&id).unwrap();
    assert_eq!(before, after);
}

#[test]
fn update_status_by_creator() {
    let mut store = AgreementStore::new();
    let id = store.create_agreement(
        "nda".to_string(),
        "Title".to_string(),
        "H".to_string(),
        vec![principal("a")],
        principal("creator"),
        1,
    );
    assert!(store.update_status(id.clone(), "Cancelled".to_string(), &principal("creator"), 9));
    let a = store.get_agreement(&id).unwrap();
    assert_eq!(a.status, AgreementStatus::Cancelled);
    assert_eq!(a.updated_at, 9);
    // An unrecognized status string degrades to Draft.
    assert!(store.update_status(id.clone(), "Bogus".to_string(), &principal("creator"), 10));
    assert_eq!(store.get_agreement(&id).unwrap().status, AgreementStatus::Draft);
    assert!(!store.update_status("missing".to_string(), "Draft".to_string(), &principal("creator"), 11));
}

#[test]
fn status_string_round_trip() {
    assert_eq!(AgreementStatus::from_string("Draft"), AgreementStatus::Draft);
    assert_eq!(AgreementStatus::from_string("Pending"), AgreementStatus::Pending);
    assert_eq!(AgreementStatus::from_string("Signed"), AgreementStatus::Signed);
    assert_eq!(AgreementStatus::from_string("Cancelled"), AgreementStatus::Cancelled);
    assert_eq!(AgreementStatus::from_string("anything else"), AgreementStatus::Draft);
    assert_eq!(AgreementStatus::Draft.to_string(), "Draft");
    assert_eq!(AgreementStatus::Pending.to_string(), "Pending");
    assert_eq!(AgreementStatus::Signed.to_string(), "Signed");
    assert_eq!(AgreementStatus::Cancelled.to_string(), "Cancelled");
}

#[test]
fn user_stats_counts_by_status() {
    let mut store = AgreementStore::new();
    let id1 = store.create_agreement(
        "nda".to_string(),
        "One".to_string(),
        "H".to_string(),
        vec![principal("u"), principal("x")],
        principal("creator"),
        1,
    );
    let _id2 = store.create_agreement(
        "nda".to_string(),
        "Two".to_string(),
        "H".to_string(),
        vec![principal("u")],
        principal("creator"),
        2,
    );
    let id3 = store.create_agreement(
        "nda".to_string(),
        "Three".to_string(),
        "H".to_string(),
        vec![principal("u")],
        principal("creator"),
        3,
    );
    // id1 becomes Pending (one of two parties), id3 becomes Signed.
    assert!(store.sign_agreement(id1, &principal("u"), 4));
    assert!(store.sign_agreement(id3, &principal("u"), 5));
    let stats = store.get_user_stats(&principal("u"));
    assert_eq!(stats.total_agreements, 3);
    assert_eq!(stats.pending_signatures, 1);
    assert_eq!(stats.signed_agreements, 1);
}

#[test]
fn get_user_agreements_skips_missing_ids() {
    let mut store = AgreementStore::new();
    store.add_user_agreement_index(principal("u"), "ghost-id".to_string());
    let id = store.create_agreement(
        "nda".to_string(),
        "Title".to_string(),
        "H".to_string(),
        vec![principal("u")],
        principal("creator"),
        1,
    );
    let found = store.get_user_agreements(&principal("u"));
    assert_eq!(found.len(), 1);
    assert_eq!(found[0].id, id);
}

#[test]
fn get_all_agreements_returns_every_record() {
    let mut store = AgreementStore::new();
    let id1 = store.create_agreement(
        "nda".to_string(),
        "One".to_string(),
        "H".to_string(),
        vec![],
        principal("creator"),
        1,
    );
    let id2 = store.create_agreement(
        "nda".to_string(),
        "Two".to_string(),
        "H".to_string(),
        vec![],
        principal("creator"),
        2,
    );
    let all = store.get_all_agreements();
    assert_eq!(all.len(), 2);
    assert_eq!(all[0].id, id1);
    assert_eq!(all[1].id, id2);
}
