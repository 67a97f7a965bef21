//! The authorization gate against an in-memory store.
use keeper::permissions::{
    check_admin, check_mod, check_trusted, grant_permission, has_permission, list_permissions,
    revoke_permission, Permission,
};
use keeper::store::Store;

fn fresh_store_for_permission_tests() -> Store {
    let db = redb::Database::builder()
        .create_with_backend(redb::backends::InMemoryBackend::new())
        .unwrap();
    Store::new(db)
}

const OWNER: u64 = 999;

#[test]
fn admin_passes_mod_and_trusted_checks() {
    let mut store = fresh_store_for_permission_tests();
    assert!(grant_permission(&mut store, 1, Permission::Admin).unwrap());
    assert!(check_admin(&store, 1, OWNER).unwrap());
    assert!(check_mod(&store, 1, OWNER).unwrap());
    assert!(check_trusted(&store, 1, OWNER).unwrap());
}

#[test]
fn trusted_only_fails_admin_and_mod_checks() {
    let mut store = fresh_store_for_permission_tests();
    assert!(grant_permission(&mut store, 2, Permission::Trusted).unwrap());
    assert!(!check_admin(&store, 2, OWNER).unwrap());
    assert!(!check_mod(&store, 2, OWNER).unwrap());
    assert!(check_trusted(&store, 2, OWNER).unwrap());
}

#[test]
fn author_bypasses_every_check() {
    let store = fresh_store_for_permission_tests();
    assert!(check_admin(&store, OWNER, OWNER).unwrap());
    assert!(check_mod(&store, OWNER, OWNER).unwrap());
    assert!(check_trusted(&store, OWNER, OWNER).unwrap());
}

#[test]
fn nobody_passes_without_a_grant() {
    let store = fresh_store_for_permission_tests();
    assert!(!check_admin(&store, 5, OWNER).unwrap());
    assert!(!check_mod(&store, 5, OWNER).unwrap());
    assert!(!check_trusted(&store, 5, OWNER).unwrap());
}

#[test]
fn grant_is_idempotent_and_revoke_undoes_it() {
    let mut store = fresh_store_for_permission_tests();
    assert!(grant_permission(&mut store, 3, Permission::Mod).unwrap());
    assert!(!grant_permission(&mut store, 3, Permission::Mod).unwrap());
    assert!(has_permission(&store, 3, Permission::Mod).unwrap());
    assert!(revoke_permission(&mut store, 3, Permission::Mod).unwrap());
    assert!(!has_permission(&store, 3, Permission::Mod).unwrap());
    assert!(!revoke_permission(&mut store, 3, Permission::Mod).unwrap());
}

#[test]
fn revoke_keeps_other_tiers() {
    let mut store = fresh_store_for_permission_tests();
    grant_permission(&mut store, 4, Permission::Admin).unwrap();
    grant_permission(&mut store, 4, Permission::Trusted).unwrap();
    revoke_permission(&mut store, 4, Permission::Admin).unwrap();
    assert!(!has_permission(&store, 4, Permission::Admin).unwrap());
    assert!(has_permission(&store, 4, Permission::Trusted).unwrap());
}

#[test]
fn list_permissions_shows_grants() {
    let mut store = fresh_store_for_permission_tests();
    grant_permission(&mut store, 10, Permission::Admin).unwrap();
    grant_permission(&mut store, 11, Permission::Trusted).unwrap();
    let listed = list_permissions(&store).unwrap();
    assert_eq!(listed.len(), 2);
    let ids: Vec<u64> = listed.iter().map(|u| u.user_id).collect();
    assert!(ids.contains(&10) && ids.contains(&11));
}

#[test]
fn permission_labels_parse_case_insensitively() {
    assert_eq!(Permission::parse("Admin"), Some(Permission::Admin));
    assert_eq!(Permission::parse("MOD"), Some(Permission::Mod));
    assert_eq!(Permission::parse("trusted"), Some(Permission::Trusted));
    assert_eq!(Permission::parse("owner"), None);
    assert_eq!(Permission::Admin.as_str(), "admin");
    assert_eq!(Permission::Mod.as_str(), "mod");
    assert_eq!(Permission::Trusted.as_str(), "trusted");
}

#[test]
fn corrupt_permission_record_is_surfaced() {
    let mut store = fresh_store_for_permission_tests();
    store.write_entry("permissions", "6", "garbage").unwrap();
    assert!(has_permission(&store, 6, Permission::Admin).is_err());
}
