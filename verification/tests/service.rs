use banlist::errors::{StoreError, UserError};
use banlist::guards::{Permission, PermissionGuard};
use banlist::routes::{delete_ban, get_ban, get_bans, post_bans, CreateBan};
use banlist::store::{Ban, BanStore};

fn entry(id: i32, reason: &str) -> CreateBan {
    CreateBan::new(id, reason.to_string())
}

fn ban(id: i32, reason: &str) -> Ban {
    Ban { id, reason: reason.to_string() }
}

fn sorted(mut bans: Vec<Ban>) -> Vec<Ban> {
    bans.sort_by_key(|b| b.id);
    bans
}

fn seeded() -> BanStore {
    let mut store = BanStore::new(16);
    assert_eq!(store.add_ban(3, "flood"), Ok(()));
    assert_eq!(store.add_ban(-8, "cheat"), Ok(()));
    assert_eq!(store.add_ban(11, ""), Ok(()));
    store
}

#[test]
fn status_codes_follow_the_categories() {
    assert_eq!(UserError::Unauthorized.status_code(), 401);
    assert_eq!(UserError::Forbidden.status_code(), 403);
    assert_eq!(UserError::BadRequest.status_code(), 400);
    assert_eq!(UserError::NotFound.status_code(), 404);
    assert_eq!(UserError::Internal.status_code(), 500);
}

#[test]
fn store_failure_is_internal() {
    assert_eq!(UserError::from_store(StoreError::Full), UserError::Internal);
}

#[test]
fn guard_admits_resolved_tokens_only() {
    assert_eq!(PermissionGuard::new(None), Err(UserError::Unauthorized));
    let user = PermissionGuard::new(Some(Permission::User)).unwrap();
    let admin = PermissionGuard::new(Some(Permission::Admin)).unwrap();
    assert!(!user.admin());
    assert!(admin.admin());
}

#[test]
fn admin_lists_every_record_and_no_other() {
    let store = seeded();
    let listed = get_bans(Some(Permission::Admin), &store).unwrap();
    assert_eq!(sorted(listed), vec![ban(-8, "cheat"), ban(3, "flood"), ban(11, "")]);
    let empty = BanStore::new(4);
    assert_eq!(get_bans(Some(Permission::Admin), &empty), Ok(vec![]));
}

#[test]
fn non_admin_is_forbidden_but_may_read_one() {
    let mut store = seeded();
    let user = Some(Permission::User);
    assert_eq!(get_bans(user, &store), Err(UserError::Forbidden));
    assert_eq!(post_bans(user, &mut store, &vec![entry(1, "x")]), Err(UserError::Forbidden));
    assert_eq!(delete_ban(user, &mut store, "3"), Err(UserError::Forbidden));
    assert_eq!(delete_ban(user, &mut store, "abc"), Err(UserError::Forbidden));
    assert_eq!(get_ban(user, &store, "3"), Ok(ban(3, "flood")));
    assert_eq!(get_ban(user, &store, "1"), Err(UserError::NotFound));
    assert_eq!(store.len(), 3);
    assert_eq!(store.get_ban(3), Some(ban(3, "flood")));
}

#[test]
fn unresolved_token_is_unauthorized_everywhere() {
    let mut store = seeded();
    assert_eq!(get_bans(None, &store), Err(UserError::Unauthorized));
    assert_eq!(post_bans(None, &mut store, &vec![entry(1, "x")]), Err(UserError::Unauthorized));
    assert_eq!(get_ban(None, &store, "3"), Err(UserError::Unauthorized));
    assert_eq!(get_ban(None, &store, "abc"), Err(UserError::Unauthorized));
    assert_eq!(delete_ban(None, &mut store, "3"), Err(UserError::Unauthorized));
    assert_eq!(
        sorted(store.get_bans()),
        vec![ban(-8, "cheat"), ban(3, "flood"), ban(11, "")]
    );
}

#[test]
fn created_ban_is_read_back() {
    let mut store = BanStore::new(8);
    let admin = Some(Permission::Admin);
    assert_eq!(post_bans(admin, &mut store, &vec![entry(42, "abuse of chat")]), Ok(()));
    assert_eq!(get_ban(admin, &store, "42"), Ok(ban(42, "abuse of chat")));
    assert_eq!(get_ban(Some(Permission::User), &store, "+42"), Ok(ban(42, "abuse of chat")));
}

#[test]
fn creating_again_replaces_the_reason() {
    let mut store = BanStore::new(8);
    let admin = Some(Permission::Admin);
    assert_eq!(post_bans(admin, &mut store, &vec![entry(42, "first")]), Ok(()));
    assert_eq!(post_bans(admin, &mut store, &vec![entry(42, "first")]), Ok(()));
    assert_eq!(store.get_bans(), vec![ban(42, "first")]);
    assert_eq!(post_bans(admin, &mut store, &vec![entry(42, "second")]), Ok(()));
    assert_eq!(store.get_bans(), vec![ban(42, "second")]);
    assert_eq!(store.len(), 1);
}

#[test]
fn deleting_absent_is_not_found_and_changes_nothing() {
    let mut store = seeded();
    let admin = Some(Permission::Admin);
    let before = get_bans(admin, &store).unwrap().len();
    assert_eq!(delete_ban(admin, &mut store, "99"), Err(UserError::NotFound));
    let after = get_bans(admin, &store).unwrap();
    assert_eq!(after.len(), before);
    assert_eq!(sorted(after), vec![ban(-8, "cheat"), ban(3, "flood"), ban(11, "")]);
}

#[test]
fn create_read_delete_read() {
    let mut store = BanStore::new(8);
    let admin = Some(Permission::Admin);
    assert_eq!(post_bans(admin, &mut store, &vec![entry(7, "spam")]), Ok(()));
    assert_eq!(get_ban(admin, &store, "7"), Ok(ban(7, "spam")));
    assert_eq!(delete_ban(admin, &mut store, "7"), Ok(()));
    let gone = get_ban(admin, &store, "7");
    assert_eq!(gone, Err(UserError::NotFound));
    assert_eq!(gone.unwrap_err().status_code(), 404);
    assert_eq!(store.len(), 0);
}

#[test]
fn non_integer_id_is_bad_request() {
    let mut store = seeded();
    let bad = get_ban(Some(Permission::Admin), &store, "abc");
    assert_eq!(bad, Err(UserError::BadRequest));
    assert_eq!(bad.unwrap_err().status_code(), 400);
    assert_eq!(get_ban(Some(Permission::User), &store, "abc"), Err(UserError::BadRequest));
    assert_eq!(delete_ban(Some(Permission::Admin), &mut store, "abc"), Err(UserError::BadRequest));
    assert_eq!(delete_ban(Some(Permission::Admin), &mut store, ""), Err(UserError::BadRequest));
    assert_eq!(store.len(), 3);
}

#[test]
fn batch_is_added_in_order() {
    let mut store = BanStore::new(8);
    let batch = vec![entry(1, "a"), entry(2, "b"), entry(1, "c")];
    assert_eq!(post_bans(Some(Permission::Admin), &mut store, &batch), Ok(()));
    assert_eq!(sorted(store.get_bans()), vec![ban(1, "c"), ban(2, "b")]);
    assert_eq!(post_bans(Some(Permission::Admin), &mut store, &vec![]), Ok(()));
    assert_eq!(store.len(), 2);
}

#[test]
fn full_store_ends_the_batch_as_internal() {
    let mut store = BanStore::new(2);
    let batch = vec![entry(1, "a"), entry(2, "b"), entry(3, "c"), entry(4, "d")];
    let r = post_bans(Some(Permission::Admin), &mut store, &batch);
    assert_eq!(r, Err(UserError::Internal));
    assert_eq!(r.unwrap_err().status_code(), 500);
    assert_eq!(sorted(store.get_bans()), vec![ban(1, "a"), ban(2, "b")]);
}

#[test]
fn full_store_still_takes_a_new_reason() {
    let mut store = BanStore::new(1);
    assert_eq!(store.add_ban(5, "old"), Ok(()));
    assert_eq!(store.add_ban(6, "other"), Err(StoreError::Full));
    assert_eq!(store.add_ban(5, "new"), Ok(()));
    assert_eq!(store.get_bans(), vec![ban(5, "new")]);
    let mut none = BanStore::new(0);
    assert_eq!(none.add_ban(1, "x"), Err(StoreError::Full));
    assert_eq!(none.len(), 0);
}

#[test]
fn store_deletes_only_the_named_record() {
    let mut store = seeded();
    store.delete_ban(3);
    assert_eq!(store.get_ban(3), None);
    assert_eq!(sorted(store.get_bans()), vec![ban(-8, "cheat"), ban(11, "")]);
    store.delete_ban(3);
    assert_eq!(store.len(), 2);
    assert_eq!(store.get_ban(-8), Some(ban(-8, "cheat")));
}

#[test]
fn create_ban_keeps_its_fields() {
    let c = entry(9, "why");
    assert_eq!(c.id(), 9);
    assert_eq!(c.reason(), "why");
    assert_eq!(ban(9, "why").duplicate(), ban(9, "why"));
}
