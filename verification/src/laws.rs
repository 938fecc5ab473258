//! What holds of the operations whatever the store holds.
use vstd::prelude::*;
use crate::errors::UserError;
use crate::guards::{refusal, Permission, Resolution};
use crate::ident::user_id_of;
use crate::routes::{after_batch, delete_ban_model, get_ban_model, get_bans_model, post_bans_model};
use crate::store::{add_fails, lists, Ban};

verus! {

/// A listing holds every record of the store and no other: a user and a
/// reason stand together in the listing exactly when the store maps the
/// user to the reason.
pub proof fn listing_is_exact(records: Seq<Ban>, bans: Map<i32, Seq<char>>)
    requires
        lists(records, bans),
    ensures
        forall|id: i32, reason: Seq<char>|
            bans.contains_pair(id, reason) <==> exists|i: int|
                0 <= i < records.len() && #[trigger] records[i]@ == (id, reason),
{
    assert forall|id: i32, reason: Seq<char>|
        bans.contains_pair(id, reason) <==> exists|i: int|
            0 <= i < records.len() && #[trigger] records[i]@ == (id, reason) by {
        if bans.contains_pair(id, reason) {
            assert(bans.contains_key(id));
            let i = choose|i: int| 0 <= i < records.len() && #[trigger] records[i].id == id;
            assert(records[i]@ == (id, reason));
        }
        if exists|i: int| 0 <= i < records.len() && #[trigger] records[i]@ == (id, reason) {
            let i = choose|i: int| 0 <= i < records.len() && #[trigger] records[i]@ == (id, reason);
            assert(bans.contains_key(records[i].id));
        }
    }
}

/// A resolved token without the administrator capability is `Forbidden`
/// to list, to create and to delete, and the store stays as it was. To
/// read one record it is never `Forbidden`.
pub proof fn non_admin_is_forbidden(
    bans: Map<i32, Seq<char>>,
    limit: nat,
    batch: Seq<(i32, Seq<char>)>,
    text: Seq<char>,
)
    ensures
        get_bans_model(Some(Permission::User)) == Some(UserError::Forbidden),
        post_bans_model(Some(Permission::User), bans, limit, batch) == (
            Err::<(), UserError>(UserError::Forbidden),
            bans,
        ),
        delete_ban_model(Some(Permission::User), bans, text) == (
            Err::<(), UserError>(UserError::Forbidden),
            bans,
        ),
        get_ban_model(Some(Permission::User), bans, text) != Err::<(i32, Seq<char>), UserError>(
            UserError::Forbidden,
        ),
{
}

/// Without a resolved token every operation is `Unauthorized`, and the
/// store stays as it was.
pub proof fn unresolved_is_unauthorized(
    bans: Map<i32, Seq<char>>,
    limit: nat,
    batch: Seq<(i32, Seq<char>)>,
    text: Seq<char>,
)
    ensures
        get_bans_model(None) == Some(UserError::Unauthorized),
        post_bans_model(None, bans, limit, batch) == (
            Err::<(), UserError>(UserError::Unauthorized),
            bans,
        ),
        get_ban_model(None, bans, text) == Err::<(i32, Seq<char>), UserError>(
            UserError::Unauthorized,
        ),
        delete_ban_model(None, bans, text) == (
            Err::<(), UserError>(UserError::Unauthorized),
            bans,
        ),
{
}

/// A ban that an administrator creates is read back by any resolved
/// token, with the user and the exact reason, provided the store took it.
pub proof fn created_ban_is_read_back(
    reader: Permission,
    bans: Map<i32, Seq<char>>,
    limit: nat,
    id: i32,
    reason: Seq<char>,
    text: Seq<char>,
)
    requires
        user_id_of(text) == Some(id),
        !add_fails(bans, limit, id),
    ensures
        post_bans_model(Some(Permission::Admin), bans, limit, seq![(id, reason)]).0 == Ok::<
            (),
            UserError,
        >(()),
        get_ban_model(
            Some(reader),
            post_bans_model(Some(Permission::Admin), bans, limit, seq![(id, reason)]).1,
            text,
        ) == Ok::<(i32, Seq<char>), UserError>((id, reason)),
{
    let batch = seq![(id, reason)];
    let rest = batch.subrange(1, batch.len() as int);
    assert(rest.len() == 0);
    assert(after_batch(bans.insert(id, reason), limit, rest) == (bans.insert(id, reason), true));
    assert(after_batch(bans, limit, batch) == (bans.insert(id, reason), true));
}

/// Creating the same ban twice leaves the store as creating it once.
pub proof fn creating_twice_is_creating_once(
    bans: Map<i32, Seq<char>>,
    limit: nat,
    id: i32,
    reason: Seq<char>,
)
    requires
        !add_fails(bans, limit, id),
    ensures
        post_bans_model(
            Some(Permission::Admin),
            post_bans_model(Some(Permission::Admin), bans, limit, seq![(id, reason)]).1,
            limit,
            seq![(id, reason)],
        ) == post_bans_model(Some(Permission::Admin), bans, limit, seq![(id, reason)]),
{
    let batch = seq![(id, reason)];
    let rest = batch.subrange(1, batch.len() as int);
    let once = bans.insert(id, reason);
    assert(rest.len() == 0);
    assert(after_batch(once, limit, rest) == (once, true));
    assert(after_batch(bans, limit, batch) == (once, true));
    assert(once.insert(id, reason) =~= once);
    assert(after_batch(once, limit, batch) == (once, true));
}

/// Deleting the ban of a user that has none is `NotFound`, and the store
/// stays as it was.
pub proof fn deleting_absent_changes_nothing(bans: Map<i32, Seq<char>>, id: i32, text: Seq<char>)
    requires
        user_id_of(text) == Some(id),
        !bans.contains_key(id),
    ensures
        delete_ban_model(Some(Permission::Admin), bans, text) == (
            Err::<(), UserError>(UserError::NotFound),
            bans,
        ),
{
}

/// Once an administrator has deleted a ban, reading it is `NotFound`.
pub proof fn deleted_ban_is_gone(
    reader: Permission,
    bans: Map<i32, Seq<char>>,
    id: i32,
    text: Seq<char>,
)
    requires
        user_id_of(text) == Some(id),
        bans.contains_key(id),
    ensures
        delete_ban_model(Some(Permission::Admin), bans, text).0 == Ok::<(), UserError>(()),
        get_ban_model(
            Some(reader),
            delete_ban_model(Some(Permission::Admin), bans, text).1,
            text,
        ) == Err::<(i32, Seq<char>), UserError>(UserError::NotFound),
{
}

/// A path parameter that names no user is `BadRequest` to every token
/// that the permission check lets through.
pub proof fn malformed_id_is_bad_request(
    reader: Permission,
    bans: Map<i32, Seq<char>>,
    text: Seq<char>,
)
    requires
        user_id_of(text) is None,
    ensures
        get_ban_model(Some(reader), bans, text) == Err::<(i32, Seq<char>), UserError>(
            UserError::BadRequest,
        ),
        delete_ban_model(Some(Permission::Admin), bans, text) == (
            Err::<(), UserError>(UserError::BadRequest),
            bans,
        ),
{
}

/// A request is let through exactly when its token was resolved and,
/// where an administrator is asked for, it is one.
pub proof fn let_through(auth: Resolution, admin_required: bool)
    ensures
        refusal(auth, admin_required) is None <==> (auth == Some(Permission::Admin) || (auth == Some(
            Permission::User,
        ) && !admin_required)),
{
}

} // verus!
