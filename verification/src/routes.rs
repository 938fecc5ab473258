//! The four operations on the ban list. Each one checks the permission
//! first, then reads its path parameter, and only then touches the store.
use vstd::prelude::*;
use crate::errors::UserError;
use crate::guards::{refusal, PermissionGuard, Resolution};
use crate::ident::{parse_user_id, user_id_of};
use crate::store::{add_fails, lists, Ban, BanStore};

verus! {

/// One entry of a request to create bans.
#[derive(Debug)]
pub struct CreateBan {
    id: i32,
    reason: String,
}

impl View for CreateBan {
    type V = (i32, Seq<char>);

    closed spec fn view(&self) -> (i32, Seq<char>) {
        (self.id, self.reason@)
    }
}

impl CreateBan {
    /// An entry that bans `id` for `reason`.
    pub fn new(id: i32, reason: String) -> (c: CreateBan)
        ensures
            c@ == (id, reason@),
    {
        CreateBan { id, reason }
    }

    /// The user to ban.
    pub fn id(&self) -> (id: i32)
        ensures
            id == self@.0,
    {
        self.id
    }

    /// Why the user is banned.
    pub fn reason(&self) -> (reason: &str)
        ensures
            reason@ == self@.1,
    {
        self.reason.as_str()
    }
}

/// The entries of a batch, each as user and reason.
pub open spec fn entries(batch: Seq<CreateBan>) -> Seq<(i32, Seq<char>)> {
    batch.map_values(|c: CreateBan| c@)
}

/// What adding a batch, entry by entry, makes of the records `bans` of a
/// store made for `limit` records, and whether every entry was taken.
/// The first entry that is turned down ends the batch; what was added
/// before it stays.
pub open spec fn after_batch(
    bans: Map<i32, Seq<char>>,
    limit: nat,
    batch: Seq<(i32, Seq<char>)>,
) -> (Map<i32, Seq<char>>, bool)
    decreases batch.len(),
{
    if batch.len() == 0 {
        (bans, true)
    } else if add_fails(bans, limit, batch[0].0) {
        (bans, false)
    } else {
        after_batch(
            bans.insert(batch[0].0, batch[0].1),
            limit,
            batch.subrange(1, batch.len() as int),
        )
    }
}

/// What listing answers where it fails.
pub open spec fn get_bans_model(auth: Resolution) -> Option<UserError> {
    refusal(auth, true)
}

/// What creating a batch answers, and the records afterwards.
pub open spec fn post_bans_model(
    auth: Resolution,
    bans: Map<i32, Seq<char>>,
    limit: nat,
    batch: Seq<(i32, Seq<char>)>,
) -> (Result<(), UserError>, Map<i32, Seq<char>>) {
    match refusal(auth, true) {
        Some(e) => (Err(e), bans),
        None => {
            let (after, complete) = after_batch(bans, limit, batch);
            if complete {
                (Ok(()), after)
            } else {
                (Err(UserError::Internal), after)
            }
        },
    }
}

/// What reading one record answers. No administrator is asked for.
pub open spec fn get_ban_model(
    auth: Resolution,
    bans: Map<i32, Seq<char>>,
    text: Seq<char>,
) -> Result<(i32, Seq<char>), UserError> {
    match refusal(auth, false) {
        Some(e) => Err(e),
        None => match user_id_of(text) {
            None => Err(UserError::BadRequest),
            Some(id) => if bans.contains_key(id) {
                Ok((id, bans[id]))
            } else {
                Err(UserError::NotFound)
            },
        },
    }
}

/// What deleting one record answers, and the records afterwards.
pub open spec fn delete_ban_model(
    auth: Resolution,
    bans: Map<i32, Seq<char>>,
    text: Seq<char>,
) -> (Result<(), UserError>, Map<i32, Seq<char>>) {
    match refusal(auth, true) {
        Some(e) => (Err(e), bans),
        None => match user_id_of(text) {
            None => (Err(UserError::BadRequest), bans),
            Some(id) => if bans.contains_key(id) {
                (Ok(()), bans.remove(id))
            } else {
                (Err(UserError::NotFound), bans)
            },
        },
    }
}

/// Lists every ban. Only an administrator may.
pub fn get_bans(auth: Resolution, store: &BanStore) -> (r: Result<Vec<Ban>, UserError>)
    requires
        store.wf(),
    ensures
        match r {
            Ok(records) => get_bans_model(auth) is None && lists(records@, store@)
                && records@.len() == store@.dom().len(),
            Err(e) => get_bans_model(auth) == Some(e),
        },
{
    let guard = match PermissionGuard::new(auth) {
        Ok(guard) => guard,
        Err(e) => { return Err(e); },
    };
    if guard.admin() {
        Ok(store.get_bans())
    } else {
        Err(UserError::Forbidden)
    }
}

/// Adds the entries of `data` to the store, in order. Only an
/// administrator may. The first entry that the store turns down ends the
/// request as `Internal`; the entries before it stay in the store.
pub fn post_bans(auth: Resolution, store: &mut BanStore, data: &Vec<CreateBan>) -> (r: Result<
    (),
    UserError,
>)
    requires
        old(store).wf(),
    ensures
        final(store).wf(),
        final(store).limit() == old(store).limit(),
        (r, final(store)@) == post_bans_model(
            auth,
            old(store)@,
            old(store).limit(),
            entries(data@),
        ),
{
    let guard = match PermissionGuard::new(auth) {
        Ok(guard) => guard,
        Err(e) => { return Err(e); },
    };
    if !guard.admin() {
        return Err(UserError::Forbidden);
    }
    let ghost batch = entries(data@);
    let ghost limit = store.limit();
    let ghost goal = after_batch(store@, limit, batch);
    let n: usize = data.len();
    let mut i: usize = 0;
    proof {
        assert(batch.subrange(0, n as int) =~= batch);
    }
    while i < n
        invariant
            i <= n,
            n == data@.len(),
            batch == entries(data@),
            store.wf(),
            store.limit() == limit,
            limit == old(store).limit(),
            refusal(auth, true) is None,
            goal == after_batch(old(store)@, limit, batch),
            after_batch(store@, limit, batch.subrange(i as int, n as int)) == goal,
        decreases n - i,
    {
        let entry = &data[i];
        proof {
            let rest = batch.subrange(i as int, n as int);
            assert(rest[0] == entry@);
            assert(rest.subrange(1, rest.len() as int) =~= batch.subrange(i + 1, n as int));
        }
        match store.add_ban(entry.id(), entry.reason()) {
            Ok(()) => {},
            Err(e) => {
                return Err(UserError::from_store(e));
            },
        }
        i = i + 1;
    }
    Ok(())
}

/// Reads the ban of the user that `id` names. Any resolved token may.
pub fn get_ban(auth: Resolution, store: &BanStore, id: &str) -> (r: Result<Ban, UserError>)
    requires
        store.wf(),
    ensures
        match r {
            Ok(ban) => get_ban_model(auth, store@, id@) == Ok::<
                (i32, Seq<char>),
                UserError,
            >(ban@),
            Err(e) => get_ban_model(auth, store@, id@) == Err::<
                (i32, Seq<char>),
                UserError,
            >(e),
        },
{
    let _guard = match PermissionGuard::new(auth) {
        Ok(guard) => guard,
        Err(e) => { return Err(e); },
    };
    let user_id: i32 = match parse_user_id(id) {
        Some(user_id) => user_id,
        None => { return Err(UserError::BadRequest); },
    };
    match store.get_ban(user_id) {
        Some(ban) => Ok(ban),
        None => Err(UserError::NotFound),
    }
}

/// Deletes the ban of the user that `id` names. Only an administrator
/// may. A user without a ban is `NotFound`, and the store stays as it was.
pub fn delete_ban(auth: Resolution, store: &mut BanStore, id: &str) -> (r: Result<(), UserError>)
    requires
        old(store).wf(),
    ensures
        final(store).wf(),
        final(store).limit() == old(store).limit(),
        (r, final(store)@) == delete_ban_model(auth, old(store)@, id@),
{
    let guard = match PermissionGuard::new(auth) {
        Ok(guard) => guard,
        Err(e) => { return Err(e); },
    };
    if !guard.admin() {
        return Err(UserError::Forbidden);
    }
    let user_id: i32 = match parse_user_id(id) {
        Some(user_id) => user_id,
        None => { return Err(UserError::BadRequest); },
    };
    match store.get_ban(user_id) {
        Some(_ban) => {
            store.delete_ban(user_id);
            Ok(())
        },
        None => Err(UserError::NotFound),
    }
}

} // verus!
