//! Permissions, and the check that comes before every operation.
use vstd::prelude::*;
use crate::errors::UserError;

verus! {

/// What a valid token allows.
#[derive(Clone, Copy, Debug, PartialEq, Eq, Structural)]
pub enum Permission {
    /// An ordinary principal.
    User,
    /// A principal that may list, create and delete ban records.
    Admin,
}

/// What the resolver found for the token of one request: `None` where
/// the token is missing, malformed or belongs to nobody.
pub type Resolution = Option<Permission>;

/// The error, if any, with which a request is turned down before the
/// store is touched.
pub open spec fn refusal(auth: Resolution, admin_required: bool) -> Option<UserError> {
    match auth {
        None => Some(UserError::Unauthorized),
        Some(Permission::User) => if admin_required {
            Some(UserError::Forbidden)
        } else {
            None
        },
        Some(Permission::Admin) => None,
    }
}

/// The permission of one request. It lives as long as the request.
#[derive(Clone, Copy, Debug, PartialEq, Eq, Structural)]
pub struct PermissionGuard {
    permission: Permission,
}

impl PermissionGuard {
    /// The permission this guard was made from.
    pub closed spec fn view(&self) -> Permission {
        self.permission
    }

    /// Admits a request whose token was resolved, and turns every other
    /// one down as `Unauthorized`.
    pub fn new(auth: Resolution) -> (r: Result<PermissionGuard, UserError>)
        ensures
            match auth {
                Some(p) => r is Ok && r->Ok_0@ == p,
                None => r == Err::<PermissionGuard, UserError>(UserError::Unauthorized),
            },
    {
        match auth {
            Some(permission) => Ok(PermissionGuard { permission }),
            None => Err(UserError::Unauthorized),
        }
    }

    /// Whether the principal is an administrator.
    pub fn admin(&self) -> (b: bool)
        ensures
            b == (self@ == Permission::Admin),
    {
        match self.permission {
            Permission::Admin => true,
            Permission::User => false,
        }
    }
}

} // verus!
