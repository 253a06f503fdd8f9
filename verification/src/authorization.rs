//! The per-platform authorization cache: it remembers each platform's
//! `AuthorizationState` and turns backend permission answers into state
//! updates.  The backend calls themselves — querying a notification center,
//! prompting the user — are made by the surrounding application, which
//! hands the answers in here.

use vstd::prelude::*;

use crate::platform::{
    plat_get, plat_lookup, plat_upsert, AuthorizationState, PermissionLevel, Platform,
};
use crate::time_wrapper::clock_now_millis;

verus! {

/// Equality of authorization states up to the identity of the permission
/// list's backing vector.
pub open spec fn auth_state_equiv(a: AuthorizationState, b: AuthorizationState) -> bool {
    match (a, b) {
        (
            AuthorizationState::Authorized { granted_at: g1, permissions: p1 },
            AuthorizationState::Authorized { granted_at: g2, permissions: p2 },
        ) => g1 == g2 && p1@ == p2@,
        _ => a == b && !(a is Authorized),
    }
}

impl AuthorizationState {
    /// An equivalent copy of the state.
    pub fn clone_state(&self) -> (r: AuthorizationState)
        ensures
            auth_state_equiv(r, *self),
    {
        match self {
            AuthorizationState::NotRequested => AuthorizationState::NotRequested,
            AuthorizationState::Requesting => AuthorizationState::Requesting,
            AuthorizationState::Pending => AuthorizationState::Pending,
            AuthorizationState::Authorized { granted_at, permissions } => {
                let mut copied: Vec<PermissionLevel> = Vec::new();
                let n: usize = permissions.len();
                let mut i: usize = 0;
                while i < n
                    invariant
                        n == permissions@.len(),
                        i <= n,
                        copied@ == permissions@.subrange(0, i as int),
                    decreases n - i,
                {
                    copied.push(permissions[i]);
                    i = i + 1;
                    proof {
                        assert(copied@ =~= permissions@.subrange(0, i as int));
                    }
                }
                proof {
                    assert(copied@ =~= permissions@);
                }
                AuthorizationState::Authorized { granted_at: *granted_at, permissions: copied }
            },
            AuthorizationState::Denied { denied_at, can_retry } => AuthorizationState::Denied {
                denied_at: *denied_at,
                can_retry: *can_retry,
            },
            AuthorizationState::Revoked { revoked_at, reason } => AuthorizationState::Revoked {
                revoked_at: *revoked_at,
                reason: reason.clone(),
            },
            AuthorizationState::Provisional { granted_at, expires_at } => {
                AuthorizationState::Provisional {
                    granted_at: *granted_at,
                    expires_at: *expires_at,
                }
            },
        }
    }
}

/// What a fresh authorization update guarantees: the returned state is
/// cached for the platform, no other platform's entry moves, and the state
/// itself follows the platform: pending on the web, granted-or-retryably-
/// denied on the desktops by the backend's answer, permanently denied
/// elsewhere.
pub open spec fn spec_fresh_update(
    before: DefaultAuthorizationManager,
    after: DefaultAuthorizationManager,
    platform: Platform,
    granted: Option<bool>,
    permissions: Vec<PermissionLevel>,
    r: AuthorizationState,
) -> bool {
    &&& (match plat_get(after.cache@, platform) {
        Some(stored) => auth_state_equiv(stored, r),
        None => false,
    })
    &&& (forall|p2: Platform|
        p2 != platform ==> plat_get(after.cache@, p2) == plat_get(before.cache@, p2))
    &&& (platform is Web ==> r is Pending)
    &&& ((platform is MacOS || platform is Windows || platform is Linux) ==> (match granted {
        Some(true) => r matches AuthorizationState::Authorized { permissions: got, .. } && got
            == permissions,
        _ => r matches AuthorizationState::Denied { can_retry: true, .. },
    }))
    &&& (!(platform is Web || platform is MacOS || platform is Windows || platform is Linux)
        ==> r matches AuthorizationState::Denied { can_retry: false, .. })
}

/// Caches authorization state per platform and coordinates grant requests.
#[derive(Debug, Clone)]
pub struct DefaultAuthorizationManager {
    /// The cached state per platform.
    pub cache: Vec<(Platform, AuthorizationState)>,
}

impl DefaultAuthorizationManager {
    /// An empty cache: nothing requested anywhere yet.
    pub fn new() -> (r: DefaultAuthorizationManager)
        ensures
            r.cache@.len() == 0,
    {
        DefaultAuthorizationManager { cache: Vec::new() }
    }

    /// The cached state for a platform, if any.
    pub fn get_authorization_state(&self, platform: Platform) -> (r: Option<&AuthorizationState>)
        ensures
            match r {
                Some(state) => plat_get(self.cache@, platform) == Some(*state),
                None => plat_get(self.cache@, platform) is None,
            },
    {
        plat_lookup(&self.cache, platform)
    }

    /// Fold a backend permission answer into the cache and return the new
    /// state.  A cached state that still reports authorized — a full
    /// authorization, or a provisional one not yet expired — is kept
    /// untouched: a granted permission is never re-requested.  Otherwise:
    /// a desktop platform's answer grants or retryably denies, the web
    /// platform stays pending (it has no in-process grant flow), and any
    /// other platform is denied permanently.  Whether a provisional state
    /// with an expiry is still authorized depends on the clock, so for it
    /// either outcome is stated.
    pub fn apply_authorization_check(
        &mut self,
        platform: Platform,
        granted: Option<bool>,
        permissions: Vec<PermissionLevel>,
    ) -> (r: AuthorizationState)
        ensures
            (match plat_get(old(self).cache@, platform) {
                Some(cached) => cached is Authorized || (
                cached matches AuthorizationState::Provisional { expires_at: None, .. }),
                None => false,
            }) ==> *final(self) == *old(self) && (match plat_get(old(self).cache@, platform) {
                Some(cached) => auth_state_equiv(r, cached),
                None => false,
            }),
            (match plat_get(old(self).cache@, platform) {
                Some(cached) => cached
                    matches AuthorizationState::Provisional { expires_at: Some(_), .. },
                None => false,
            }) ==> ((*final(self) == *old(self) && (match plat_get(
                old(self).cache@,
                platform,
            ) {
                Some(cached) => auth_state_equiv(r, cached),
                None => false,
            })) || spec_fresh_update(*old(self), *final(self), platform, granted, permissions, r)),
            !(match plat_get(old(self).cache@, platform) {
                Some(cached) => cached is Authorized || cached is Provisional,
                None => false,
            }) ==> spec_fresh_update(
                *old(self),
                *final(self),
                platform,
                granted,
                permissions,
                r,
            ),
    {
        let cached_copy: Option<AuthorizationState> = match plat_lookup(&self.cache, platform) {
            Some(cached) => Some(cached.clone_state()),
            None => None,
        };
        match cached_copy {
            Some(cached) => {
                if cached.is_authorized() {
                    return cached;
                }
            },
            None => {},
        }
        let now: u64 = clock_now_millis();
        let state: AuthorizationState = match platform {
            Platform::Web => AuthorizationState::Pending,
            Platform::MacOS | Platform::Windows | Platform::Linux => match granted {
                Some(true) => AuthorizationState::Authorized { granted_at: now, permissions },
                _ => AuthorizationState::Denied { denied_at: now, can_retry: true },
            },
            _ => AuthorizationState::Denied { denied_at: now, can_retry: false },
        };
        plat_upsert(&mut self.cache, platform, state.clone_state());
        state
    }

    /// Revoke a platform's authorization: the cache records a retryable
    /// denial.
    pub fn revoke_authorization(&mut self, platform: Platform)
        ensures
            plat_get(final(self).cache@, platform) matches Some(state) && (
            state matches AuthorizationState::Denied { can_retry: true, .. }),
            forall|p2: Platform|
                p2 != platform ==> plat_get(final(self).cache@, p2) == plat_get(
                    old(self).cache@,
                    p2,
                ),
    {
        let now: u64 = clock_now_millis();
        plat_upsert(
            &mut self.cache,
            platform,
            AuthorizationState::Denied { denied_at: now, can_retry: true },
        );
    }
}

impl Default for DefaultAuthorizationManager {
    /// An empty cache.
    fn default() -> (r: DefaultAuthorizationManager)
        ensures
            r.cache@.len() == 0,
    {
        DefaultAuthorizationManager::new()
    }
}

} // verus!
