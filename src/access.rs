//! The caller's access context and the role grant rules: permission checks,
//! validation of grant sets against the catalog, and the additive
//! synchronisation of a role's grants with the catalog.
use vstd::prelude::*;

use crate::permissions::{all_permissions, permission_catalog};
use crate::text::{contains_text, same_text};

verus! {

/// The texts of a list of strings.
pub open spec fn texts(v: Seq<String>) -> Seq<Seq<char>> {
    v.map_values(|s: String| s@)
}

/// The texts of a list of string slices.
pub open spec fn str_texts(v: Seq<&str>) -> Seq<Seq<char>> {
    v.map_values(|s: &str| s@)
}

/// Why a caller was turned away.
#[derive(Debug, Clone, Copy, PartialEq, Eq, Structural)]
pub enum AccessError {
    /// Nobody is signed in.
    NoUser,
    /// The signed-in user has no grant set loaded.
    NoPermissionsAssigned,
    /// The grant set lacks the required permission.
    PermissionDenied,
    /// The operation is only offered in development mode.
    DevelopmentOnly,
}

/// Accepts a development-only operation when development mode is on.
pub fn require_dev_mode(dev_mode_allowed: bool) -> (r: Result<(), AccessError>)
    ensures
        r is Ok <==> dev_mode_allowed,
        r is Err ==> r == Err::<(), AccessError>(AccessError::DevelopmentOnly),
{
    if dev_mode_allowed {
        Ok(())
    } else {
        Err(AccessError::DevelopmentOnly)
    }
}

/// The signed-in user and the grant sets loaded for users of this session.
#[derive(Debug)]
pub struct AppState {
    pub current_user_id: Option<String>,
    pub user_permissions: Vec<(String, Vec<String>)>,
}

/// Index of the first grant set loaded for `user`, if any.
pub open spec fn first_entry_for(entries: Seq<(String, Vec<String>)>, user: Seq<char>, i: int) -> bool {
    0 <= i < entries.len() && entries[i].0@ == user && forall|k: int|
        0 <= k < i ==> #[trigger] entries[k].0@ != user
}

/// Whether some grant set is loaded for `user`.
pub open spec fn has_entry_for(entries: Seq<(String, Vec<String>)>, user: Seq<char>) -> bool {
    exists|i: int| 0 <= i < entries.len() && #[trigger] entries[i].0@ == user
}

/// The permissions granted to `user`: the first grant set loaded for it.
pub open spec fn grants_of(entries: Seq<(String, Vec<String>)>, user: Seq<char>) -> Seq<Seq<char>> {
    if has_entry_for(entries, user) {
        let i = choose|i: int| first_entry_for(entries, user, i);
        texts(entries[i].1@)
    } else {
        Seq::empty()
    }
}

impl AppState {
    /// Whether the signed-in user holds `p`.
    pub open spec fn allows(&self, p: Seq<char>) -> bool {
        match self.current_user_id {
            None => false,
            Some(u) => grants_of(self.user_permissions@, u@).contains(p),
        }
    }

    /// A session with nobody signed in and no grant set loaded: every
    /// permission check fails until someone signs in.
    pub fn new() -> (r: AppState)
        ensures
            r.current_user_id is None,
            r.user_permissions@.len() == 0,
            forall|p: Seq<char>| !#[trigger] r.allows(p),
    {
        AppState { current_user_id: None, user_permissions: Vec::new() }
    }

    /// Position of the first grant set loaded for `user`.
    fn entry_index(&self, user: &str) -> (r: Option<usize>)
        ensures
            match r {
                Some(i) => first_entry_for(self.user_permissions@, user@, i as int),
                None => !has_entry_for(self.user_permissions@, user@),
            },
    {
        let mut i: usize = 0;
        while i < self.user_permissions.len()
            invariant
                i <= self.user_permissions@.len(),
                forall|k: int| 0 <= k < i ==> #[trigger] self.user_permissions@[k].0@ != user@,
            decreases self.user_permissions@.len() - i,
        {
            if same_text(self.user_permissions[i].0.as_str(), user) {
                return Some(i);
            }
            i = i + 1;
        }
        None
    }

    /// Accepts the call only when the signed-in user holds `permission`.
    pub fn check_permission(&self, permission: &str) -> (r: Result<(), AccessError>)
        ensures
            r is Ok <==> self.allows(permission@),
            self.current_user_id is None ==> r == Err::<(), AccessError>(AccessError::NoUser),
            (self.current_user_id is Some && !has_entry_for(
                self.user_permissions@,
                self.current_user_id->0@,
            )) ==> r == Err::<(), AccessError>(AccessError::NoPermissionsAssigned),
            (self.current_user_id is Some && has_entry_for(
                self.user_permissions@,
                self.current_user_id->0@,
            ) && !self.allows(permission@)) ==> r == Err::<(), AccessError>(
                AccessError::PermissionDenied,
            ),
    {
        match &self.current_user_id {
            None => Err(AccessError::NoUser),
            Some(u) => {
                match self.entry_index(u.as_str()) {
                    None => Err(AccessError::NoPermissionsAssigned),
                    Some(i) => {
                        let ghost entries = self.user_permissions@;
                        proof {
                            assert(has_entry_for(entries, u@));
                            let j = choose|j: int| first_entry_for(entries, u@, j);
                            lemma_first_entry_unique(entries, u@, i as int, j);
                        }
                        let found = contains_text(&self.user_permissions[i].1, permission);
                        proof {
                            let g = texts(entries[i as int].1@);
                            if found {
                                let k = choose|k: int|
                                    0 <= k < entries[i as int].1@.len()
                                        && #[trigger] entries[i as int].1@[k]@ == permission@;
                                assert(g[k] == permission@);
                            } else {
                                assert forall|k: int| 0 <= k < g.len() implies g[k] != permission@ by {
                                    assert(entries[i as int].1@[k]@ != permission@);
                                }
                            }
                        }
                        if found {
                            Ok(())
                        } else {
                            Err(AccessError::PermissionDenied)
                        }
                    }
                }
            }
        }
    }

    /// The permissions of the signed-in user; empty when nobody is signed in.
    pub fn current_user_permissions(&self) -> (r: Vec<String>)
        ensures
            self.current_user_id is None ==> r@.len() == 0,
            self.current_user_id is Some ==> texts(r@) == grants_of(
                self.user_permissions@,
                self.current_user_id->0@,
            ),
    {
        match &self.current_user_id {
            None => Vec::new(),
            Some(u) => {
                match self.entry_index(u.as_str()) {
                    None => Vec::new(),
                    Some(i) => {
                        let ghost entries = self.user_permissions@;
                        proof {
                            let j = choose|j: int| first_entry_for(entries, u@, j);
                            lemma_first_entry_unique(entries, u@, i as int, j);
                        }
                        copy_strings(&self.user_permissions[i].1)
                    }
                }
            }
        }
    }

    /// Signs a user in, or out with `None`.
    pub fn set_current_user(&mut self, user_id: Option<String>)
        ensures
            final(self).current_user_id == user_id,
            final(self).user_permissions == old(self).user_permissions,
    {
        self.current_user_id = user_id;
    }

    /// The signed-in user.
    pub fn get_current_user_id(&self) -> (r: Option<String>)
        ensures
            r is Some <==> self.current_user_id is Some,
            r is Some ==> r->0@ == self.current_user_id->0@,
    {
        match &self.current_user_id {
            None => None,
            Some(u) => Some(u.clone()),
        }
    }

    /// Loads `perms` as the grant set of the signed-in user, replacing the one
    /// loaded before; nothing changes when nobody is signed in.
    pub fn set_current_user_permissions(&mut self, perms: Vec<String>)
        ensures
            final(self).current_user_id == old(self).current_user_id,
            old(self).current_user_id is None ==> final(self).user_permissions == old(
                self,
            ).user_permissions,
            old(self).current_user_id is Some ==> grants_of(
                final(self).user_permissions@,
                old(self).current_user_id->0@,
            ) == texts(perms@),
    {
        match &self.current_user_id {
            None => {},
            Some(u) => {
                let ghost uv = u@;
                let idx = self.entry_index(u.as_str());
                match idx {
                    Some(i) => {
                        let name = self.user_permissions[i].0.clone();
                        self.user_permissions.set(i, (name, perms));
                        proof {
                            let e = self.user_permissions@;
                            assert(first_entry_for(e, uv, i as int));
                            let j = choose|j: int| first_entry_for(e, uv, j);
                            lemma_first_entry_unique(e, uv, i as int, j);
                        }
                    },
                    None => {
                        let name = u.clone();
                        let ghost before = self.user_permissions@;
                        self.user_permissions.push((name, perms));
                        proof {
                            let e = self.user_permissions@;
                            let i = before.len() as int;
                            assert forall|k: int| 0 <= k < i implies #[trigger] e[k].0@ != uv by {
                                assert(e[k] == before[k]);
                            }
                            assert(first_entry_for(e, uv, i));
                            let j = choose|j: int| first_entry_for(e, uv, j);
                            lemma_first_entry_unique(e, uv, i, j);
                        }
                    },
                }
            },
        }
    }
}

proof fn lemma_first_entry_unique(entries: Seq<(String, Vec<String>)>, user: Seq<char>, i: int, j: int)
    requires
        first_entry_for(entries, user, i),
        first_entry_for(entries, user, j),
    ensures
        i == j,
{
    if i < j {
        assert(entries[i].0@ != user);
    } else if j < i {
        assert(entries[j].0@ != user);
    }
}

/// Owned copies of a list of strings.
fn copy_strings(v: &Vec<String>) -> (r: Vec<String>)
    ensures
        texts(r@) == texts(v@),
{
    let mut out: Vec<String> = Vec::new();
    let mut i: usize = 0;
    while i < v.len()
        invariant
            i <= v@.len(),
            out@.len() == i,
            forall|k: int| 0 <= k < i ==> #[trigger] out@[k]@ == v@[k]@,
        decreases v@.len() - i,
    {
        out.push(v[i].clone());
        i = i + 1;
    }
    assert(texts(out@) =~= texts(v@));
    out
}

/// The catalog as owned strings.
pub fn catalog_strings() -> (r: Vec<String>)
    ensures
        texts(r@) == str_texts(permission_catalog()),
{
    let all = all_permissions();
    let mut out: Vec<String> = Vec::new();
    let mut i: usize = 0;
    while i < all.len()
        invariant
            all@ == permission_catalog(),
            i <= all@.len(),
            out@.len() == i,
            forall|k: int| 0 <= k < i ==> #[trigger] out@[k]@ == all@[k]@,
        decreases all@.len() - i,
    {
        out.push(String::from_str(all[i]));
        i = i + 1;
    }
    assert(texts(out@) =~= str_texts(permission_catalog()));
    out
}

} // verus!
