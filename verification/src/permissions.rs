//! The authorization gate: per-user sets of permission tiers, persisted in
//! the record store, and the tiered checks that privileged commands and
//! interactions consult.  The hierarchy is Admin over Mod over Trusted,
//! with one hard-coded bypass identity (the author).
use vstd::prelude::*;

use crate::codec;
use crate::store::{sp_only_key_differs, store_tbl, DbError, Store};
use crate::text;

verus! {

/// The table that holds one record per user with any granted tier.
pub open spec fn perms_table() -> Seq<char> {
    "permissions"@
}

#[derive(Clone, Copy, Debug, PartialEq, Eq, Structural)]
pub enum Permission {
    Admin,
    Mod,
    Trusted,
}

/// The stored label of a tier.
pub open spec fn perm_label(p: Permission) -> Seq<char> {
    match p {
        Permission::Admin => "admin"@,
        Permission::Mod => "mod"@,
        Permission::Trusted => "trusted"@,
    }
}

/// The tier a stored label names.
pub open spec fn label_to_perm(l: Seq<char>) -> Option<Permission> {
    if l == "admin"@ {
        Some(Permission::Admin)
    } else if l == "mod"@ {
        Some(Permission::Mod)
    } else if l == "trusted"@ {
        Some(Permission::Trusted)
    } else {
        None
    }
}

impl Permission {
    pub fn as_str(&self) -> (r: &'static str)
        ensures
            r@ == perm_label(*self),
    {
        match self {
            Permission::Admin => "admin",
            Permission::Mod => "mod",
            Permission::Trusted => "trusted",
        }
    }

    /// Read a tier from user input, ignoring ASCII case.
    pub fn parse(s: &str) -> (r: Option<Permission>)
        ensures
            r == label_to_perm(text::lower_chars(s@)),
    {
        let low = text::to_ascii_lower(s);
        if text::str_eq_str(low.as_str(), "admin") {
            Some(Permission::Admin)
        } else if text::str_eq_str(low.as_str(), "mod") {
            Some(Permission::Mod)
        } else if text::str_eq_str(low.as_str(), "trusted") {
            Some(Permission::Trusted)
        } else {
            None
        }
    }
}

/// One user's granted tiers, as persisted.
pub struct UserPermissions {
    pub user_id: u64,
    pub permissions: Vec<Permission>,
}

pub ghost struct UserPermsV {
    pub user_id: u64,
    pub permissions: Seq<Permission>,
}

impl View for UserPermissions {
    type V = UserPermsV;

    open spec fn view(&self) -> UserPermsV {
        UserPermsV { user_id: self.user_id, permissions: self.permissions@ }
    }
}

// ---------------------------------------------------------------------------
// Wire form
// ---------------------------------------------------------------------------
/// The wire items of the permission list from index `k` on: quoted labels
/// separated by commas.
pub open spec fn enc_perm_items_from(ps: Seq<Permission>, k: int) -> Seq<char>
    decreases ps.len() - k,
{
    if k < 0 || k >= ps.len() {
        Seq::empty()
    } else if k == ps.len() - 1 {
        codec::enc_str(perm_label(ps[k]))
    } else {
        codec::enc_str(perm_label(ps[k])) + seq![','] + enc_perm_items_from(ps, k + 1)
    }
}

/// The stored form of one user's permission record.
pub open spec fn enc_user_perms(v: UserPermsV) -> Seq<char> {
    "{\"user_id\":"@ + codec::enc_u64(v.user_id as nat) + ",\"permissions\":["@
        + enc_perm_items_from(v.permissions, 0) + "]}"@
}

/// Parse quoted labels separated by commas, up to a closing bracket.
pub open spec fn sp_parse_perm_items(s: Seq<char>, i: int) -> Option<(Seq<Permission>, int)>
    decreases s.len() - i,
{
    match codec::sp_parse_str(s, i) {
        Some((lbl, j)) => match label_to_perm(lbl) {
            Some(p) => if i < j <= s.len() {
                match codec::sp_lit(s, j, ","@) {
                    Some(k) => match sp_parse_perm_items(s, k) {
                        Some((rest, e)) => Some((seq![p] + rest, e)),
                        None => None,
                    },
                    None => match codec::sp_lit(s, j, "]"@) {
                        Some(k) => Some((seq![p], k)),
                        None => None,
                    },
                }
            } else {
                None
            },
            None => None,
        },
        None => None,
    }
}

/// Parse the whole list body, empty or comma-separated, bracket included.
pub open spec fn sp_parse_perm_arr(s: Seq<char>, i: int) -> Option<(Seq<Permission>, int)> {
    match codec::sp_lit(s, i, "]"@) {
        Some(j) => Some((Seq::empty(), j)),
        None => sp_parse_perm_items(s, i),
    }
}

/// Decode one stored permission record.
pub open spec fn sp_dec_user_perms(s: Seq<char>) -> Option<UserPermsV> {
    match codec::sp_pfx_u64(s, 0, "{\"user_id\":"@) {
        Some((uid, j)) => match codec::sp_lit(s, j, ",\"permissions\":["@) {
            Some(k) => match sp_parse_perm_arr(s, k) {
                Some((ps, e)) => match codec::sp_lit(s, e, "}"@) {
                    Some(w) => if w == s.len() {
                        Some(UserPermsV { user_id: uid as u64, permissions: ps })
                    } else {
                        None
                    },
                    None => None,
                },
                None => None,
            },
            None => None,
        },
        None => None,
    }
}

/// Write the permission labels from index `k` on, comma-separated.
fn write_perm_items_from(out: &mut Vec<char>, ps: &Vec<Permission>, k: usize)
    requires
        k <= ps@.len(),
    ensures
        final (out)@ == old(out)@ + enc_perm_items_from(ps@, k as int),
    decreases ps@.len() - k,
{
    if k < ps.len() {
        codec::write_str_escaped(out, ps[k].as_str());
        if k + 1 < ps.len() {
            out.push(',');
            write_perm_items_from(out, ps, k + 1);
            assert(final (out)@ =~= old(out)@ + enc_perm_items_from(ps@, k as int));
        } else {
            assert(final (out)@ =~= old(out)@ + enc_perm_items_from(ps@, k as int));
        }
    }
}

/// Encode one user's permission record for the store.
pub fn encode_user_perms(u: &UserPermissions) -> (r: String)
    ensures
        r@ == enc_user_perms(u@),
{
    let mut out: Vec<char> = Vec::new();
    text::push_str_chars(&mut out, "{\"user_id\":");
    codec::write_u64(&mut out, u.user_id);
    text::push_str_chars(&mut out, ",\"permissions\":[");
    write_perm_items_from(&mut out, &u.permissions, 0);
    text::push_str_chars(&mut out, "]}");
    assert(out@ =~= enc_user_perms(u@));
    text::chars_to_string(&out)
}

/// Parse comma-separated permission labels, as [`sp_parse_perm_items`].
fn parse_perm_items(s: &Vec<char>, i: usize) -> (r: Option<(Vec<Permission>, usize)>)
    requires
        i <= s@.len(),
    ensures
        (r matches Some(p) ==> sp_parse_perm_items(s@, i as int) == Some((p.0@, p.1 as int))
            && i < p.1 <= s@.len()),
        r is None ==> sp_parse_perm_items(s@, i as int) is None,
    decreases s@.len() - i,
{
    match codec::parse_str(s, i) {
        Some((lbl, j)) => {
            let label = text::chars_to_string(&lbl);
            let p: Option<Permission> = if text::str_eq_str(label.as_str(), "admin") {
                Some(Permission::Admin)
            } else if text::str_eq_str(label.as_str(), "mod") {
                Some(Permission::Mod)
            } else if text::str_eq_str(label.as_str(), "trusted") {
                Some(Permission::Trusted)
            } else {
                None
            };
            proof {
                assert(p == label_to_perm(lbl@));
            }
            match p {
                Some(perm) => {
                    match codec::expect_lit(s, j, ",") {
                        Some(k) => match parse_perm_items(s, k) {
                            Some((mut rest, e)) => {
                                let ghost r0 = rest@;
                                rest.insert(0, perm);
                                assert(rest@ =~= seq![perm] + r0);
                                Some((rest, e))
                            },
                            None => None,
                        },
                        None => match codec::expect_lit(s, j, "]") {
                            Some(k) => {
                                let mut one: Vec<Permission> = Vec::new();
                                one.push(perm);
                                assert(one@ =~= seq![perm]);
                                Some((one, k))
                            },
                            None => None,
                        },
                    }
                },
                None => None,
            }
        },
        None => None,
    }
}

/// Decode one stored permission record, exactly as [`sp_dec_user_perms`].
pub fn decode_user_perms(s: &str) -> (r: Option<UserPermissions>)
    ensures
        (r matches Some(u) ==> sp_dec_user_perms(s@) == Some(u@)),
        r is None ==> sp_dec_user_perms(s@) is None,
{
    let v = text::str_to_chars(s);
    match codec::pfx_u64(&v, 0, "{\"user_id\":") {
        Some((uid, j)) => match codec::expect_lit(&v, j, ",\"permissions\":[") {
            Some(k) => {
                let arr: Option<(Vec<Permission>, usize)> = match codec::expect_lit(&v, k, "]") {
                    Some(j2) => Some((Vec::new(), j2)),
                    None => parse_perm_items(&v, k),
                };
                match arr {
                    Some((ps, e)) => match codec::expect_lit(&v, e, "}") {
                        Some(w) => {
                            if w == v.len() {
                                Some(UserPermissions { user_id: uid, permissions: ps })
                            } else {
                                None
                            }
                        },
                        None => None,
                    },
                    None => None,
                }
            },
            None => None,
        },
        None => None,
    }
}

// ---------------------------------------------------------------------------
// Checks against the store
// ---------------------------------------------------------------------------
/// Whether the stored record of `user_id` grants the tier `p`.
pub open spec fn sp_granted(t: Map<Seq<char>, Seq<char>>, user_id: u64, p: Permission) -> bool {
    let key = codec::enc_u64(user_id as nat);
    &&& t.contains_key(key)
    &&& sp_dec_user_perms(t[key]) matches Some(u) && u.permissions.contains(p)
}

/// The admin check: the author always passes, otherwise the Admin tier.
pub open spec fn sp_check_admin(
    t: Map<Seq<char>, Seq<char>>,
    user_id: u64,
    author_id: u64,
) -> bool {
    user_id == author_id || sp_granted(t, user_id, Permission::Admin)
}

/// The moderator check: Admin or Mod passes, and the author always does.
pub open spec fn sp_check_mod(t: Map<Seq<char>, Seq<char>>, user_id: u64, author_id: u64) -> bool {
    user_id == author_id || sp_granted(t, user_id, Permission::Admin) || sp_granted(
        t,
        user_id,
        Permission::Mod,
    )
}

/// The trusted check: any tier passes, and the author always does.
pub open spec fn sp_check_trusted(
    t: Map<Seq<char>, Seq<char>>,
    user_id: u64,
    author_id: u64,
) -> bool {
    user_id == author_id || sp_granted(t, user_id, Permission::Admin) || sp_granted(
        t,
        user_id,
        Permission::Mod,
    ) || sp_granted(t, user_id, Permission::Trusted)
}

/// A user granted a higher tier passes every lower check, and a user
/// granted only Trusted passes neither the admin nor the moderator check.
pub proof fn lemma_permission_hierarchy(
    t: Map<Seq<char>, Seq<char>>,
    user_id: u64,
    author_id: u64,
)
    requires
        user_id != author_id,
    ensures
        sp_granted(t, user_id, Permission::Admin) ==> sp_check_mod(t, user_id, author_id)
            && sp_check_trusted(t, user_id, author_id),
        sp_granted(t, user_id, Permission::Trusted) && !sp_granted(t, user_id, Permission::Admin)
            && !sp_granted(t, user_id, Permission::Mod) ==> !sp_check_admin(t, user_id, author_id)
            && !sp_check_mod(t, user_id, author_id) && sp_check_trusted(t, user_id, author_id),
{
}

/// Look up whether a user's stored record grants one tier exactly.
///
/// Returns `Serialization` when the record exists but cannot be decoded.
pub fn has_permission(store: &Store, user_id: u64, permission: Permission) -> (r: Result<
    bool,
    DbError,
>)
    ensures
        (r matches Ok(b) ==> b == sp_granted(store_tbl(*store, perms_table()), user_id, permission)
            && (store_tbl(*store, perms_table()).contains_key(codec::enc_u64(user_id as nat))
            ==> sp_dec_user_perms(
            store_tbl(*store, perms_table())[codec::enc_u64(user_id as nat)],
        ) is Some)),
        (r matches Err(e) && e is Serialization) ==> store_tbl(
            *store,
            perms_table(),
        ).contains_key(codec::enc_u64(user_id as nat)) && sp_dec_user_perms(
            store_tbl(*store, perms_table())[codec::enc_u64(user_id as nat)],
        ) is None,
{
    proof {
        reveal_strlit("permissions");
    }
    let key = codec::u64_to_string(user_id);
    match store.read_entry("permissions", key.as_str()) {
        Ok(Some(value)) => match decode_user_perms(value.as_str()) {
            Some(u) => {
                let mut found = false;
                let mut i: usize = 0;
                while i < u.permissions.len()
                    invariant
                        i <= u.permissions@.len(),
                        found ==> u.permissions@.contains(permission),
                        !found ==> forall|j: int|
                            0 <= j < i ==> u.permissions@[j] != permission,
                    decreases u.permissions@.len() - i,
                {
                    if u.permissions[i] == permission {
                        found = true;
                        assert(u.permissions@.contains(permission)) by {
                            assert(u.permissions@[i as int] == permission);
                        }
                    }
                    i = i + 1;
                }
                proof {
                    if !found && u.permissions@.contains(permission) {
                        let w = choose|w: int|
                            0 <= w < u.permissions@.len() && u.permissions@[w] == permission;
                        assert(u.permissions@[w] != permission);
                    }
                }
                Ok(found)
            },
            None => Err(DbError::Serialization(String::new())),
        },
        Ok(None) => Ok(false),
        Err(e) => Err(e),
    }
}

/// The admin gate for privileged commands.
pub fn check_admin(store: &Store, user_id: u64, author_id: u64) -> (r: Result<bool, DbError>)
    ensures
        (r matches Ok(b) ==> b == sp_check_admin(
            store_tbl(*store, perms_table()),
            user_id,
            author_id,
        )),
{
    if user_id == author_id {
        return Ok(true);
    }
    has_permission(store, user_id, Permission::Admin)
}

/// The moderator gate: an Admin passes it too.
pub fn check_mod(store: &Store, user_id: u64, author_id: u64) -> (r: Result<bool, DbError>)
    ensures
        (r matches Ok(b) ==> b == sp_check_mod(
            store_tbl(*store, perms_table()),
            user_id,
            author_id,
        )),
{
    if user_id == author_id {
        return Ok(true);
    }
    match has_permission(store, user_id, Permission::Admin) {
        Ok(true) => Ok(true),
        Ok(false) => has_permission(store, user_id, Permission::Mod),
        Err(e) => Err(e),
    }
}

/// The trusted gate: any granted tier passes it.
pub fn check_trusted(store: &Store, user_id: u64, author_id: u64) -> (r: Result<bool, DbError>)
    ensures
        (r matches Ok(b) ==> b == sp_check_trusted(
            store_tbl(*store, perms_table()),
            user_id,
            author_id,
        )),
{
    if user_id == author_id {
        return Ok(true);
    }
    match has_permission(store, user_id, Permission::Admin) {
        Ok(true) => Ok(true),
        Ok(false) => match has_permission(store, user_id, Permission::Mod) {
            Ok(true) => Ok(true),
            Ok(false) => has_permission(store, user_id, Permission::Trusted),
            Err(e) => Err(e),
        },
        Err(e) => Err(e),
    }
}

/// Grant a tier to a user: read the record, add the tier if it is not
/// already there, and write the record back.  Returns whether anything
/// was added.
pub fn grant_permission(store: &mut Store, user_id: u64, permission: Permission) -> (r: Result<
    bool,
    DbError,
>)
    ensures
        (r matches Ok(added) ==> {
            let t0 = store_tbl(*old(store), perms_table());
            let key = codec::enc_u64(user_id as nat);
            &&& (forall|n: Seq<char>|
                n != perms_table() ==> #[trigger] store_tbl(*final (store), n) == store_tbl(
                    *old(store),
                    n,
                ))
            &&& if !t0.contains_key(key) {
                added && store_tbl(*final (store), perms_table()) == t0.insert(
                    key,
                    enc_user_perms(
                        UserPermsV { user_id, permissions: seq![permission] },
                    ),
                )
            } else {
                sp_dec_user_perms(t0[key]) matches Some(u) && if u.permissions.contains(
                    permission,
                ) {
                    !added && store_tbl(*final (store), perms_table()) == t0
                } else {
                    added && store_tbl(*final (store), perms_table()) == t0.insert(
                        key,
                        enc_user_perms(
                            UserPermsV {
                                user_id: u.user_id,
                                permissions: u.permissions.push(permission),
                            },
                        ),
                    )
                }
            }
        }),
        r is Err ==> sp_only_key_differs(
            *old(store),
            *final (store),
            perms_table(),
            codec::enc_u64(user_id as nat),
        ),
{
    proof {
        reveal_strlit("permissions");
    }
    let key = codec::u64_to_string(user_id);
    let existing = match store.read_entry("permissions", key.as_str()) {
        Ok(v) => v,
        Err(e) => return Err(e),
    };
    match existing {
        None => {
            let mut perms: Vec<Permission> = Vec::new();
            perms.push(permission);
            let record = UserPermissions { user_id, permissions: perms };
            assert(record@.permissions =~= seq![permission]);
            let value = encode_user_perms(&record);
            match store.write_entry("permissions", key.as_str(), value.as_str()) {
                Ok(()) => Ok(true),
                Err(e) => Err(e),
            }
        },
        Some(value) => match decode_user_perms(value.as_str()) {
            Some(mut u) => {
                let mut present = false;
                let mut i: usize = 0;
                while i < u.permissions.len()
                    invariant
                        i <= u.permissions@.len(),
                        present ==> u.permissions@.contains(permission),
                        !present ==> forall|j: int|
                            0 <= j < i ==> u.permissions@[j] != permission,
                    decreases u.permissions@.len() - i,
                {
                    if u.permissions[i] == permission {
                        present = true;
                        assert(u.permissions@.contains(permission)) by {
                            assert(u.permissions@[i as int] == permission);
                        }
                    }
                    i = i + 1;
                }
                proof {
                    if !present && u.permissions@.contains(permission) {
                        let w = choose|w: int|
                            0 <= w < u.permissions@.len() && u.permissions@[w] == permission;
                        assert(u.permissions@[w] != permission);
                    }
                }
                if present {
                    Ok(false)
                } else {
                    u.permissions.push(permission);
                    let updated = encode_user_perms(&u);
                    match store.write_entry("permissions", key.as_str(), updated.as_str()) {
                        Ok(()) => Ok(true),
                        Err(e) => Err(e),
                    }
                }
            },
            None => Err(DbError::Serialization(String::new())),
        },
    }
}

/// Revoke a tier from a user: drop its first occurrence from the record,
/// deleting the record when nothing is left.  Returns whether anything
/// was removed.
pub fn revoke_permission(store: &mut Store, user_id: u64, permission: Permission) -> (r: Result<
    bool,
    DbError,
>)
    ensures
        (r matches Ok(removed) ==> {
            let t0 = store_tbl(*old(store), perms_table());
            let key = codec::enc_u64(user_id as nat);
            &&& (forall|n: Seq<char>|
                n != perms_table() ==> #[trigger] store_tbl(*final (store), n) == store_tbl(
                    *old(store),
                    n,
                ))
            &&& if !t0.contains_key(key) {
                !removed && store_tbl(*final (store), perms_table()) == t0
            } else {
                sp_dec_user_perms(t0[key]) matches Some(u) && if !u.permissions.contains(
                    permission,
                ) {
                    !removed && store_tbl(*final (store), perms_table()) == t0
                } else {
                    removed && exists|i: int|
                        0 <= i < u.permissions.len() && u.permissions[i] == permission && (forall|
                            j: int,
                        |
                            0 <= j < i ==> u.permissions[j] != permission) && store_tbl(
                            *final (store),
                            perms_table(),
                        ) == if u.permissions.len() == 1 {
                            t0.remove(key)
                        } else {
                            t0.insert(
                                key,
                                enc_user_perms(
                                    UserPermsV {
                                        user_id: u.user_id,
                                        permissions: u.permissions.remove(i),
                                    },
                                ),
                            )
                        }
                }
            }
        }),
        r is Err ==> sp_only_key_differs(
            *old(store),
            *final (store),
            perms_table(),
            codec::enc_u64(user_id as nat),
        ),
{
    proof {
        reveal_strlit("permissions");
    }
    let key = codec::u64_to_string(user_id);
    let existing = match store.read_entry("permissions", key.as_str()) {
        Ok(v) => v,
        Err(e) => return Err(e),
    };
    match existing {
        None => Ok(false),
        Some(value) => match decode_user_perms(value.as_str()) {
            Some(mut u) => {
                let mut pos: Option<usize> = None;
                let mut i: usize = 0;
                while i < u.permissions.len()
                    invariant
                        i <= u.permissions@.len(),
                        (pos matches Some(p) ==> 0 <= p < i && u.permissions@[p as int]
                            == permission && (forall|j: int|
                            0 <= j < p ==> u.permissions@[j] != permission)),
                        pos is None ==> forall|j: int|
                            0 <= j < i ==> u.permissions@[j] != permission,
                    decreases u.permissions@.len() - i,
                {
                    if pos.is_none() && u.permissions[i] == permission {
                        pos = Some(i);
                    }
                    i = i + 1;
                }
                match pos {
                    None => {
                        proof {
                            assert(!u.permissions@.contains(permission)) by {
                                if u.permissions@.contains(permission) {
                                    let w = choose|w: int|
                                        0 <= w < u.permissions@.len() && u.permissions@[w]
                                            == permission;
                                    assert(u.permissions@[w] != permission);
                                }
                            }
                        }
                        Ok(false)
                    },
                    Some(p) => {
                        if u.permissions.len() == 1 {
                            match store.delete_entry("permissions", key.as_str()) {
                                Ok(()) => Ok(true),
                                Err(e) => Err(e),
                            }
                        } else {
                            u.permissions.remove(p);
                            let updated = encode_user_perms(&u);
                            match store.write_entry("permissions", key.as_str(), updated.as_str())
                                {
                                Ok(()) => Ok(true),
                                Err(e) => Err(e),
                            }
                        }
                    },
                }
            },
            None => Err(DbError::Serialization(String::new())),
        },
    }
}

/// Whether some stored record of the table decodes to `u`.
pub open spec fn stored_perm_record(t: Map<Seq<char>, Seq<char>>, u: UserPermsV) -> bool {
    exists|k: Seq<char>| t.contains_key(k) && sp_dec_user_perms(#[trigger] t[k]) == Some(u)
}

/// Whether the listing carries this record.
pub open spec fn sp_perms_listed(vs: Seq<UserPermissions>, u: UserPermsV) -> bool {
    exists|i: int| 0 <= i < vs.len() && (#[trigger] vs[i])@ == u
}

/// List every stored permission record that decodes, as the management
/// surface shows them: each listed record is stored, and each stored
/// record that decodes is listed.  Records that do not decode are
/// skipped.
pub fn list_permissions(store: &Store) -> (r: Result<Vec<UserPermissions>, DbError>)
    ensures
        (r matches Ok(v) ==> {
            &&& forall|i: int|
                0 <= i < v@.len() ==> #[trigger] stored_perm_record(
                    store_tbl(*store, perms_table()),
                    v@[i]@,
                )
            &&& forall|k: Seq<char>|
                store_tbl(*store, perms_table()).contains_key(k) ==> match sp_dec_user_perms(
                    #[trigger] store_tbl(*store, perms_table())[k],
                ) {
                    Some(u) => sp_perms_listed(v@, u),
                    None => true,
                }
        }),
{
    proof {
        reveal_strlit("permissions");
    }
    let pairs = match store.read_table("permissions") {
        Ok(p) => p,
        Err(e) => return Err(e),
    };
    let ghost t = store_tbl(*store, perms_table());
    let mut out: Vec<UserPermissions> = Vec::new();
    let mut i: usize = 0;
    while i < pairs.len()
        invariant
            i <= pairs@.len(),
            t == store_tbl(*store, perms_table()),
            forall|k: int|
                0 <= k < pairs@.len() ==> t.contains_key(#[trigger] pairs@[k].0@)
                    && t[pairs@[k].0@] == pairs@[k].1@,
            forall|k: Seq<char>|
                t.contains_key(k) ==> exists|j: int|
                    0 <= j < pairs@.len() && #[trigger] pairs@[j].0@ == k,
            forall|k: int|
                0 <= k < out@.len() ==> #[trigger] stored_perm_record(t, out@[k]@),
            forall|j: int|
                0 <= j < i ==> match sp_dec_user_perms(t[(#[trigger] pairs@[j]).0@]) {
                    Some(u) => sp_perms_listed(out@, u),
                    None => true,
                },
        decreases pairs@.len() - i,
    {
        let ghost out0 = out@;
        match decode_user_perms(pairs[i].1.as_str()) {
            Some(u) => {
                let ghost uv = u@;
                out.push(u);
                proof {
                    let key = pairs@[i as int].0@;
                    assert(t.contains_key(key));
                    assert(sp_dec_user_perms(t[key]) == Some(uv));
                    assert(stored_perm_record(t, uv));
                    assert(out@[out0.len() as int]@ == uv);
                    assert(sp_perms_listed(out@, uv));
                    assert forall|k: int| 0 <= k < out@.len() implies #[trigger] stored_perm_record(
                        t,
                        out@[k]@,
                    ) by {
                        if k < out0.len() {
                            assert(out@[k] == out0[k]);
                        } else {
                            assert(out@[k]@ == uv);
                        }
                    }
                    assert forall|j: int| 0 <= j < i + 1 implies match sp_dec_user_perms(
                        t[(#[trigger] pairs@[j]).0@],
                    ) {
                        Some(u2) => sp_perms_listed(out@, u2),
                        None => true,
                    } by {
                        if j < i {
                            match sp_dec_user_perms(t[pairs@[j].0@]) {
                                Some(u2) => {
                                    assert(sp_perms_listed(out0, u2));
                                    let w = choose|w: int|
                                        0 <= w < out0.len() && (#[trigger] out0[w])@ == u2;
                                    assert(out@[w]@ == u2);
                                },
                                None => {},
                            }
                        }
                    }
                }
            },
            None => {
                proof {
                    assert(sp_dec_user_perms(t[pairs@[i as int].0@]) is None);
                }
            },
        }
        i = i + 1;
    }
    proof {
        assert forall|k: Seq<char>| t.contains_key(k) implies match sp_dec_user_perms(
            #[trigger] t[k],
        ) {
            Some(u) => sp_perms_listed(out@, u),
            None => true,
        } by {
            let j = choose|j: int| 0 <= j < pairs@.len() && #[trigger] pairs@[j].0@ == k;
            assert(t[pairs@[j].0@] == t[k]);
        }
    }
    Ok(out)
}


// ---------------------------------------------------------------------------
// Round trip
// ---------------------------------------------------------------------------
proof fn lemma_label_roundtrip(p: Permission)
    ensures
        label_to_perm(perm_label(p)) == Some(p),
{
    reveal_strlit("admin");
    reveal_strlit("mod");
    reveal_strlit("trusted");
    assert("admin"@.len() == 5 && "mod"@.len() == 3 && "trusted"@.len() == 7);
}

proof fn lemma_perm_items_roundtrip(s: Seq<char>, i: int, ps: Seq<Permission>, k: int)
    requires
        0 <= i,
        0 <= k < ps.len(),
        i + enc_perm_items_from(ps, k).len() + 1 <= s.len(),
        s.subrange(i, i + enc_perm_items_from(ps, k).len() + 1) == enc_perm_items_from(ps, k)
            + seq![']'],
    ensures
        sp_parse_perm_items(s, i) == Some(
            (ps.subrange(k, ps.len() as int), i + enc_perm_items_from(ps, k).len() + 1),
        ),
    decreases ps.len() - k,
{
    reveal_strlit(",");
    reveal_strlit("]");
    let p = ps[k];
    let ep = codec::enc_str(perm_label(p));
    lemma_label_roundtrip(p);
    if k == ps.len() - 1 {
        assert(enc_perm_items_from(ps, k) == ep);
        codec::lemma_subat_split(s, i, ep, seq![']']);
        codec::lemma_parse_enc_str(s, i, perm_label(p));
        let j = i + ep.len() as int;
        codec::lemma_subat_index(s, j, seq![']'], 0);
        assert(s[j] == ']');
        assert(codec::sp_lit(s, j, ","@) is None) by {
            if codec::sp_lit(s, j, ","@) is Some {
                assert(s.subrange(j, j + 1) == ","@);
                assert(s.subrange(j, j + 1)[0] == s[j]);
            }
        }
        assert(codec::sp_lit(s, j, "]"@) == Some(j + 1)) by {
            assert(s.subrange(j, j + 1) =~= "]"@);
        }
        assert(ps.subrange(k, ps.len() as int) =~= seq![p]);
    } else {
        let rest = enc_perm_items_from(ps, k + 1);
        assert(enc_perm_items_from(ps, k) == ep + seq![','] + rest);
        let tail = seq![','] + rest + seq![']'];
        assert(enc_perm_items_from(ps, k) + seq![']'] =~= ep + tail);
        codec::lemma_subat_split(s, i, ep, tail);
        codec::lemma_parse_enc_str(s, i, perm_label(p));
        let j = i + ep.len() as int;
        codec::lemma_subat_index(s, j, tail, 0);
        assert(s[j] == ',');
        assert(codec::sp_lit(s, j, ","@) == Some(j + 1)) by {
            assert(s.subrange(j, j + 1) =~= ","@);
        }
        let next = rest + seq![']'];
        assert(tail =~= ","@ + next);
        codec::lemma_subat_split(s, j, ","@, next);
        lemma_perm_items_roundtrip(s, j + 1, ps, k + 1);
        assert(seq![p] + ps.subrange(k + 1, ps.len() as int) =~= ps.subrange(
            k,
            ps.len() as int,
        ));
    }
}

/// Decoding an encoded permission record gives the record back: the
/// stored form of a grant loses no tier.
#[verifier::rlimit(100)]
pub proof fn lemma_user_perms_roundtrip(v: UserPermsV)
    ensures
        sp_dec_user_perms(enc_user_perms(v)) == Some(v),
{
    reveal_strlit(",\"permissions\":[");
    reveal_strlit("\"");
    reveal_strlit("]}");
    reveal_strlit("]");
    reveal_strlit("}");
    let s = enc_user_perms(v);
    let l1 = "{\"user_id\":"@;
    let n1 = codec::enc_u64(v.user_id as nat);
    let l2 = ",\"permissions\":["@;
    let items = enc_perm_items_from(v.permissions, 0);
    let z = "]}"@;
    assert(z.len() == 2 && z[0] == ']' && z[1] == '}');
    let c1 = l1 + n1;
    assert(s =~= c1 + (l2 + (items + z)));
    assert(s.subrange(0, s.len() as int) =~= s);
    codec::lemma_subat_split(s, 0, c1, l2 + (items + z));
    let p1 = c1.len() as int;
    codec::lemma_subat_index(s, p1, l2 + (items + z), 0);
    assert(s[p1] == ',');
    assert(!codec::is_digit(','));
    codec::lemma_pfx_u64(s, 0, l1, v.user_id as nat);
    codec::lemma_subat_split(s, p1, l2, items + z);
    assert(codec::sp_lit(s, p1, l2) == Some(p1 + l2.len() as int));
    let p2 = p1 + l2.len() as int;
    codec::lemma_subat_split(s, p2, items, z);
    if v.permissions.len() == 0 {
        assert(items =~= Seq::<char>::empty());
        assert(s.subrange(p2, p2 + 2) =~= z) by {
            assert(items + z =~= z);
        }
        codec::lemma_subat_index(s, p2, z, 0);
        codec::lemma_subat_index(s, p2, z, 1);
        assert(codec::sp_lit(s, p2, "]"@) == Some(p2 + 1)) by {
            assert(s.subrange(p2, p2 + 1) =~= "]"@);
        }
        assert(codec::sp_lit(s, p2 + 1, "}"@) == Some(p2 + 2)) by {
            assert(s.subrange(p2 + 1, p2 + 2) =~= "}"@);
        }
        assert(p2 + 2 == s.len());
        assert(v.permissions =~= Seq::<Permission>::empty());
    } else {
        let items_chunk = items + seq![']'];
        assert(items + z =~= items_chunk + "}"@);
        codec::lemma_subat_split(s, p2, items_chunk, "}"@);
        assert(codec::sp_lit(s, p2, "]"@) is None) by {
            if codec::sp_lit(s, p2, "]"@) is Some {
                assert(s.subrange(p2, p2 + 1) == "]"@);
                assert(s.subrange(p2, p2 + 1)[0] == s[p2]);
                assert(enc_perm_items_from(v.permissions, 0)[0] == codec::enc_str(
                    perm_label(v.permissions[0]),
                )[0]) by {
                    if v.permissions.len() > 1 {
                        assert(enc_perm_items_from(v.permissions, 0) == codec::enc_str(
                            perm_label(v.permissions[0]),
                        ) + seq![','] + enc_perm_items_from(v.permissions, 1));
                    }
                }
                assert(codec::enc_str(perm_label(v.permissions[0]))[0] == '"');
                codec::lemma_subat_index(s, p2, items, 0);
            }
        }
        lemma_perm_items_roundtrip(s, p2, v.permissions, 0);
        let p3 = p2 + items.len() as int + 1;
        assert(codec::sp_lit(s, p3, "}"@) == Some(p3 + 1));
        assert(p3 + 1 == s.len());
        assert(v.permissions.subrange(0, v.permissions.len() as int) =~= v.permissions);
    }
}

/// A grant is visible to the checks: after one user's record is written,
/// that user holds exactly the tiers the record lists, and every other
/// user's standing is untouched.
pub proof fn lemma_grant_then_check(
    t: Map<Seq<char>, Seq<char>>,
    v: UserPermsV,
    p: Permission,
    other: u64,
)
    ensures
        sp_granted(
            t.insert(codec::enc_u64(v.user_id as nat), enc_user_perms(v)),
            v.user_id,
            p,
        ) == v.permissions.contains(p),
        other != v.user_id ==> sp_granted(
            t.insert(codec::enc_u64(v.user_id as nat), enc_user_perms(v)),
            other,
            p,
        ) == sp_granted(t, other, p),
{
    lemma_user_perms_roundtrip(v);
    if other != v.user_id {
        codec::lemma_enc_u64_digits(v.user_id as nat);
        codec::lemma_enc_u64_digits(other as nat);
        if codec::enc_u64(other as nat) == codec::enc_u64(v.user_id as nat) {
            codec::lemma_enc_u64_val(other as nat);
            codec::lemma_enc_u64_val(v.user_id as nat);
        }
    }
}

} // verus!
