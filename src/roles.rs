//! Users, roles and the rules on a role's grant set: validation against the
//! catalog, and the additive synchronisation with the grants that the running
//! code expects.
use vstd::prelude::*;

use crate::access::{str_texts, texts};
use crate::permissions::{is_known_permission, permission_catalog, all_permissions};
use crate::text::{contains_text, same_text};

verus! {

/// A user account as listed to operators.
#[derive(Debug, Clone)]
pub struct User {
    pub id: String,
    pub username: String,
    pub display_name: String,
    pub role_id: String,
    pub role_name: String,
    pub created_at: String,
}

/// A role: a name for a grant set.
#[derive(Debug, Clone)]
pub struct Role {
    pub id: String,
    pub name: String,
}

/// The grants of one domain, by action.
#[derive(Debug, Clone)]
pub struct Permission {
    pub domain: String,
    pub actions: Vec<String>,
}

/// Position of the first `:` in a text, if any.
pub open spec fn first_colon(s: Seq<char>) -> Option<int> {
    if exists|k: int| 0 <= k < s.len() && s[k] == ':' {
        Some(choose|k: int| 0 <= k < s.len() && s[k] == ':' && forall|j: int| 0 <= j < k ==> s[j] != ':')
    } else {
        None
    }
}

/// The domain of a permission: what precedes its first `:`.
pub open spec fn domain_of(p: Seq<char>) -> Seq<char> {
    p.subrange(0, first_colon(p)->0)
}

/// The action of a permission: what follows its second `:`, or its first
/// when it has only one.
pub open spec fn action_of(p: Seq<char>) -> Seq<char> {
    let rest = p.subrange(first_colon(p)->0 + 1, p.len() as int);
    match first_colon(rest) {
        Some(k) => rest.subrange(k + 1, rest.len() as int),
        None => rest,
    }
}

/// Position of the first `:` in a text.
fn find_colon(s: &str) -> (r: Option<usize>)
    ensures
        r matches Some(k) ==> k < s@.len() && first_colon(s@) == Some(k as int),
        r is None ==> first_colon(s@) is None,
{
    let n = s.unicode_len();
    let mut i: usize = 0;
    while i < n
        invariant
            n == s@.len(),
            i <= n,
            forall|j: int| 0 <= j < i ==> s@[j] != ':',
        decreases n - i,
    {
        if s.get_char(i) == ':' {
            proof {
                let k = choose|k: int| 0 <= k < s@.len() && s@[k] == ':' && forall|j: int| 0 <= j < k ==> s@[j] != ':';
                if k < i {
                } else if k > i {
                    assert(s@[i as int] != ':');
                }
            }
            return Some(i);
        }
        i = i + 1;
    }
    None
}

/// The domain and action of a permission, when it holds a `:`.
pub fn split_permission(p: &str) -> (r: Option<(String, String)>)
    ensures
        r is Some <==> first_colon(p@) is Some,
        r matches Some(da) ==> da.0@ == domain_of(p@) && da.1@ == action_of(p@),
{
    let c = match find_colon(p) {
        Some(c) => c,
        None => return None,
    };
    let n = p.unicode_len();
    let domain = p.substring_char(0, c);
    let rest = p.substring_char(c + 1, n);
    let action = match find_colon(rest) {
        Some(c2) => rest.substring_char(c2 + 1, rest.unicode_len()),
        None => rest,
    };
    Some((String::from_str(domain), String::from_str(action)))
}

/// Position of the group of a domain.
fn domain_index(out: &Vec<Permission>, domain: &str) -> (r: Option<usize>)
    ensures
        r matches Some(k) ==> k < out@.len() && out@[k as int].domain@ == domain@,
        r is None ==> forall|m: int| 0 <= m < out@.len() ==> #[trigger] out@[m].domain@ != domain@,
{
    let mut k: usize = 0;
    while k < out.len()
        invariant
            k <= out@.len(),
            forall|m: int| 0 <= m < k ==> #[trigger] out@[m].domain@ != domain@,
        decreases out@.len() - k,
    {
        if same_text(out[k].domain.as_str(), domain) {
            return Some(k);
        }
        k = k + 1;
    }
    None
}

/// Whether the groups hold each domain once.
pub open spec fn domains_distinct(g: Seq<Permission>) -> bool {
    forall|a: int, b: int| 0 <= a < b < g.len() ==> #[trigger] g[a].domain@ != #[trigger] g[b].domain@
}

/// Whether some group of `domain` lists `action`.
pub open spec fn grouped(g: Seq<Permission>, domain: Seq<char>, action: Seq<char>) -> bool {
    exists|m: int| 0 <= m < g.len() && (#[trigger] g[m]).domain@ == domain && texts(g[m].actions@).contains(action)
}

/// Adds an action to the group of its domain, opening the group when new.
fn add_to_group(out: &mut Vec<Permission>, domain: String, action: String)
    requires
        domains_distinct(old(out)@),
    ensures
        domains_distinct(final(out)@),
        grouped(final(out)@, domain@, action@),
        forall|d: Seq<char>, x: Seq<char>| grouped(old(out)@, d, x) ==> #[trigger] grouped(final(out)@, d, x),
        forall|m: int| 0 <= m < final(out)@.len() ==> (exists|q: int| 0 <= q < old(out)@.len() && old(out)@[q].domain@ == (
            #[trigger] final(out)@[m]).domain@) || final(out)@[m].domain@ == domain@,
{
    let ghost before = out@;
    match domain_index(out, domain.as_str()) {
        Some(k) => {
            let mut actions = copy_list(&out[k].actions);
            let ghost acts = texts(actions@);
            let ghost av = action@;
            actions.push(action);
            let entry = Permission { domain, actions };
            proof {
                assert(texts(entry.actions@) =~= acts.push(av));
                assert(texts(entry.actions@)[acts.len() as int] == av);
            }
            out.set(k, entry);
            proof {
                assert forall|d: Seq<char>, x: Seq<char>| grouped(before, d, x) implies #[trigger] grouped(out@, d, x) by {
                    let m = choose|m: int| 0 <= m < before.len() && (#[trigger] before[m]).domain@ == d && texts(
                        before[m].actions@,
                    ).contains(x);
                    if m == k {
                        let q = choose|q: int| 0 <= q < acts.len() && acts[q] == x;
                        assert(texts(out@[m].actions@)[q] == x);
                    } else {
                        assert(out@[m] == before[m]);
                    }
                }
                assert(grouped(out@, out@[k as int].domain@, av));
                assert forall|a: int, b: int| 0 <= a < b < out@.len() implies #[trigger] out@[a].domain@
                    != #[trigger] out@[b].domain@ by {
                    assert(out@[a].domain@ == before[a].domain@);
                    assert(out@[b].domain@ == before[b].domain@);
                }
                assert forall|m: int| 0 <= m < out@.len() implies (exists|q: int| 0 <= q < before.len() && before[q].domain@ == (
                    #[trigger] out@[m]).domain@) || out@[m].domain@ == out@[k as int].domain@ by {
                    assert(out@[m].domain@ == before[m].domain@);
                }
            }
        },
        None => {
            let ghost av = action@;
            let mut actions: Vec<String> = Vec::new();
            actions.push(action);
            out.push(Permission { domain, actions });
            proof {
                assert(texts(out@[before.len() as int].actions@)[0] == av);
                assert(grouped(out@, out@[before.len() as int].domain@, av));
                assert forall|d: Seq<char>, x: Seq<char>| grouped(before, d, x) implies #[trigger] grouped(out@, d, x) by {
                    let m = choose|m: int| 0 <= m < before.len() && (#[trigger] before[m]).domain@ == d && texts(
                        before[m].actions@,
                    ).contains(x);
                    assert(out@[m] == before[m]);
                }
                assert forall|a: int, b: int| 0 <= a < b < out@.len() implies #[trigger] out@[a].domain@
                    != #[trigger] out@[b].domain@ by {
                    if b == before.len() {
                        assert(out@[a] == before[a]);
                    } else {
                        assert(out@[a] == before[a] && out@[b] == before[b]);
                    }
                }
                assert forall|m: int| 0 <= m < out@.len() implies (exists|q: int| 0 <= q < before.len() && before[q].domain@ == (
                    #[trigger] out@[m]).domain@) || out@[m].domain@ == out@[before.len() as int].domain@ by {
                    if m < before.len() {
                        assert(out@[m] == before[m]);
                    }
                }
            }
        },
    }
}

/// Whether one of the first `n` permissions has this domain.
pub open spec fn domain_given(perms: Seq<String>, d: Seq<char>, n: int) -> bool {
    exists|j: int| 0 <= j < n && first_colon(perms[j]@) is Some && domain_of(perms[j]@) == d
}

/// Groups permissions by domain, in order of first appearance, each action
/// under its domain; a permission without `:` is left out.
pub fn group_by_domain(perms: &Vec<String>) -> (r: Vec<Permission>)
    ensures
        domains_distinct(r@),
        forall|i: int|
            0 <= i < perms@.len() && first_colon(#[trigger] perms@[i]@) is Some ==> grouped(
                r@,
                domain_of(perms@[i]@),
                action_of(perms@[i]@),
            ),
        forall|k: int| 0 <= k < r@.len() ==> domain_given(perms@, (#[trigger] r@[k]).domain@, perms@.len() as int),
{
    let mut out: Vec<Permission> = Vec::new();
    let mut i: usize = 0;
    while i < perms.len()
        invariant
            0 <= i <= perms@.len(),
            domains_distinct(out@),
            forall|j: int|
                0 <= j < i && first_colon(#[trigger] perms@[j]@) is Some ==> grouped(
                    out@,
                    domain_of(perms@[j]@),
                    action_of(perms@[j]@),
                ),
            forall|k: int| 0 <= k < out@.len() ==> domain_given(perms@, (#[trigger] out@[k]).domain@, i as int),
        decreases perms@.len() - i,
    {
        let ghost before = out@;
        match split_permission(perms[i].as_str()) {
            None => {},
            Some((domain, action)) => {
                add_to_group(&mut out, domain, action);
                proof {
                    assert forall|j: int|
                        0 <= j < i + 1 && first_colon(#[trigger] perms@[j]@) is Some implies grouped(
                            out@,
                            domain_of(perms@[j]@),
                            action_of(perms@[j]@),
                        ) by {
                        if j < i {
                            assert(grouped(before, domain_of(perms@[j]@), action_of(perms@[j]@)));
                        }
                    }
                    assert forall|k: int| 0 <= k < out@.len() implies domain_given(
                        perms@,
                        (#[trigger] out@[k]).domain@,
                        i + 1,
                    ) by {
                        if exists|q: int| 0 <= q < before.len() && before[q].domain@ == out@[k].domain@ {
                            let q = choose|q: int| 0 <= q < before.len() && before[q].domain@ == out@[k].domain@;
                            assert(domain_given(perms@, before[q].domain@, i as int));
                            let j = choose|j: int|
                                0 <= j < i && first_colon(perms@[j]@) is Some && domain_of(perms@[j]@) == before[q].domain@;
                            assert(first_colon(perms@[j]@) is Some && domain_of(perms@[j]@) == out@[k].domain@);
                        } else {
                            assert(first_colon(perms@[i as int]@) is Some);
                            assert(domain_of(perms@[i as int]@) == out@[k].domain@);
                        }
                    }
                }
            },
        }
        i = i + 1;
    }
    out
}

fn copy_list(v: &Vec<String>) -> (r: Vec<String>)
    ensures
        r@ == v@,
{
    let mut out: Vec<String> = Vec::new();
    let mut i: usize = 0;
    while i < v.len()
        invariant
            i <= v@.len(),
            out@ == v@.subrange(0, i as int),
        decreases v@.len() - i,
    {
        out.push(v[i].clone());
        i = i + 1;
        assert(out@ =~= v@.subrange(0, i as int));
    }
    assert(v@.subrange(0, v@.len() as int) =~= v@);
    out
}

/// Whether `p` names a permission of the catalog.
pub fn is_known(p: &str) -> (r: bool)
    ensures
        r == is_known_permission(p@),
{
    let all = all_permissions();
    let mut i: usize = 0;
    while i < all.len()
        invariant
            all@ == permission_catalog(),
            i <= all@.len(),
            forall|k: int| 0 <= k < i ==> #[trigger] all@[k]@ != p@,
        decreases all@.len() - i,
    {
        if same_text(all[i], p) {
            return true;
        }
        i = i + 1;
    }
    false
}

/// Checks a grant set that is to replace a role's grants: every entry must be
/// a permission of the catalog. The error carries the first unknown entry.
pub fn validate_permission_set(perms: &Vec<String>) -> (r: Result<(), String>)
    ensures
        r is Ok <==> forall|k: int| 0 <= k < perms@.len() ==> is_known_permission(#[trigger] perms@[k]@),
        r is Err ==> exists|k: int|
            0 <= k < perms@.len() && !is_known_permission(#[trigger] perms@[k]@) && perms@[k]@ == r->Err_0@
                && forall|j: int| 0 <= j < k ==> is_known_permission(#[trigger] perms@[j]@),
{
    let mut i: usize = 0;
    while i < perms.len()
        invariant
            i <= perms@.len(),
            forall|k: int| 0 <= k < i ==> is_known_permission(#[trigger] perms@[k]@),
        decreases perms@.len() - i,
    {
        if !is_known(perms[i].as_str()) {
            return Err(perms[i].clone());
        }
        i = i + 1;
    }
    Ok(())
}

/// The grant set that replaces a role's grants wholesale: the given set,
/// when every entry is a permission of the catalog; else the first unknown
/// entry.
pub fn replace_role_grants(perms: &Vec<String>) -> (r: Result<Vec<String>, String>)
    ensures
        r is Ok <==> forall|k: int| 0 <= k < perms@.len() ==> is_known_permission(#[trigger] perms@[k]@),
        r matches Ok(g) ==> texts(g@) == texts(perms@),
        r matches Err(e) ==> exists|k: int|
            0 <= k < perms@.len() && !is_known_permission(#[trigger] perms@[k]@) && perms@[k]@ == e@
                && forall|j: int| 0 <= j < k ==> is_known_permission(#[trigger] perms@[j]@),
{
    match validate_permission_set(perms) {
        Ok(()) => {
            let g = copy_list(perms);
            Ok(g)
        },
        Err(e) => Err(e),
    }
}

/// The grants of `target` that `existing` lacks, each once, in the order of
/// `target`.
pub open spec fn missing_spec(existing: Seq<Seq<char>>, target: Seq<Seq<char>>) -> Seq<Seq<char>>
    decreases target.len(),
{
    if target.len() == 0 {
        Seq::empty()
    } else {
        let prev = missing_spec(existing, target.drop_last());
        let x = target.last();
        if existing.contains(x) || prev.contains(x) {
            prev
        } else {
            prev.push(x)
        }
    }
}

/// A grant set after synchronisation: the grants it held, then the missing
/// ones. Nothing is revoked.
pub open spec fn sync_spec(existing: Seq<Seq<char>>, target: Seq<Seq<char>>) -> Seq<Seq<char>> {
    existing + missing_spec(existing, target)
}

/// The grants of `target` that `existing` lacks, each once, in target order.
pub fn missing_grants(existing: &Vec<String>, target: &Vec<&str>) -> (r: Vec<String>)
    ensures
        texts(r@) == missing_spec(texts(existing@), str_texts(target@)),
{
    let ghost e = texts(existing@);
    let ghost t = str_texts(target@);
    let mut out: Vec<String> = Vec::new();
    let mut i: usize = 0;
    while i < target.len()
        invariant
            e == texts(existing@),
            t == str_texts(target@),
            i <= target@.len(),
            texts(out@) == missing_spec(e, t.take(i as int)),
        decreases target@.len() - i,
    {
        let x = target[i];
        let in_existing = contains_text(existing, x);
        let in_out = contains_text(&out, x);
        proof {
            assert(t.take(i as int + 1).drop_last() =~= t.take(i as int));
            assert(t.take(i as int + 1).last() == x@);
            if in_existing {
                let k = choose|k: int| 0 <= k < existing@.len() && #[trigger] existing@[k]@ == x@;
                assert(e[k] == x@);
            } else {
                assert forall|k: int| 0 <= k < e.len() implies e[k] != x@ by {
                    assert(existing@[k]@ != x@);
                }
            }
            let o = texts(out@);
            if in_out {
                let k = choose|k: int| 0 <= k < out@.len() && #[trigger] out@[k]@ == x@;
                assert(o[k] == x@);
            } else {
                assert forall|k: int| 0 <= k < o.len() implies o[k] != x@ by {
                    assert(out@[k]@ != x@);
                }
            }
        }
        if !in_existing && !in_out {
            let ghost before = out@;
            out.push(String::from_str(x));
            proof {
                assert(texts(out@) =~= texts(before).push(x@));
            }
        }
        i = i + 1;
    }
    assert(t.take(target@.len() as int) =~= t);
    out
}

/// Adds to a role's grant set the grants of `target` that it lacks, and
/// revokes nothing.
pub fn sync_grants(existing: &Vec<String>, target: &Vec<&str>) -> (r: Vec<String>)
    ensures
        texts(r@) == sync_spec(texts(existing@), str_texts(target@)),
{
    let missing = missing_grants(existing, target);
    let mut out: Vec<String> = Vec::new();
    let mut i: usize = 0;
    while i < existing.len()
        invariant
            i <= existing@.len(),
            out@.len() == i,
            forall|k: int| 0 <= k < i ==> #[trigger] out@[k]@ == existing@[k]@,
        decreases existing@.len() - i,
    {
        out.push(existing[i].clone());
        i = i + 1;
    }
    let mut j: usize = 0;
    while j < missing.len()
        invariant
            j <= missing@.len(),
            out@.len() == existing@.len() + j,
            forall|k: int| 0 <= k < existing@.len() ==> #[trigger] out@[k]@ == existing@[k]@,
            forall|k: int| 0 <= k < j ==> #[trigger] out@[existing@.len() + k]@ == missing@[k]@,
        decreases missing@.len() - j,
    {
        out.push(missing[j].clone());
        j = j + 1;
    }
    let ghost m = texts(missing@);
    assert forall|k: int| 0 <= k < out@.len() implies #[trigger] texts(out@)[k] == (texts(existing@) + m)[k] by {
        if k >= existing@.len() {
            assert(out@[existing@.len() + (k - existing@.len())]@ == missing@[k - existing@.len()]@);
        }
    }
    assert(texts(out@) =~= texts(existing@) + m);
    out
}

/// Every grant of `target` is held before synchronisation or added by it.
pub proof fn lemma_missing_covers(existing: Seq<Seq<char>>, target: Seq<Seq<char>>)
    ensures
        forall|x: Seq<char>| #[trigger] target.contains(x) ==> existing.contains(x) || missing_spec(existing, target).contains(x),
    decreases target.len(),
{
    if target.len() > 0 {
        let prev = missing_spec(existing, target.drop_last());
        lemma_missing_covers(existing, target.drop_last());
        assert forall|x: Seq<char>| #[trigger] target.contains(x) implies existing.contains(x)
            || missing_spec(existing, target).contains(x) by {
            let k = choose|k: int| 0 <= k < target.len() && target[k] == x;
            if k < target.len() - 1 {
                assert(target.drop_last()[k] == x);
                assert(target.drop_last().contains(x));
                if prev.contains(x) {
                    let j = choose|j: int| 0 <= j < prev.len() && prev[j] == x;
                    assert(missing_spec(existing, target)[j] == x);
                }
            } else if !existing.contains(x) && !prev.contains(x) {
                assert(missing_spec(existing, target) == prev.push(x));
                assert(missing_spec(existing, target)[prev.len() as int] == x);
            }
        }
    }
}

/// Nothing is missing from a grant set that already holds every target grant.
pub proof fn lemma_nothing_missing(existing: Seq<Seq<char>>, target: Seq<Seq<char>>)
    requires
        forall|x: Seq<char>| #[trigger] target.contains(x) ==> existing.contains(x),
    ensures
        missing_spec(existing, target) == Seq::<Seq<char>>::empty(),
    decreases target.len(),
{
    if target.len() > 0 {
        assert forall|x: Seq<char>| #[trigger] target.drop_last().contains(x) implies existing.contains(x) by {
            let k = choose|k: int| 0 <= k < target.drop_last().len() && target.drop_last()[k] == x;
            assert(target[k] == x);
            assert(target.contains(x));
        }
        lemma_nothing_missing(existing, target.drop_last());
        assert(target[target.len() - 1] == target.last());
        assert(target.contains(target.last()));
    }
}

/// Synchronising a grant set twice with the same target leaves it as
/// synchronising it once did.
pub proof fn lemma_sync_idempotent(existing: Seq<Seq<char>>, target: Seq<Seq<char>>)
    ensures
        sync_spec(sync_spec(existing, target), target) == sync_spec(existing, target),
{
    let once = sync_spec(existing, target);
    lemma_missing_covers(existing, target);
    assert forall|x: Seq<char>| #[trigger] target.contains(x) implies once.contains(x) by {
        if existing.contains(x) {
            let k = choose|k: int| 0 <= k < existing.len() && existing[k] == x;
            assert(once[k] == x);
        } else {
            let m = missing_spec(existing, target);
            let k = choose|k: int| 0 <= k < m.len() && m[k] == x;
            assert(once[existing.len() + k] == x);
        }
    }
    lemma_nothing_missing(once, target);
    assert(once + Seq::<Seq<char>>::empty() =~= once);
}

/// Synchronisation adds every grant of the target and keeps every grant held.
pub proof fn lemma_sync_complete(existing: Seq<Seq<char>>, target: Seq<Seq<char>>)
    ensures
        forall|x: Seq<char>| #[trigger] target.contains(x) ==> sync_spec(existing, target).contains(x),
        existing.is_prefix_of(sync_spec(existing, target)),
{
    let once = sync_spec(existing, target);
    lemma_missing_covers(existing, target);
    assert forall|x: Seq<char>| #[trigger] target.contains(x) implies once.contains(x) by {
        if existing.contains(x) {
            let k = choose|k: int| 0 <= k < existing.len() && existing[k] == x;
            assert(once[k] == x);
        } else {
            let m = missing_spec(existing, target);
            let k = choose|k: int| 0 <= k < m.len() && m[k] == x;
            assert(once[existing.len() + k] == x);
        }
    }
    assert(once.subrange(0, existing.len() as int) =~= existing);
}

} // verus!
