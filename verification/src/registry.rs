//! The registry of remote endpoints as a mathematical value: a list of
//! endpoints with distinct identifiers, what each operation makes of it,
//! and what holds of it at all times.

use crate::commands::ssh::{Endpoint, HostEntry};
use crate::number::{signed_decimal, signed_decimal_is_one_to_one};
use crate::order::{precedes, ranking, ranking_is_ranked, SortKey};
use crate::scan::{first_is_position, position, position_is_first};
use vstd::prelude::*;

verus! {

/// The identifier of each endpoint of a list.
pub open spec fn ids(eps: Seq<Endpoint>) -> Seq<Seq<char>> {
    eps.map_values(|e: Endpoint| e.id)
}

/// The index of the first endpoint with the identifier `id`; the length of
/// the list where there is none.
pub open spec fn slot(eps: Seq<Endpoint>, id: Seq<char>) -> int {
    position(ids(eps), id)
}

/// Whether an endpoint of the list has the identifier `id`.
pub open spec fn known(eps: Seq<Endpoint>, id: Seq<char>) -> bool {
    slot(eps, id) < eps.len()
}

/// The list with `e` in the place of the endpoint that has its identifier,
/// or at the end where there is none.
pub open spec fn upsert(eps: Seq<Endpoint>, e: Endpoint) -> Seq<Endpoint> {
    if known(eps, e.id) {
        eps.update(slot(eps, e.id), e)
    } else {
        eps.push(e)
    }
}

/// Whether no two endpoints of the list share an identifier.
pub open spec fn distinct_ids(eps: Seq<Endpoint>) -> bool {
    forall|i: int, j: int| 0 <= i < j < eps.len() ==> eps[i].id != eps[j].id
}

/// Whether the identifier of `e` fits its source: `config-` begins the
/// identifier of an endpoint read from the configuration, `manual-` that of
/// one that the user added, and there is no third source.
pub open spec fn proper(e: Endpoint) -> bool {
    ||| e.source == "config"@ && "config-"@.is_prefix_of(e.id)
    ||| e.source == "manual"@ && "manual-"@.is_prefix_of(e.id)
}

/// What holds of the endpoints of a registry at all times.
pub open spec fn valid_registry(eps: Seq<Endpoint>) -> bool {
    &&& distinct_ids(eps)
    &&& forall|i: int| 0 <= i < eps.len() ==> proper(#[trigger] eps[i])
}

/// Putting a proper endpoint into a valid registry leaves it valid.
pub proof fn upsert_keeps_valid(eps: Seq<Endpoint>, e: Endpoint)
    requires
        valid_registry(eps),
        proper(e),
    ensures
        valid_registry(upsert(eps, e)),
{
    position_is_first(ids(eps), e.id);
    let k = slot(eps, e.id);
    let next = upsert(eps, e);
    assert forall|i: int, j: int| 0 <= i < j < next.len() implies next[i].id != next[j].id by {
        if k < eps.len() {
            assert(ids(eps)[k] == e.id);
            assert(next[i].id == eps[i].id && next[j].id == eps[j].id);
        } else {
            if j < eps.len() {
            } else {
                assert(ids(eps)[i] != e.id);
            }
        }
    }
}

/// The endpoint that stands for the host block `h` of the configuration.
pub open spec fn imported_endpoint(h: HostEntry) -> Endpoint {
    Endpoint {
        id: "config-"@ + h.name,
        name: h.name,
        host: h.host,
        port: h.port,
        username: h.username,
        auth_type: "auto"@,
        private_key_path: h.identity_file,
        password: None,
        source: "config"@,
    }
}

/// The endpoints that stand for the host blocks `hosts`: of two blocks with
/// one name the later takes the place of the earlier.
pub open spec fn imported(hosts: Seq<HostEntry>) -> Seq<Endpoint>
    decreases hosts.len(),
{
    if hosts.len() == 0 {
        Seq::empty()
    } else {
        upsert(imported(hosts.drop_last()), imported_endpoint(hosts.last()))
    }
}

/// `e` as it is shown: a password is replaced by eight bullets.
pub open spec fn masked(e: Endpoint) -> Endpoint {
    Endpoint {
        password: match e.password {
            Some(_) => Some("••••••••"@),
            None => None,
        },
        ..e
    }
}

/// What an endpoint is ordered by in a listing: those read from the
/// configuration first, and then the name.
pub open spec fn sort_key(e: Endpoint) -> SortKey {
    SortKey { late: e.source != "config"@, name: e.name }
}

/// The endpoints as they are listed: masked, those read from the
/// configuration before the others, and by name inside each group.
pub open spec fn listing(eps: Seq<Endpoint>) -> Seq<Endpoint> {
    ranking(eps.map_values(|e: Endpoint| sort_key(e))).map_values(|i: int| masked(eps[i]))
}

/// What the user enters for a new endpoint.
pub struct Draft {
    pub name: Seq<char>,
    pub host: Seq<char>,
    pub port: Option<u16>,
    pub username: Seq<char>,
    pub auth_type: Seq<char>,
    pub private_key_path: Option<Seq<char>>,
    pub password: Option<Seq<char>>,
}

/// The identifier that the stamp `stamp` makes for an endpoint of a user.
/// The stamp is the time of the adding, in milliseconds since 1970, or the
/// first number from there on whose identifier is free.
pub open spec fn manual_id(stamp: int) -> Seq<char> {
    "manual-"@ + signed_decimal(stamp)
}

/// Different stamps make different identifiers.
pub proof fn manual_id_is_one_to_one(a: int, b: int)
    requires
        manual_id(a) == manual_id(b),
    ensures
        a == b,
{
    let p = "manual-"@;
    assert(manual_id(a).skip(p.len() as int) =~= signed_decimal(a));
    assert(manual_id(b).skip(p.len() as int) =~= signed_decimal(b));
    signed_decimal_is_one_to_one(a, b);
}

/// Whether `s` is the stamp of a new endpoint that is added at the time
/// `stamp`: the first number from `stamp` on whose identifier no endpoint
/// of the registry has.
pub open spec fn first_free(eps: Seq<Endpoint>, stamp: int, s: int) -> bool {
    &&& s >= stamp
    &&& !known(eps, manual_id(s))
    &&& forall|t: int| stamp <= t < s ==> known(eps, #[trigger] manual_id(t))
}

/// Whether `id` is the identifier of a stamp from `s` on.
pub open spec fn made_from(id: Seq<char>, s: int) -> bool {
    exists|t: int| t >= s && id == #[trigger] manual_id(t)
}

/// How many endpoints have the identifier of a stamp from `s` on.
pub open spec fn taken_from(eps: Seq<Endpoint>, s: int) -> nat
    decreases eps.len(),
{
    if eps.len() == 0 {
        0
    } else if made_from(eps.last().id, s) {
        taken_from(eps.drop_last(), s) + 1
    } else {
        taken_from(eps.drop_last(), s)
    }
}

/// No more identifiers are taken than there are endpoints.
pub proof fn taken_is_bounded(eps: Seq<Endpoint>, s: int)
    ensures
        taken_from(eps, s) <= eps.len(),
    decreases eps.len(),
{
    if eps.len() > 0 {
        taken_is_bounded(eps.drop_last(), s);
    }
}

/// From a later stamp on no more identifiers are taken.
pub proof fn taken_never_grows(eps: Seq<Endpoint>, s: int)
    ensures
        taken_from(eps, s + 1) <= taken_from(eps, s),
    decreases eps.len(),
{
    if eps.len() > 0 {
        taken_never_grows(eps.drop_last(), s);
        if made_from(eps.last().id, s + 1) {
            let t = choose|t: int| t >= s + 1 && eps.last().id == #[trigger] manual_id(t);
            assert(t >= s && eps.last().id == manual_id(t));
        }
    }
}

/// Where an endpoint has the identifier of the stamp `s`, fewer
/// identifiers are taken from the next stamp on: a search for a free
/// identifier comes to an end.
pub proof fn taken_shrinks(eps: Seq<Endpoint>, s: int, k: int)
    requires
        0 <= k < eps.len(),
        eps[k].id == manual_id(s),
    ensures
        taken_from(eps, s + 1) < taken_from(eps, s),
    decreases eps.len(),
{
    let head = eps.drop_last();
    if k == eps.len() - 1 {
        taken_never_grows(head, s);
        assert(made_from(eps.last().id, s));
        if made_from(eps.last().id, s + 1) {
            let t = choose|t: int| t >= s + 1 && eps.last().id == #[trigger] manual_id(t);
            manual_id_is_one_to_one(t, s);
        }
    } else {
        assert(head[k] == eps[k]);
        taken_shrinks(head, s, k);
        if made_from(eps.last().id, s + 1) {
            let t = choose|t: int| t >= s + 1 && eps.last().id == #[trigger] manual_id(t);
            assert(t >= s && eps.last().id == manual_id(t));
        }
    }
}

/// The endpoint that the draft `d` makes under the stamp `stamp`. Port 22
/// stands for a port that is not given.
pub open spec fn drafted(stamp: int, d: Draft) -> Endpoint {
    Endpoint {
        id: manual_id(stamp),
        name: d.name,
        host: d.host,
        port: match d.port {
            Some(p) => p,
            None => 22,
        },
        username: d.username,
        auth_type: d.auth_type,
        private_key_path: d.private_key_path,
        password: d.password,
        source: "manual"@,
    }
}

/// The fields of an endpoint that an update replaces: each one that is
/// given.
pub struct Changes {
    pub name: Option<Seq<char>>,
    pub host: Option<Seq<char>>,
    pub port: Option<u16>,
    pub username: Option<Seq<char>>,
    pub auth_type: Option<Seq<char>>,
    pub private_key_path: Option<Seq<char>>,
    pub password: Option<Seq<char>>,
}

/// `e` with each field that `ch` gives replaced. Identifier and source
/// stay.
pub open spec fn revised(e: Endpoint, ch: Changes) -> Endpoint {
    Endpoint {
        id: e.id,
        name: ch.name.unwrap_or(e.name),
        host: ch.host.unwrap_or(e.host),
        port: ch.port.unwrap_or(e.port),
        username: ch.username.unwrap_or(e.username),
        auth_type: ch.auth_type.unwrap_or(e.auth_type),
        private_key_path: if ch.private_key_path is Some {
            ch.private_key_path
        } else {
            e.private_key_path
        },
        password: if ch.password is Some {
            ch.password
        } else {
            e.password
        },
        source: e.source,
    }
}

/// What an update of the endpoint `id` does: it fails where no endpoint
/// has that identifier, and where the endpoint is not one that the user
/// added; otherwise the endpoint is revised in its place.
pub open spec fn update_outcome(eps: Seq<Endpoint>, id: Seq<char>, ch: Changes) -> Result<
    Seq<Endpoint>,
    Seq<char>,
> {
    let k = slot(eps, id);
    if !known(eps, id) {
        Err("Connection not found"@)
    } else if eps[k].source != "manual"@ {
        Err("Cannot modify config-based connection"@)
    } else {
        Ok(eps.update(k, revised(eps[k], ch)))
    }
}

/// What the removal of the endpoint `id` does: it fails where no endpoint
/// has that identifier, and where the endpoint is not one that the user
/// added; otherwise the endpoint leaves the list.
pub open spec fn delete_outcome(eps: Seq<Endpoint>, id: Seq<char>) -> Result<
    Seq<Endpoint>,
    Seq<char>,
> {
    let k = slot(eps, id);
    if !known(eps, id) {
        Err("Connection not found"@)
    } else if eps[k].source != "manual"@ {
        Err("Cannot delete config-based connection"@)
    } else {
        Ok(eps.remove(k))
    }
}

/// Revising an endpoint of a valid registry leaves it valid.
pub proof fn revision_keeps_valid(eps: Seq<Endpoint>, k: int, ch: Changes)
    requires
        valid_registry(eps),
        0 <= k < eps.len(),
    ensures
        valid_registry(eps.update(k, revised(eps[k], ch))),
{
    let next = eps.update(k, revised(eps[k], ch));
    assert forall|i: int, j: int| 0 <= i < j < next.len() implies next[i].id != next[j].id by {
        assert(next[i].id == eps[i].id && next[j].id == eps[j].id);
    }
    assert forall|i: int| 0 <= i < next.len() implies proper(#[trigger] next[i]) by {
        assert(proper(eps[i]));
    }
}

/// Removing an endpoint from a valid registry leaves it valid.
pub proof fn removal_keeps_valid(eps: Seq<Endpoint>, k: int)
    requires
        valid_registry(eps),
        0 <= k < eps.len(),
    ensures
        valid_registry(eps.remove(k)),
{
    let next = eps.remove(k);
    assert forall|i: int, j: int| 0 <= i < j < next.len() implies next[i].id != next[j].id by {
        let a = if i < k { i } else { i + 1 };
        let b = if j < k { j } else { j + 1 };
        assert(next[i] == eps[a] && next[j] == eps[b]);
    }
    assert forall|i: int| 0 <= i < next.len() implies proper(#[trigger] next[i]) by {
        let a = if i < k { i } else { i + 1 };
        assert(next[i] == eps[a]);
    }
}

/// An endpoint read from the configuration can be neither updated nor
/// removed, whatever the update asks for: both fail with the message that
/// names the policy, and the registry stays as it is.
pub proof fn config_endpoints_are_read_only(eps: Seq<Endpoint>, id: Seq<char>, ch: Changes)
    requires
        known(eps, id),
        eps[slot(eps, id)].source == "config"@,
    ensures
        update_outcome(eps, id, ch) == Err::<Seq<Endpoint>, Seq<char>>(
            "Cannot modify config-based connection"@,
        ),
        delete_outcome(eps, id) == Err::<Seq<Endpoint>, Seq<char>>(
            "Cannot delete config-based connection"@,
        ),
{
    sources_differ();
}

/// The two sources have different names, and so have the two beginnings of
/// an identifier.
pub proof fn sources_differ()
    ensures
        "config"@ != "manual"@,
        forall|id: Seq<char>| !("config-"@.is_prefix_of(id) && "manual-"@.is_prefix_of(id)),
{
    reveal_strlit("config");
    reveal_strlit("manual");
    reveal_strlit("config-");
    reveal_strlit("manual-");
    assert("config"@[0] != "manual"@[0]);
    assert forall|id: Seq<char>|
        !("config-"@.is_prefix_of(id) && "manual-"@.is_prefix_of(id)) by {
        if "config-"@.is_prefix_of(id) && "manual-"@.is_prefix_of(id) {
            assert(id[0] == "config-"@[0]);
            assert(id[0] == "manual-"@[0]);
        }
    }
}

/// The endpoints that the user added, in their order: what is kept on disk.
pub open spec fn manual_part(eps: Seq<Endpoint>) -> Seq<Endpoint>
    decreases eps.len(),
{
    if eps.len() == 0 {
        Seq::empty()
    } else if eps.last().source == "manual"@ {
        manual_part(eps.drop_last()).push(eps.last())
    } else {
        manual_part(eps.drop_last())
    }
}

/// The registry with the endpoints `saved` taken back in, in their order.
/// One is taken where it is an endpoint that a user added, with an
/// identifier of that kind which no endpoint of the registry has yet.
pub open spec fn restored(eps: Seq<Endpoint>, saved: Seq<Endpoint>) -> Seq<Endpoint>
    decreases saved.len(),
{
    if saved.len() == 0 {
        eps
    } else {
        let r = restored(eps, saved.drop_last());
        let e = saved.last();
        if e.source == "manual"@ && "manual-"@.is_prefix_of(e.id) && !known(r, e.id) {
            r.push(e)
        } else {
            r
        }
    }
}

/// Taking saved endpoints back into a valid registry leaves it valid.
pub proof fn restored_keeps_valid(eps: Seq<Endpoint>, saved: Seq<Endpoint>)
    requires
        valid_registry(eps),
    ensures
        valid_registry(restored(eps, saved)),
    decreases saved.len(),
{
    if saved.len() > 0 {
        restored_keeps_valid(eps, saved.drop_last());
        let r = restored(eps, saved.drop_last());
        let e = saved.last();
        if e.source == "manual"@ && "manual-"@.is_prefix_of(e.id) && !known(r, e.id) {
            upsert_keeps_valid(r, e);
        }
    }
}

/// Whether every endpoint of the list was read from the configuration.
pub open spec fn all_from_config(eps: Seq<Endpoint>) -> bool {
    forall|i: int|
        0 <= i < eps.len() ==> (#[trigger] eps[i]).source == "config"@ && "config-"@.is_prefix_of(
            eps[i].id,
        )
}

/// Whether every endpoint of the list is one that a user added.
pub open spec fn all_manual(eps: Seq<Endpoint>) -> bool {
    forall|i: int|
        0 <= i < eps.len() ==> (#[trigger] eps[i]).source == "manual"@ && "manual-"@.is_prefix_of(
            eps[i].id,
        )
}

/// The endpoints that stand for host blocks are all read from the
/// configuration.
pub proof fn imported_from_config(hosts: Seq<HostEntry>)
    ensures
        all_from_config(imported(hosts)),
    decreases hosts.len(),
{
    if hosts.len() > 0 {
        imported_from_config(hosts.drop_last());
        let e = imported_endpoint(hosts.last());
        assert("config-"@.is_prefix_of(e.id)) by {
            assert(e.id.subrange(0, "config-"@.len() as int) =~= "config-"@);
        }
        position_is_first(ids(imported(hosts.drop_last())), e.id);
    }
}

/// Each endpoint that a user added to a valid registry is one of the
/// registry's endpoints, and no two of them share an identifier.
pub proof fn manual_part_of_valid(eps: Seq<Endpoint>)
    requires
        valid_registry(eps),
    ensures
        all_manual(manual_part(eps)),
        distinct_ids(manual_part(eps)),
        forall|i: int|
            0 <= i < manual_part(eps).len() ==> exists|j: int|
                0 <= j < eps.len() && eps[j] == #[trigger] manual_part(eps)[i],
    decreases eps.len(),
{
    sources_differ();
    if eps.len() > 0 {
        let head = eps.drop_last();
        assert(valid_registry(head)) by {
            assert forall|i: int| 0 <= i < head.len() implies proper(#[trigger] head[i]) by {
                assert(proper(eps[i]));
            }
        }
        manual_part_of_valid(head);
        let m = manual_part(eps);
        let e = eps.last();
        assert(proper(e));
        assert forall|i: int| 0 <= i < m.len() implies exists|j: int|
            0 <= j < eps.len() && eps[j] == #[trigger] m[i] by {
            if i < manual_part(head).len() {
                let j = choose|j: int| 0 <= j < head.len() && head[j] == manual_part(head)[i];
                assert(eps[j] == m[i]);
            } else {
                assert(eps[eps.len() - 1] == m[i]);
            }
        }
        assert forall|a: int, b: int| 0 <= a < b < m.len() implies m[a].id != m[b].id by {
            if b == manual_part(head).len() {
                let j = choose|j: int| 0 <= j < head.len() && head[j] == manual_part(head)[a];
                assert(eps[j].id != eps[eps.len() - 1].id);
            }
        }
    }
}

/// Saved endpoints of a user, with distinct identifiers, are all taken
/// back behind endpoints read from the configuration.
pub proof fn restored_appends(base: Seq<Endpoint>, saved: Seq<Endpoint>)
    requires
        all_from_config(base),
        all_manual(saved),
        distinct_ids(saved),
    ensures
        restored(base, saved) == base + saved,
    decreases saved.len(),
{
    sources_differ();
    if saved.len() == 0 {
        assert(base + saved =~= base);
    } else {
        let head = saved.drop_last();
        restored_appends(base, head);
        let r = base + head;
        let e = saved.last();
        assert forall|j: int| 0 <= j < r.len() implies ids(r)[j] != e.id by {
            if j < base.len() {
                assert(r[j] == base[j]);
                assert("config-"@.is_prefix_of(base[j].id));
            } else {
                assert(r[j] == saved[j - base.len()]);
            }
        }
        first_is_position(ids(r), e.id, r.len() as int);
        assert(r.push(e) =~= base + saved);
    }
}

/// Of endpoints read from the configuration followed by endpoints of a
/// user, the user's are exactly the latter.
pub proof fn manual_part_of_concat(base: Seq<Endpoint>, saved: Seq<Endpoint>)
    requires
        all_from_config(base),
        all_manual(saved),
    ensures
        manual_part(base + saved) == saved,
    decreases base.len() + saved.len(),
{
    sources_differ();
    if saved.len() > 0 {
        manual_part_of_concat(base, saved.drop_last());
        assert((base + saved).drop_last() =~= base + saved.drop_last());
        assert((base + saved).last() == saved.last());
        assert(manual_part(base + saved) =~= saved);
    } else if base.len() > 0 {
        assert(base + saved =~= base);
        manual_part_of_concat(base.drop_last(), saved);
        assert(base.drop_last() + saved =~= base.drop_last());
        assert(base.last().source == "config"@);
    } else {
        assert(base + saved =~= Seq::<Endpoint>::empty());
    }
}

/// What is kept on disk brings the user's endpoints back. Let a valid
/// registry keep its user's endpoints and the process end. A registry that
/// is then made from the host blocks `hosts`, whatever they are, and takes
/// the kept endpoints back, holds the same user's endpoints in the same
/// order. The endpoints read from the configuration are those of `hosts`.
pub proof fn manual_endpoints_survive_restart(eps: Seq<Endpoint>, hosts: Seq<HostEntry>)
    requires
        valid_registry(eps),
    ensures
        manual_part(restored(imported(hosts), manual_part(eps))) == manual_part(eps),
        restored(imported(hosts), manual_part(eps)) == imported(hosts) + manual_part(eps),
{
    imported_from_config(hosts);
    manual_part_of_valid(eps);
    restored_appends(imported(hosts), manual_part(eps));
    manual_part_of_concat(imported(hosts), manual_part(eps));
}

/// A listing shows every endpoint of the registry, masked, and nothing
/// else; and no endpoint stands behind one that its source first, and its
/// name second, put behind it.
pub proof fn listing_is_ordered(eps: Seq<Endpoint>)
    ensures
        listing(eps).len() == eps.len(),
        forall|i: int| 0 <= i < eps.len() ==> listing(eps).contains(masked(#[trigger] eps[i])),
        forall|j: int|
            0 <= j < eps.len() ==> exists|i: int|
                0 <= i < eps.len() && #[trigger] listing(eps)[j] == masked(eps[i]),
        forall|a: int, b: int|
            0 <= a < b < eps.len() ==> !precedes(
                sort_key(listing(eps)[b]),
                sort_key(listing(eps)[a]),
            ),
{
    let keys = eps.map_values(|e: Endpoint| sort_key(e));
    let r = ranking(keys);
    ranking_is_ranked(keys);
    assert forall|i: int| 0 <= i < eps.len() implies listing(eps).contains(
        masked(#[trigger] eps[i]),
    ) by {
        assert(r.contains(i));
        let j = choose|j: int| 0 <= j < r.len() && r[j] == i;
        assert(listing(eps)[j] == masked(eps[i]));
    }
    assert forall|j: int| 0 <= j < eps.len() implies exists|i: int|
        0 <= i < eps.len() && #[trigger] listing(eps)[j] == masked(eps[i]) by {
        assert(0 <= r[j] < eps.len());
        assert(listing(eps)[j] == masked(eps[r[j]]));
    }
    assert forall|a: int, b: int| 0 <= a < b < eps.len() implies !precedes(
        sort_key(listing(eps)[b]),
        sort_key(listing(eps)[a]),
    ) by {
        assert(0 <= r[a] < eps.len() && 0 <= r[b] < eps.len());
        assert(sort_key(listing(eps)[a]) == keys[r[a]]);
        assert(sort_key(listing(eps)[b]) == keys[r[b]]);
    }
}

} // verus!
