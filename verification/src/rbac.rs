//! Role-based access control: the permission matrix shown to administrators,
//! the permissions a user holds through their roles, and the authorization
//! decision.
//!
//! Identifiers are UUIDs, held here as their 128-bit value.
use vstd::prelude::*;
use crate::text::{str_eq, opt_view};
use crate::ui::{role_color, resource_icon, role_color_of, resource_icon_of};

verus! {

broadcast use vstd::string::group_string_axioms;

// ---------------------------------------------------------------------------
// Stored rows
// ---------------------------------------------------------------------------

/// A role as stored.
pub struct RoleRow {
    pub id: u128,
    pub name: String,
}

/// A protected resource as stored.
pub struct ResourceRow {
    pub id: u128,
    pub name: String,
}

/// An action as stored.
pub struct ActionRow {
    pub id: u128,
    pub name: String,
}

/// A link between a role and a permission.
#[derive(Clone, Copy)]
pub struct RolePermissionRow {
    pub role_id: u128,
    pub permission_id: u128,
}

/// A permission: a grant of actions on one resource.
#[derive(Clone, Copy)]
pub struct PermissionRow {
    pub id: u128,
    pub resource_id: u128,
}

/// Whether a permission allows an action.
#[derive(Clone, Copy)]
pub struct PermissionActionRow {
    pub permission_id: u128,
    pub action_id: u128,
    pub allowed: bool,
}

impl ActionRow {
    /// A copy of this row.
    pub fn copy(&self) -> (r: ActionRow)
        ensures
            r == *self,
    {
        ActionRow { id: self.id, name: self.name.clone() }
    }
}

// ---------------------------------------------------------------------------
// View models
// ---------------------------------------------------------------------------

/// A role column of the matrix.
pub struct RbacRole {
    pub name: String,
    pub bg_color: String,
}

/// A resource row of the matrix.
pub struct RbacResource {
    pub name: String,
    pub icon: String,
}

/// An action of the matrix.
pub struct RbacAction {
    pub name: String,
}

/// Whether one action is allowed.
pub struct ActionGrant {
    pub action: String,
    pub allowed: bool,
}

/// The actions of one resource for one role, in the matrix's action order.
pub struct RbacPermission {
    pub actions: Vec<ActionGrant>,
}

/// The permissions of one resource for one role.
pub struct ResourcePermissions {
    pub resource: String,
    pub permission: RbacPermission,
}

/// The permissions of one role, one entry per resource.
pub struct RolePermissions {
    pub role: String,
    pub resources: Vec<ResourcePermissions>,
}

/// Everything the RBAC screen renders.
pub struct RbacMatrix {
    pub active_role: String,
    pub roles: Vec<RbacRole>,
    pub resources: Vec<RbacResource>,
    pub actions: Vec<RbacAction>,
    /// One entry per role, in the order of `roles`.
    pub permissions: Vec<RolePermissions>,
}

// ---------------------------------------------------------------------------
// Specification of the matrix
// ---------------------------------------------------------------------------

/// The position of an action in the matrix: the usual CRUD actions first,
/// anything else last.
pub open spec fn action_rank(name: Seq<char>) -> u32 {
    if name == "read"@ {
        1
    } else if name == "create"@ {
        2
    } else if name == "edit"@ {
        3
    } else if name == "delete"@ {
        4
    } else if name == "approve"@ {
        5
    } else if name == "print"@ {
        6
    } else {
        100
    }
}

/// The actions of rank `k`, in the order given.
pub open spec fn actions_with_rank(s: Seq<ActionRow>, k: u32) -> Seq<ActionRow>
    decreases s.len(),
{
    if s.len() == 0 {
        Seq::empty()
    } else {
        let rest = actions_with_rank(s.drop_last(), k);
        if action_rank(s.last().name@) == k {
            rest.push(s.last())
        } else {
            rest
        }
    }
}

/// The actions stably sorted by rank.
pub open spec fn sorted_actions(s: Seq<ActionRow>) -> Seq<ActionRow> {
    actions_with_rank(s, 1) + actions_with_rank(s, 2) + actions_with_rank(s, 3)
        + actions_with_rank(s, 4) + actions_with_rank(s, 5) + actions_with_rank(s, 6)
        + actions_with_rank(s, 100)
}

/// The resource of permission `pid`, as a map built from `perms` in order
/// holds it (the last row with that id wins).
pub open spec fn perm_resource(perms: Seq<PermissionRow>, pid: u128) -> Option<u128>
    decreases perms.len(),
{
    if perms.len() == 0 {
        None
    } else if perms.last().id == pid {
        Some(perms.last().resource_id)
    } else {
        perm_resource(perms.drop_last(), pid)
    }
}

/// The first permission linked to `role_id` (in link order) whose resource is `res_id`.
pub open spec fn target_perm(
    links: Seq<RolePermissionRow>,
    perms: Seq<PermissionRow>,
    role_id: u128,
    res_id: u128,
) -> Option<u128>
    decreases links.len(),
{
    if links.len() == 0 {
        None
    } else if links[0].role_id == role_id && perm_resource(perms, links[0].permission_id) == Some(
        res_id,
    ) {
        Some(links[0].permission_id)
    } else {
        target_perm(links.drop_first(), perms, role_id, res_id)
    }
}

/// Whether some row allows action `aid` under permission `pid`.
pub open spec fn perm_allows(pas: Seq<PermissionActionRow>, pid: u128, aid: u128) -> bool {
    exists|i: int|
        0 <= i < pas.len() && #[trigger] pas[i].permission_id == pid && pas[i].allowed
            && pas[i].action_id == aid
}

/// One cell of the matrix: the role's permission for the resource allows the action.
pub open spec fn cell_allowed(
    links: Seq<RolePermissionRow>,
    perms: Seq<PermissionRow>,
    pas: Seq<PermissionActionRow>,
    role_id: u128,
    res_id: u128,
    action_id: u128,
) -> bool {
    match target_perm(links, perms, role_id, res_id) {
        Some(pid) => perm_allows(pas, pid, action_id),
        None => false,
    }
}

/// The role shown first: the requested one (or `Admin`) when it exists,
/// else the first role, else the requested one anyway.
pub open spec fn active_role_of(roles: Seq<RoleRow>, requested: Option<Seq<char>>) -> Seq<char> {
    let wanted = match requested {
        Some(r) => r,
        None => "Admin"@,
    };
    if exists|i: int| 0 <= i < roles.len() && #[trigger] roles[i].name@ == wanted {
        wanted
    } else if roles.len() > 0 {
        roles[0].name@
    } else {
        wanted
    }
}

/// The matrix row of role `role` (by position) is right.
pub open spec fn role_permissions_correct(
    rp: RolePermissions,
    role: RoleRow,
    resources: Seq<ResourceRow>,
    acts: Seq<ActionRow>,
    links: Seq<RolePermissionRow>,
    perms: Seq<PermissionRow>,
    pas: Seq<PermissionActionRow>,
) -> bool {
    &&& rp.role@ == role.name@
    &&& rp.resources@.len() == resources.len()
    &&& forall|j: int|
        0 <= j < resources.len() ==> resource_permissions_correct(
            #[trigger] rp.resources@[j],
            role,
            resources[j],
            acts,
            links,
            perms,
            pas,
        )
}

/// One resource entry of a role's row is right.
pub open spec fn resource_permissions_correct(
    e: ResourcePermissions,
    role: RoleRow,
    res: ResourceRow,
    acts: Seq<ActionRow>,
    links: Seq<RolePermissionRow>,
    perms: Seq<PermissionRow>,
    pas: Seq<PermissionActionRow>,
) -> bool {
    &&& e.resource@ == res.name@
    &&& e.permission.actions@.len() == acts.len()
    &&& forall|k: int|
        0 <= k < acts.len() ==> {
            &&& (#[trigger] e.permission.actions@[k]).action@ == acts[k].name@
            &&& e.permission.actions@[k].allowed == cell_allowed(
                links,
                perms,
                pas,
                role.id,
                res.id,
                acts[k].id,
            )
        }
}

// ---------------------------------------------------------------------------
// Building the matrix
// ---------------------------------------------------------------------------

fn action_rank_exec(name: &String) -> (r: u32)
    ensures
        r == action_rank(name@),
{
    let s = name.as_str();
    if str_eq(s, "read") {
        1
    } else if str_eq(s, "create") {
        2
    } else if str_eq(s, "edit") {
        3
    } else if str_eq(s, "delete") {
        4
    } else if str_eq(s, "approve") {
        5
    } else if str_eq(s, "print") {
        6
    } else {
        100
    }
}

fn push_actions_with_rank(actions: &Vec<ActionRow>, k: u32, out: &mut Vec<ActionRow>)
    ensures
        final(out)@ == old(out)@ + actions_with_rank(actions@, k),
{
    let ghost start = out@;
    for i in 0..actions.len()
        invariant
            out@ == start + actions_with_rank(actions@.take(i as int), k),
    {
        assert(actions@.take(i + 1).drop_last() == actions@.take(i as int));
        if action_rank_exec(&actions[i].name) == k {
            out.push(actions[i].copy());
        }
    }
    assert(actions@.take(actions.len() as int) == actions@);
}

/// The actions stably sorted by rank.
pub fn sort_actions(actions: &Vec<ActionRow>) -> (r: Vec<ActionRow>)
    ensures
        r@ == sorted_actions(actions@),
{
    let mut r: Vec<ActionRow> = Vec::new();
    push_actions_with_rank(actions, 1, &mut r);
    push_actions_with_rank(actions, 2, &mut r);
    push_actions_with_rank(actions, 3, &mut r);
    push_actions_with_rank(actions, 4, &mut r);
    push_actions_with_rank(actions, 5, &mut r);
    push_actions_with_rank(actions, 6, &mut r);
    push_actions_with_rank(actions, 100, &mut r);
    assert(r@ =~= sorted_actions(actions@));
    r
}

fn perm_resource_exec(perms: &Vec<PermissionRow>, pid: u128) -> (r: Option<u128>)
    ensures
        r == perm_resource(perms@, pid),
{
    let mut found: Option<u128> = None;
    for i in 0..perms.len()
        invariant
            found == perm_resource(perms@.take(i as int), pid),
    {
        assert(perms@.take(i + 1).drop_last() == perms@.take(i as int));
        if perms[i].id == pid {
            found = Some(perms[i].resource_id);
        }
    }
    assert(perms@.take(perms.len() as int) == perms@);
    found
}

fn target_perm_exec(
    links: &Vec<RolePermissionRow>,
    perms: &Vec<PermissionRow>,
    role_id: u128,
    res_id: u128,
) -> (r: Option<u128>)
    ensures
        r == target_perm(links@, perms@, role_id, res_id),
{
    let mut i: usize = 0;
    assert(links@.skip(0) == links@);
    while i < links.len()
        invariant
            i <= links.len(),
            target_perm(links@, perms@, role_id, res_id) == target_perm(
                links@.skip(i as int),
                perms@,
                role_id,
                res_id,
            ),
        decreases links.len() - i,
    {
        assert(links@.skip(i as int)[0] == links@[i as int]);
        assert(links@.skip(i as int).drop_first() == links@.skip(i + 1));
        if links[i].role_id == role_id && perm_resource_exec(perms, links[i].permission_id) == Some(
            res_id,
        ) {
            return Some(links[i].permission_id);
        }
        i = i + 1;
    }
    None
}

fn perm_allows_exec(pas: &Vec<PermissionActionRow>, pid: u128, aid: u128) -> (r: bool)
    ensures
        r == perm_allows(pas@, pid, aid),
{
    for i in 0..pas.len()
        invariant
            forall|j: int|
                0 <= j < i ==> !(#[trigger] pas@[j].permission_id == pid && pas@[j].allowed
                    && pas@[j].action_id == aid),
    {
        if pas[i].permission_id == pid && pas[i].allowed && pas[i].action_id == aid {
            return true;
        }
    }
    false
}

fn resource_entry(
    role: &RoleRow,
    res: &ResourceRow,
    acts: &Vec<ActionRow>,
    links: &Vec<RolePermissionRow>,
    perms: &Vec<PermissionRow>,
    pas: &Vec<PermissionActionRow>,
) -> (e: ResourcePermissions)
    ensures
        resource_permissions_correct(e, *role, *res, acts@, links@, perms@, pas@),
{
    let target = target_perm_exec(links, perms, role.id, res.id);
    let mut grants: Vec<ActionGrant> = Vec::new();
    for k in 0..acts.len()
        invariant
            target == target_perm(links@, perms@, role.id, res.id),
            grants@.len() == k,
            forall|q: int|
                0 <= q < k ==> {
                    &&& (#[trigger] grants@[q]).action@ == acts@[q].name@
                    &&& grants@[q].allowed == cell_allowed(
                        links@,
                        perms@,
                        pas@,
                        role.id,
                        res.id,
                        acts@[q].id,
                    )
                },
    {
        let allowed = match target {
            Some(pid) => perm_allows_exec(pas, pid, acts[k].id),
            None => false,
        };
        grants.push(ActionGrant { action: acts[k].name.clone(), allowed });
    }
    ResourcePermissions { resource: res.name.clone(), permission: RbacPermission { actions: grants } }
}

fn role_entry(
    role: &RoleRow,
    resources: &Vec<ResourceRow>,
    acts: &Vec<ActionRow>,
    links: &Vec<RolePermissionRow>,
    perms: &Vec<PermissionRow>,
    pas: &Vec<PermissionActionRow>,
) -> (rp: RolePermissions)
    ensures
        role_permissions_correct(rp, *role, resources@, acts@, links@, perms@, pas@),
{
    let mut entries: Vec<ResourcePermissions> = Vec::new();
    for j in 0..resources.len()
        invariant
            entries@.len() == j,
            forall|q: int|
                0 <= q < j ==> resource_permissions_correct(
                    #[trigger] entries@[q],
                    *role,
                    resources@[q],
                    acts@,
                    links@,
                    perms@,
                    pas@,
                ),
    {
        entries.push(resource_entry(role, &resources[j], acts, links, perms, pas));
    }
    RolePermissions { role: role.name.clone(), resources: entries }
}

fn choose_active_role(roles: &Vec<RoleRow>, requested: Option<String>) -> (r: String)
    ensures
        r@ == active_role_of(roles@, opt_view(requested)),
{
    let ghost req = opt_view(requested);
    let wanted = match requested {
        Some(r) => r,
        None => "Admin".to_owned(),
    };
    let ghost w = match req {
        Some(r) => r,
        None => "Admin"@,
    };
    assert(wanted@ == w);
    let mut i: usize = 0;
    while i < roles.len()
        invariant
            req == opt_view(requested),
            wanted@ == w,
            w == (match req {
                Some(r) => r,
                None => "Admin"@,
            }),
            i <= roles.len(),
            forall|j: int| 0 <= j < i ==> #[trigger] roles@[j].name@ != wanted@,
        decreases roles.len() - i,
    {
        if str_eq(roles[i].name.as_str(), wanted.as_str()) {
            assert(roles@[i as int].name@ == w);
            assert(active_role_of(roles@, req) == w);
            return wanted;
        }
        i = i + 1;
    }
    if roles.len() > 0 {
        roles[0].name.clone()
    } else {
        wanted
    }
}

/// Builds and queries the permission matrix.
pub struct RbacService;

impl RbacService {
    /// Badge color of a role.
    pub fn role_color(name: &str) -> (color: String)
        ensures
            color@ == role_color_of(name@),
    {
        role_color(name)
    }

    /// Lucide icon of a resource.
    pub fn resource_icon(name: &str) -> (icon: String)
        ensures
            icon@ == resource_icon_of(name@),
    {
        resource_icon(name)
    }

    /// Builds the full permission matrix from the stored rows: roles and
    /// resources in the order given (by name), actions sorted by rank, and for
    /// every role, resource and action whether the role's permission on the
    /// resource allows the action.
    pub fn build_permissions_matrix(
        roles: &Vec<RoleRow>,
        resources: &Vec<ResourceRow>,
        actions: &Vec<ActionRow>,
        links: &Vec<RolePermissionRow>,
        perms: &Vec<PermissionRow>,
        perm_actions: &Vec<PermissionActionRow>,
        requested_role: Option<String>,
    ) -> (m: RbacMatrix)
        ensures
            m.active_role@ == active_role_of(roles@, opt_view(requested_role)),
            m.roles@.len() == roles@.len(),
            forall|i: int|
                0 <= i < roles@.len() ==> {
                    &&& (#[trigger] m.roles@[i]).name@ == roles@[i].name@
                    &&& m.roles@[i].bg_color@ == role_color_of(roles@[i].name@)
                },
            m.resources@.len() == resources@.len(),
            forall|j: int|
                0 <= j < resources@.len() ==> {
                    &&& (#[trigger] m.resources@[j]).name@ == resources@[j].name@
                    &&& m.resources@[j].icon@ == resource_icon_of(resources@[j].name@)
                },
            m.actions@.len() == sorted_actions(actions@).len(),
            forall|k: int|
                0 <= k < sorted_actions(actions@).len() ==> (#[trigger] m.actions@[k]).name@
                    == sorted_actions(actions@)[k].name@,
            m.permissions@.len() == roles@.len(),
            forall|i: int|
                0 <= i < roles@.len() ==> role_permissions_correct(
                    #[trigger] m.permissions@[i],
                    roles@[i],
                    resources@,
                    sorted_actions(actions@),
                    links@,
                    perms@,
                    perm_actions@,
                ),
    {
        let acts = sort_actions(actions);
        let mut role_vms: Vec<RbacRole> = Vec::new();
        for i in 0..roles.len()
            invariant
                role_vms@.len() == i,
                forall|q: int|
                    0 <= q < i ==> {
                        &&& (#[trigger] role_vms@[q]).name@ == roles@[q].name@
                        &&& role_vms@[q].bg_color@ == role_color_of(roles@[q].name@)
                    },
        {
            role_vms.push(
                RbacRole {
                    name: roles[i].name.clone(),
                    bg_color: Self::role_color(roles[i].name.as_str()),
                },
            );
        }
        let mut res_vms: Vec<RbacResource> = Vec::new();
        for j in 0..resources.len()
            invariant
                res_vms@.len() == j,
                forall|q: int|
                    0 <= q < j ==> {
                        &&& (#[trigger] res_vms@[q]).name@ == resources@[q].name@
                        &&& res_vms@[q].icon@ == resource_icon_of(resources@[q].name@)
                    },
        {
            res_vms.push(
                RbacResource {
                    name: resources[j].name.clone(),
                    icon: Self::resource_icon(resources[j].name.as_str()),
                },
            );
        }
        let mut act_vms: Vec<RbacAction> = Vec::new();
        for k in 0..acts.len()
            invariant
                act_vms@.len() == k,
                forall|q: int| 0 <= q < k ==> (#[trigger] act_vms@[q]).name@ == acts@[q].name@,
        {
            act_vms.push(RbacAction { name: acts[k].name.clone() });
        }
        let mut rows: Vec<RolePermissions> = Vec::new();
        for i in 0..roles.len()
            invariant
                acts@ == sorted_actions(actions@),
                rows@.len() == i,
                forall|q: int|
                    0 <= q < i ==> role_permissions_correct(
                        #[trigger] rows@[q],
                        roles@[q],
                        resources@,
                        acts@,
                        links@,
                        perms@,
                        perm_actions@,
                    ),
        {
            rows.push(role_entry(&roles[i], resources, &acts, links, perms, perm_actions));
        }
        let active_role = choose_active_role(roles, requested_role);
        RbacMatrix {
            active_role,
            roles: role_vms,
            resources: res_vms,
            actions: act_vms,
            permissions: rows,
        }
    }
}


// ---------------------------------------------------------------------------
// A user's permissions
// ---------------------------------------------------------------------------

/// One granted action on one resource.
pub struct Grant {
    pub resource: String,
    pub action: String,
}

/// The actions a user may perform, by resource: a set of
/// `(resource name, action name)` pairs.
pub struct PermissionSet {
    pub grants: Vec<Grant>,
}

impl PermissionSet {
    /// The pairs held, in insertion order.
    pub open spec fn pairs(&self) -> Seq<(Seq<char>, Seq<char>)> {
        self.grants@.map_values(|g: Grant| (g.resource@, g.action@))
    }

    /// Whether `action` on `resource` is granted.
    pub open spec fn allows(&self, resource: Seq<char>, action: Seq<char>) -> bool {
        self.pairs().contains((resource, action))
    }

    /// The empty set.
    pub fn new() -> (p: PermissionSet)
        ensures
            p.pairs() == Seq::<(Seq<char>, Seq<char>)>::empty(),
    {
        PermissionSet { grants: Vec::new() }
    }

    /// Adds a pair.
    pub fn insert(&mut self, resource: String, action: String)
        ensures
            final(self).pairs() == old(self).pairs().push((resource@, action@)),
    {
        self.grants.push(Grant { resource, action });
        assert(self.pairs() =~= old(self).pairs().push((resource@, action@)));
    }

    /// Whether `action` on `resource` is granted.
    pub fn contains(&self, resource: &str, action: &str) -> (r: bool)
        ensures
            r == self.allows(resource@, action@),
    {
        for i in 0..self.grants.len()
            invariant
                forall|j: int|
                    0 <= j < i ==> #[trigger] self.pairs()[j] != (resource@, action@),
        {
            if str_eq(self.grants[i].resource.as_str(), resource)
                && str_eq(self.grants[i].action.as_str(), action) {
                assert(self.pairs()[i as int] == (resource@, action@));
                return true;
            }
        }
        false
    }
}

/// The name of resource `id` (the last row with that id wins).
pub open spec fn resource_name(resources: Seq<ResourceRow>, id: u128) -> Option<Seq<char>>
    decreases resources.len(),
{
    if resources.len() == 0 {
        None
    } else if resources.last().id == id {
        Some(resources.last().name@)
    } else {
        resource_name(resources.drop_last(), id)
    }
}

/// The name of action `id` (the last row with that id wins).
pub open spec fn action_name(actions: Seq<ActionRow>, id: u128) -> Option<Seq<char>>
    decreases actions.len(),
{
    if actions.len() == 0 {
        None
    } else if actions.last().id == id {
        Some(actions.last().name@)
    } else {
        action_name(actions.drop_last(), id)
    }
}

/// The resource name of permission `pid`: from the last permission row with
/// that id whose resource exists.
pub open spec fn perm_resource_name(
    perms: Seq<PermissionRow>,
    resources: Seq<ResourceRow>,
    pid: u128,
) -> Option<Seq<char>>
    decreases perms.len(),
{
    if perms.len() == 0 {
        None
    } else if perms.last().id == pid && resource_name(resources, perms.last().resource_id) is Some {
        resource_name(resources, perms.last().resource_id)
    } else {
        perm_resource_name(perms.drop_last(), resources, pid)
    }
}

/// Whether one of the user's roles holds permission `pid`.
pub open spec fn held_by_roles(
    user_role_ids: Seq<u128>,
    links: Seq<RolePermissionRow>,
    pid: u128,
) -> bool {
    exists|i: int|
        0 <= i < links.len() && #[trigger] links[i].permission_id == pid && user_role_ids.contains(
            links[i].role_id,
        )
}

/// The pair that one permission-action row grants the user, if any.
pub open spec fn granted_pair(
    user_role_ids: Seq<u128>,
    links: Seq<RolePermissionRow>,
    perms: Seq<PermissionRow>,
    resources: Seq<ResourceRow>,
    actions: Seq<ActionRow>,
    pa: PermissionActionRow,
) -> Option<(Seq<char>, Seq<char>)> {
    if pa.allowed && held_by_roles(user_role_ids, links, pa.permission_id) {
        match (perm_resource_name(perms, resources, pa.permission_id), action_name(actions, pa.action_id)) {
            (Some(r), Some(a)) => Some((r, a)),
            _ => None,
        }
    } else {
        None
    }
}

/// The pairs granted by the permission-action rows, in row order.
pub open spec fn granted_pairs(
    user_role_ids: Seq<u128>,
    links: Seq<RolePermissionRow>,
    perms: Seq<PermissionRow>,
    resources: Seq<ResourceRow>,
    actions: Seq<ActionRow>,
    pas: Seq<PermissionActionRow>,
) -> Seq<(Seq<char>, Seq<char>)>
    decreases pas.len(),
{
    if pas.len() == 0 {
        Seq::empty()
    } else {
        let rest = granted_pairs(user_role_ids, links, perms, resources, actions, pas.drop_last());
        match granted_pair(user_role_ids, links, perms, resources, actions, pas.last()) {
            Some(p) => rest.push(p),
            None => rest,
        }
    }
}

fn resource_name_exec(resources: &Vec<ResourceRow>, id: u128) -> (r: Option<String>)
    ensures
        opt_view(r) == resource_name(resources@, id),
{
    let mut found: Option<String> = None;
    for i in 0..resources.len()
        invariant
            opt_view(found) == resource_name(resources@.take(i as int), id),
    {
        assert(resources@.take(i + 1).drop_last() == resources@.take(i as int));
        if resources[i].id == id {
            found = Some(resources[i].name.clone());
        }
    }
    assert(resources@.take(resources.len() as int) == resources@);
    found
}

fn action_name_exec(actions: &Vec<ActionRow>, id: u128) -> (r: Option<String>)
    ensures
        opt_view(r) == action_name(actions@, id),
{
    let mut found: Option<String> = None;
    for i in 0..actions.len()
        invariant
            opt_view(found) == action_name(actions@.take(i as int), id),
    {
        assert(actions@.take(i + 1).drop_last() == actions@.take(i as int));
        if actions[i].id == id {
            found = Some(actions[i].name.clone());
        }
    }
    assert(actions@.take(actions.len() as int) == actions@);
    found
}

fn perm_resource_name_exec(
    perms: &Vec<PermissionRow>,
    resources: &Vec<ResourceRow>,
    pid: u128,
) -> (r: Option<String>)
    ensures
        opt_view(r) == perm_resource_name(perms@, resources@, pid),
{
    let mut found: Option<String> = None;
    for i in 0..perms.len()
        invariant
            opt_view(found) == perm_resource_name(perms@.take(i as int), resources@, pid),
    {
        assert(perms@.take(i + 1).drop_last() == perms@.take(i as int));
        if perms[i].id == pid {
            let name = resource_name_exec(resources, perms[i].resource_id);
            if name.is_some() {
                found = name;
            }
        }
    }
    assert(perms@.take(perms.len() as int) == perms@);
    found
}

fn contains_id(ids: &Vec<u128>, id: u128) -> (r: bool)
    ensures
        r == ids@.contains(id),
{
    for i in 0..ids.len()
        invariant
            forall|j: int| 0 <= j < i ==> ids@[j] != id,
    {
        if ids[i] == id {
            return true;
        }
    }
    false
}

fn held_by_roles_exec(user_role_ids: &Vec<u128>, links: &Vec<RolePermissionRow>, pid: u128) -> (r:
    bool)
    ensures
        r == held_by_roles(user_role_ids@, links@, pid),
{
    for i in 0..links.len()
        invariant
            forall|j: int|
                0 <= j < i ==> !(#[trigger] links@[j].permission_id == pid
                    && user_role_ids@.contains(links@[j].role_id)),
    {
        if links[i].permission_id == pid && contains_id(user_role_ids, links[i].role_id) {
            return true;
        }
    }
    false
}

/// The permissions a user holds through their roles: for every allowed
/// permission-action row whose permission one of the user's roles holds, the
/// pair (name of the permission's resource, name of the action), when both
/// names are known.
pub fn get_user_permissions(
    user_role_ids: &Vec<u128>,
    links: &Vec<RolePermissionRow>,
    perms: &Vec<PermissionRow>,
    resources: &Vec<ResourceRow>,
    perm_actions: &Vec<PermissionActionRow>,
    actions: &Vec<ActionRow>,
) -> (p: PermissionSet)
    ensures
        p.pairs() == granted_pairs(
            user_role_ids@,
            links@,
            perms@,
            resources@,
            actions@,
            perm_actions@,
        ),
{
    let mut p = PermissionSet::new();
    for i in 0..perm_actions.len()
        invariant
            p.pairs() == granted_pairs(
                user_role_ids@,
                links@,
                perms@,
                resources@,
                actions@,
                perm_actions@.take(i as int),
            ),
    {
        assert(perm_actions@.take(i + 1).drop_last() == perm_actions@.take(i as int));
        assert(perm_actions@.take(i + 1).last() == perm_actions@[i as int]);
        let pa = perm_actions[i];
        if pa.allowed && held_by_roles_exec(user_role_ids, links, pa.permission_id) {
            let r = perm_resource_name_exec(perms, resources, pa.permission_id);
            let a = action_name_exec(actions, pa.action_id);
            match (r, a) {
                (Some(r), Some(a)) => {
                    p.insert(r, a);
                },
                _ => {},
            }
        }
    }
    assert(perm_actions@.take(perm_actions.len() as int) == perm_actions@);
    p
}

/// Whether one of these role names is `Admin`.
pub open spec fn has_admin_role(role_names: Seq<String>) -> bool {
    exists|i: int| 0 <= i < role_names.len() && #[trigger] role_names[i]@ == "Admin"@
}

/// The authorization decision: administrators may do anything; anyone else
/// needs `action` on `resource` among their permissions.
pub fn check_permission(
    role_names: &Vec<String>,
    permissions: &PermissionSet,
    resource: &str,
    action: &str,
) -> (allowed: bool)
    ensures
        allowed == (has_admin_role(role_names@) || permissions.allows(resource@, action@)),
{
    for i in 0..role_names.len()
        invariant
            forall|j: int| 0 <= j < i ==> #[trigger] role_names@[j]@ != "Admin"@,
    {
        if str_eq(role_names[i].as_str(), "Admin") {
            assert(role_names@[i as int]@ == "Admin"@);
            return true;
        }
    }
    permissions.contains(resource, action)
}

// ---------------------------------------------------------------------------
// Toggling one cell
// ---------------------------------------------------------------------------

/// How to change a role's permission on a resource before flipping an action.
pub enum PermissionEditPlan {
    /// The role's own permission: edit it in place.
    Reuse(u128),
    /// A permission shared with other roles: copy it for this role first.
    CloneShared(u128),
    /// The role has no permission on the resource yet: create one.
    CreateNew,
}

/// The permission the toggle acts on: the first permission linked to the role
/// whose resource is the given one.
pub fn find_toggle_target(
    links: &Vec<RolePermissionRow>,
    perms: &Vec<PermissionRow>,
    role_id: u128,
    resource_id: u128,
) -> (r: Option<u128>)
    ensures
        r == target_perm(links@, perms@, role_id, resource_id),
{
    target_perm_exec(links, perms, role_id, resource_id)
}

/// Decides how to edit: a permission linked to more than one role is copied
/// so that the change stays with this role.
pub fn toggle_edit_plan(target: Option<u128>, links_to_target: u64) -> (plan: PermissionEditPlan)
    ensures
        plan == (match target {
            Some(pid) => if links_to_target > 1 {
                PermissionEditPlan::CloneShared(pid)
            } else {
                PermissionEditPlan::Reuse(pid)
            },
            None => PermissionEditPlan::CreateNew,
        }),
{
    match target {
        Some(pid) => if links_to_target > 1 {
            PermissionEditPlan::CloneShared(pid)
        } else {
            PermissionEditPlan::Reuse(pid)
        },
        None => PermissionEditPlan::CreateNew,
    }
}

/// The state after a toggle: the opposite of what the button showed.
pub fn toggled_state(current_status: &str) -> (allowed: bool)
    ensures
        allowed == (current_status@ != "granted"@),
{
    !str_eq(current_status, "granted")
}

/// The status label of a cell.
pub fn grant_status_label(allowed: bool) -> (label: String)
    ensures
        label@ == (if allowed {
            "granted"@
        } else {
            "denied"@
        }),
{
    if allowed {
        "granted".to_owned()
    } else {
        "denied".to_owned()
    }
}

/// Toggling twice restores the starting state: a cell toggled from the label
/// it now shows goes back.
pub proof fn toggle_twice_restores(allowed: bool)
    ensures
        ((if allowed {
            "granted"@
        } else {
            "denied"@
        }) != "granted"@) == !allowed,
{
    reveal_strlit("granted");
    reveal_strlit("denied");
    assert("granted"@.len() != "denied"@.len());
}

} // verus!
