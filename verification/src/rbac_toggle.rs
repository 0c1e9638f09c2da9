//! The writes that flip one cell of the RBAC matrix, and what the matrix
//! means for authorization.
//!
//! A role edits its own permission on a resource in place. A permission it
//! shares with other roles is first copied (with its action rows) and the
//! role relinked to the copy, so that the change stays with this role; a role
//! without a permission on the resource gets a new one.
use vstd::prelude::*;
use crate::rbac::{
    ActionRow, PermissionActionRow, PermissionEditPlan, PermissionRow, ResourceRow,
    RolePermissionRow, action_name, cell_allowed, find_toggle_target, granted_pair, granted_pairs,
    held_by_roles, perm_allows, perm_resource, perm_resource_name, resource_name, target_perm,
    toggle_edit_plan,
};

verus! {

/// One write to the RBAC tables.
#[derive(Clone, Copy)]
pub enum RbacEdit {
    /// Insert permission `id` on resource `resource_id`.
    InsertPermission { id: u128, resource_id: u128 },
    /// Insert a permission-action row.
    InsertPermissionAction { permission_id: u128, action_id: u128, allowed: bool },
    /// Delete the link between `role_id` and `permission_id`.
    DeleteLink { role_id: u128, permission_id: u128 },
    /// Insert a link between `role_id` and `permission_id`.
    InsertLink { role_id: u128, permission_id: u128 },
    /// Set `allowed` on the row of (`permission_id`, `action_id`).
    UpdatePermissionAction { permission_id: u128, action_id: u128, allowed: bool },
}

/// The RBAC tables the matrix is read from: role-permission links,
/// permissions and permission-action rows.
pub type RbacTables = (Seq<RolePermissionRow>, Seq<PermissionRow>, Seq<PermissionActionRow>);

/// The tables after one write.
pub open spec fn apply_edit(t: RbacTables, e: RbacEdit) -> RbacTables {
    match e {
        RbacEdit::InsertPermission { id, resource_id } => (
            t.0,
            t.1.push(PermissionRow { id, resource_id }),
            t.2,
        ),
        RbacEdit::InsertPermissionAction { permission_id, action_id, allowed } => (
            t.0,
            t.1,
            t.2.push(PermissionActionRow { permission_id, action_id, allowed }),
        ),
        RbacEdit::DeleteLink { role_id, permission_id } => (
            without_link(t.0, role_id, permission_id),
            t.1,
            t.2,
        ),
        RbacEdit::InsertLink { role_id, permission_id } => (
            t.0.push(RolePermissionRow { role_id, permission_id }),
            t.1,
            t.2,
        ),
        RbacEdit::UpdatePermissionAction { permission_id, action_id, allowed } => (
            t.0,
            t.1,
            set_allowed(t.2, permission_id, action_id, allowed),
        ),
    }
}

/// The links without the one of `role_id` to `permission_id`.
pub open spec fn without_link(links: Seq<RolePermissionRow>, role_id: u128, permission_id: u128) -> Seq<
    RolePermissionRow,
> {
    links.filter(|l: RolePermissionRow| !(l.role_id == role_id && l.permission_id == permission_id))
}

/// The rows with the one of (`permission_id`, `action_id`) set to `allowed`.
pub open spec fn set_allowed(
    pas: Seq<PermissionActionRow>,
    permission_id: u128,
    action_id: u128,
    allowed: bool,
) -> Seq<PermissionActionRow> {
    pas.map_values(
        |r: PermissionActionRow|
            if r.permission_id == permission_id && r.action_id == action_id {
                PermissionActionRow { permission_id, action_id, allowed }
            } else {
                r
            },
    )
}

/// The tables after a list of writes, in order.
pub open spec fn apply_edits(t: RbacTables, edits: Seq<RbacEdit>) -> RbacTables
    decreases edits.len(),
{
    if edits.len() == 0 {
        t
    } else {
        apply_edit(apply_edits(t, edits.drop_last()), edits.last())
    }
}

/// The action rows of permission `from`, copied to permission `to`, in order.
pub open spec fn copy_rows(pas: Seq<PermissionActionRow>, from: u128, to: u128) -> Seq<
    PermissionActionRow,
>
    decreases pas.len(),
{
    if pas.len() == 0 {
        Seq::empty()
    } else {
        let rest = copy_rows(pas.drop_last(), from, to);
        if pas.last().permission_id == from {
            rest.push(
                PermissionActionRow {
                    permission_id: to,
                    action_id: pas.last().action_id,
                    allowed: pas.last().allowed,
                },
            )
        } else {
            rest
        }
    }
}

/// The insertion of a permission-action row.
pub open spec fn insert_row(r: PermissionActionRow) -> RbacEdit {
    RbacEdit::InsertPermissionAction {
        permission_id: r.permission_id,
        action_id: r.action_id,
        allowed: r.allowed,
    }
}

/// How many links point at permission `pid`.
pub open spec fn links_to(links: Seq<RolePermissionRow>, pid: u128) -> nat
    decreases links.len(),
{
    if links.len() == 0 {
        0
    } else {
        links_to(links.drop_last(), pid) + if links.last().permission_id == pid {
            1nat
        } else {
            0nat
        }
    }
}

/// Whether a row exists for (`pid`, `aid`).
pub open spec fn has_row(pas: Seq<PermissionActionRow>, pid: u128, aid: u128) -> bool {
    exists|i: int| 0 <= i < pas.len() && #[trigger] pas[i].permission_id == pid && pas[i].action_id == aid
}

/// The writes that prepare the permission to edit, and that permission.
pub open spec fn toggle_prefix(
    t: RbacTables,
    role_id: u128,
    resource_id: u128,
    fresh: u128,
) -> (Seq<RbacEdit>, u128) {
    match target_perm(t.0, t.1, role_id, resource_id) {
        Some(pid) => if links_to(t.0, pid) > 1 {
            (
                seq![RbacEdit::InsertPermission { id: fresh, resource_id }] + copy_rows(
                    t.2,
                    pid,
                    fresh,
                ).map_values(|r: PermissionActionRow| insert_row(r)) + seq![
                    RbacEdit::DeleteLink { role_id, permission_id: pid },
                    RbacEdit::InsertLink { role_id, permission_id: fresh },
                ],
                fresh,
            )
        } else {
            (Seq::empty(), pid)
        },
        None => (
            seq![
                RbacEdit::InsertPermission { id: fresh, resource_id },
                RbacEdit::InsertLink { role_id, permission_id: fresh },
            ],
            fresh,
        ),
    }
}

/// The writes of a toggle of (`role_id`, `resource_id`, `action_id`) to
/// `allowed`; `fresh` is the id a new permission gets.
pub open spec fn toggle_edit_list(
    t: RbacTables,
    role_id: u128,
    resource_id: u128,
    action_id: u128,
    allowed: bool,
    fresh: u128,
) -> Seq<RbacEdit> {
    let (pre, pid) = toggle_prefix(t, role_id, resource_id, fresh);
    let after = apply_edits(t, pre);
    pre.push(
        if has_row(after.2, pid, action_id) {
            RbacEdit::UpdatePermissionAction { permission_id: pid, action_id, allowed }
        } else {
            RbacEdit::InsertPermissionAction { permission_id: pid, action_id, allowed }
        },
    )
}

// ---------------------------------------------------------------------------
// Lemmas on the writes
// ---------------------------------------------------------------------------

proof fn lemma_apply_concat(t: RbacTables, a: Seq<RbacEdit>, b: Seq<RbacEdit>)
    ensures
        apply_edits(t, a + b) == apply_edits(apply_edits(t, a), b),
    decreases b.len(),
{
    if b.len() == 0 {
        assert(a + b =~= a);
    } else {
        assert((a + b).drop_last() =~= a + b.drop_last());
        lemma_apply_concat(t, a, b.drop_last());
    }
}

proof fn lemma_apply_inserts(t: RbacTables, rows: Seq<PermissionActionRow>)
    ensures
        apply_edits(t, rows.map_values(|r: PermissionActionRow| insert_row(r))) == (
            t.0,
            t.1,
            t.2 + rows,
        ),
    decreases rows.len(),
{
    let edits = rows.map_values(|r: PermissionActionRow| insert_row(r));
    if rows.len() == 0 {
        assert(edits =~= Seq::<RbacEdit>::empty());
        assert(t.2 + rows =~= t.2);
    } else {
        assert(edits.drop_last() =~= rows.drop_last().map_values(
            |r: PermissionActionRow| insert_row(r),
        ));
        lemma_apply_inserts(t, rows.drop_last());
        assert((t.2 + rows.drop_last()).push(rows.last()) =~= t.2 + rows);
    }
}

/// The tables after the prefix of a toggle.
proof fn lemma_prefix_tables(t: RbacTables, role_id: u128, resource_id: u128, fresh: u128)
    ensures
        ({
            let (pre, pid) = toggle_prefix(t, role_id, resource_id, fresh);
            let after = apply_edits(t, pre);
            match target_perm(t.0, t.1, role_id, resource_id) {
                Some(p) => if links_to(t.0, p) > 1 {
                    &&& pid == fresh
                    &&& after.0 == without_link(t.0, role_id, p).push(
                        RolePermissionRow { role_id, permission_id: fresh },
                    )
                    &&& after.1 == t.1.push(PermissionRow { id: fresh, resource_id })
                    &&& after.2 == t.2 + copy_rows(t.2, p, fresh)
                } else {
                    &&& pid == p
                    &&& after == t
                },
                None => {
                    &&& pid == fresh
                    &&& after.0 == t.0.push(RolePermissionRow { role_id, permission_id: fresh })
                    &&& after.1 == t.1.push(PermissionRow { id: fresh, resource_id })
                    &&& after.2 == t.2
                },
            }
        }),
{
    reveal_with_fuel(apply_edits, 3);
    let (pre, pid) = toggle_prefix(t, role_id, resource_id, fresh);
    match target_perm(t.0, t.1, role_id, resource_id) {
        Some(p) => if links_to(t.0, p) > 1 {
            let first = seq![RbacEdit::InsertPermission { id: fresh, resource_id }];
            let copies = copy_rows(t.2, p, fresh).map_values(|r: PermissionActionRow| insert_row(r));
            let last = seq![
                RbacEdit::DeleteLink { role_id, permission_id: p },
                RbacEdit::InsertLink { role_id, permission_id: fresh },
            ];
            assert(pre == first + copies + last);
            lemma_apply_concat(t, first + copies, last);
            lemma_apply_concat(t, first, copies);
            assert(first.drop_last() =~= Seq::<RbacEdit>::empty());
            let t1 = apply_edits(t, first);
            assert(t1 == (t.0, t.1.push(PermissionRow { id: fresh, resource_id }), t.2));
            lemma_apply_inserts(t1, copy_rows(t.2, p, fresh));
            let t2 = apply_edits(t1, copies);
            assert(last.drop_last().drop_last() =~= Seq::<RbacEdit>::empty());
            assert(last.drop_last().last() == RbacEdit::DeleteLink { role_id, permission_id: p });
            assert(apply_edits(t2, last) == apply_edit(
                apply_edit(t2, RbacEdit::DeleteLink { role_id, permission_id: p }),
                RbacEdit::InsertLink { role_id, permission_id: fresh },
            ));
        } else {
        },
        None => {
            assert(pre.drop_last().drop_last() =~= Seq::<RbacEdit>::empty());
            assert(pre.drop_last().last() == RbacEdit::InsertPermission { id: fresh, resource_id });
        },
    }
}

// ---------------------------------------------------------------------------
// Computing the writes
// ---------------------------------------------------------------------------

fn count_links_to(links: &Vec<RolePermissionRow>, pid: u128) -> (n: u64)
    ensures
        n == links_to(links@, pid),
{
    let mut n: u64 = 0;
    for i in 0..links.len()
        invariant
            n == links_to(links@.take(i as int), pid),
            n <= i,
    {
        assert(links@.take(i + 1).drop_last() == links@.take(i as int));
        if links[i].permission_id == pid {
            n = n + 1;
        }
    }
    assert(links@.take(links.len() as int) == links@);
    n
}

fn has_row_exec(pas: &Vec<PermissionActionRow>, pid: u128, aid: u128) -> (r: bool)
    ensures
        r == has_row(pas@, pid, aid),
{
    for i in 0..pas.len()
        invariant
            forall|j: int|
                0 <= j < i ==> !(#[trigger] pas@[j].permission_id == pid && pas@[j].action_id == aid),
    {
        if pas[i].permission_id == pid && pas[i].action_id == aid {
            return true;
        }
    }
    false
}

fn push_copies(pas: &Vec<PermissionActionRow>, from: u128, to: u128, edits: &mut Vec<RbacEdit>)
    ensures
        final(edits)@ == old(edits)@ + copy_rows(pas@, from, to).map_values(
            |r: PermissionActionRow| insert_row(r),
        ),
{
    let ghost start = edits@;
    for i in 0..pas.len()
        invariant
            edits@ == start + copy_rows(pas@.take(i as int), from, to).map_values(
                |r: PermissionActionRow| insert_row(r),
            ),
    {
        let ghost before = edits@;
        assert(pas@.take(i + 1).drop_last() == pas@.take(i as int));
        assert(pas@.take(i + 1).last() == pas@[i as int]);
        if pas[i].permission_id == from {
            edits.push(
                RbacEdit::InsertPermissionAction {
                    permission_id: to,
                    action_id: pas[i].action_id,
                    allowed: pas[i].allowed,
                },
            );
            assert(copy_rows(pas@.take(i + 1), from, to) == copy_rows(
                pas@.take(i as int),
                from,
                to,
            ).push(
                PermissionActionRow {
                    permission_id: to,
                    action_id: pas@[i as int].action_id,
                    allowed: pas@[i as int].allowed,
                },
            ));
            assert(edits@ =~= start + copy_rows(pas@.take(i + 1), from, to).map_values(
                |r: PermissionActionRow| insert_row(r),
            ));
        }
    }
    assert(pas@.take(pas.len() as int) == pas@);
}

/// The writes that flip the cell (`role_id`, `resource_id`, `action_id`) of
/// the matrix to `allowed`, given the current tables; `fresh` is the id a new
/// permission gets.
pub fn toggle_edits(
    links: &Vec<RolePermissionRow>,
    perms: &Vec<PermissionRow>,
    pas: &Vec<PermissionActionRow>,
    role_id: u128,
    resource_id: u128,
    action_id: u128,
    allowed: bool,
    fresh: u128,
) -> (edits: Vec<RbacEdit>)
    ensures
        edits@ == toggle_edit_list(
            (links@, perms@, pas@),
            role_id,
            resource_id,
            action_id,
            allowed,
            fresh,
        ),
{
    let ghost t: RbacTables = (links@, perms@, pas@);
    proof {
        lemma_prefix_tables(t, role_id, resource_id, fresh);
    }
    let target = find_toggle_target(links, perms, role_id, resource_id);
    let count: u64 = match target {
        Some(pid) => count_links_to(links, pid),
        None => 0,
    };
    let mut edits: Vec<RbacEdit> = Vec::new();
    let edit_id: u128;
    let exists: bool;
    match toggle_edit_plan(target, count) {
        PermissionEditPlan::Reuse(pid) => {
            edit_id = pid;
            exists = has_row_exec(pas, pid, action_id);
        },
        PermissionEditPlan::CloneShared(pid) => {
            edits.push(RbacEdit::InsertPermission { id: fresh, resource_id });
            push_copies(pas, pid, fresh, &mut edits);
            edits.push(RbacEdit::DeleteLink { role_id, permission_id: pid });
            edits.push(RbacEdit::InsertLink { role_id, permission_id: fresh });
            edit_id = fresh;
            let in_table = has_row_exec(pas, fresh, action_id);
            let in_copies = has_row_exec(pas, pid, action_id);
            exists = in_table || in_copies;
            proof {
                lemma_copy_rows(pas@, pid, fresh);
                lemma_has_row_concat(pas@, copy_rows(pas@, pid, fresh), fresh, action_id);
                assert(edits@ =~= toggle_prefix(t, role_id, resource_id, fresh).0);
            }
        },
        PermissionEditPlan::CreateNew => {
            edits.push(RbacEdit::InsertPermission { id: fresh, resource_id });
            edits.push(RbacEdit::InsertLink { role_id, permission_id: fresh });
            edit_id = fresh;
            exists = has_row_exec(pas, fresh, action_id);
            proof {
                assert(edits@ =~= toggle_prefix(t, role_id, resource_id, fresh).0);
            }
        },
    }
    if exists {
        edits.push(RbacEdit::UpdatePermissionAction { permission_id: edit_id, action_id, allowed });
    } else {
        edits.push(RbacEdit::InsertPermissionAction { permission_id: edit_id, action_id, allowed });
    }
    edits
}

/// The copies hold the rows of `from`, under `to`.
proof fn lemma_copy_rows(pas: Seq<PermissionActionRow>, from: u128, to: u128)
    ensures
        forall|k: int|
            0 <= k < copy_rows(pas, from, to).len() ==> (#[trigger] copy_rows(
                pas,
                from,
                to,
            )[k]).permission_id == to,
        forall|aid: u128, allowed: bool|
            copy_rows(pas, from, to).contains(
                PermissionActionRow { permission_id: to, action_id: aid, allowed },
            ) <==> pas.contains(PermissionActionRow { permission_id: from, action_id: aid, allowed }),
        forall|aid: u128| has_row(copy_rows(pas, from, to), to, aid) <==> has_row(pas, from, aid),
    decreases pas.len(),
{
    lemma_copy_rows_contains(pas, from, to);
    let c = copy_rows(pas, from, to);
    assert forall|aid: u128| has_row(c, to, aid) <==> has_row(pas, from, aid) by {
        if has_row(c, to, aid) {
            let k = choose|k: int| 0 <= k < c.len() && #[trigger] c[k].permission_id == to && c[k].action_id == aid;
            let row = PermissionActionRow { permission_id: to, action_id: aid, allowed: c[k].allowed };
            assert(c[k] == row);
            assert(c.contains(row));
            let prow = PermissionActionRow { permission_id: from, action_id: aid, allowed: c[k].allowed };
            assert(pas.contains(prow));
            let i = choose|i: int| 0 <= i < pas.len() && pas[i] == prow;
            assert(pas[i].permission_id == from && pas[i].action_id == aid);
        }
        if has_row(pas, from, aid) {
            let i = choose|i: int| 0 <= i < pas.len() && #[trigger] pas[i].permission_id == from && pas[i].action_id == aid;
            let prow = PermissionActionRow { permission_id: from, action_id: aid, allowed: pas[i].allowed };
            assert(pas[i] == prow);
            assert(pas.contains(prow));
            let row = PermissionActionRow { permission_id: to, action_id: aid, allowed: pas[i].allowed };
            assert(c.contains(row));
            let k = choose|k: int| 0 <= k < c.len() && c[k] == row;
            assert(c[k].permission_id == to && c[k].action_id == aid);
        }
    }
}

proof fn lemma_copy_rows_contains(pas: Seq<PermissionActionRow>, from: u128, to: u128)
    ensures
        forall|k: int|
            0 <= k < copy_rows(pas, from, to).len() ==> (#[trigger] copy_rows(
                pas,
                from,
                to,
            )[k]).permission_id == to,
        forall|aid: u128, allowed: bool|
            copy_rows(pas, from, to).contains(
                PermissionActionRow { permission_id: to, action_id: aid, allowed },
            ) <==> pas.contains(PermissionActionRow { permission_id: from, action_id: aid, allowed }),
    decreases pas.len(),
{
    if pas.len() > 0 {
        let rest = pas.drop_last();
        lemma_copy_rows_contains(rest, from, to);
        let c = copy_rows(pas, from, to);
        let cr = copy_rows(rest, from, to);
        assert forall|aid: u128, allowed: bool|
            c.contains(PermissionActionRow { permission_id: to, action_id: aid, allowed })
                <==> pas.contains(
                PermissionActionRow { permission_id: from, action_id: aid, allowed },
            ) by {
            let want_c = PermissionActionRow { permission_id: to, action_id: aid, allowed };
            let want_p = PermissionActionRow { permission_id: from, action_id: aid, allowed };
            if pas.contains(want_p) {
                let i = choose|i: int| 0 <= i < pas.len() && pas[i] == want_p;
                if i == pas.len() - 1 {
                    assert(c[c.len() - 1] == want_c);
                } else {
                    assert(rest[i] == want_p);
                    assert(rest.contains(want_p));
                    assert(cr.contains(want_c));
                    let k = choose|k: int| 0 <= k < cr.len() && cr[k] == want_c;
                    assert(c[k] == want_c);
                }
            }
            if c.contains(want_c) {
                let k = choose|k: int| 0 <= k < c.len() && c[k] == want_c;
                if k < cr.len() {
                    assert(cr[k] == want_c);
                    assert(cr.contains(want_c));
                    assert(rest.contains(want_p));
                    let i = choose|i: int| 0 <= i < rest.len() && rest[i] == want_p;
                    assert(pas[i] == want_p);
                } else {
                    assert(pas[pas.len() - 1] == want_p);
                }
            }
        }
    }
}

proof fn lemma_has_row_concat(
    a: Seq<PermissionActionRow>,
    b: Seq<PermissionActionRow>,
    pid: u128,
    aid: u128,
)
    ensures
        has_row(a + b, pid, aid) == (has_row(a, pid, aid) || has_row(b, pid, aid)),
{
    if has_row(a + b, pid, aid) {
        let i = choose|i: int|
            0 <= i < (a + b).len() && #[trigger] (a + b)[i].permission_id == pid && (a
                + b)[i].action_id == aid;
        if i < a.len() {
            assert(a[i] == (a + b)[i]);
        } else {
            assert(b[i - a.len()] == (a + b)[i]);
        }
    }
    if has_row(a, pid, aid) {
        let i = choose|i: int| 0 <= i < a.len() && #[trigger] a[i].permission_id == pid && a[i].action_id == aid;
        assert((a + b)[i] == a[i]);
    }
    if has_row(b, pid, aid) {
        let i = choose|i: int| 0 <= i < b.len() && #[trigger] b[i].permission_id == pid && b[i].action_id == aid;
        assert((a + b)[a.len() + i] == b[i]);
    }
}

// ---------------------------------------------------------------------------
// What a toggle does to the matrix
// ---------------------------------------------------------------------------

/// Each role holds at most one permission per resource.
pub open spec fn one_permission_per_role_resource(
    links: Seq<RolePermissionRow>,
    perms: Seq<PermissionRow>,
) -> bool {
    forall|r: u128, p1: u128, p2: u128|
        #![trigger links.contains(RolePermissionRow { role_id: r, permission_id: p1 }), links.contains(RolePermissionRow { role_id: r, permission_id: p2 })]
        links.contains(RolePermissionRow { role_id: r, permission_id: p1 }) && links.contains(
            RolePermissionRow { role_id: r, permission_id: p2 },
        ) && perm_resource(perms, p1) is Some && perm_resource(perms, p1) == perm_resource(
            perms,
            p2,
        ) ==> p1 == p2
}

/// No link, permission or permission-action row uses `id`.
pub open spec fn unused_permission_id(t: RbacTables, id: u128) -> bool {
    &&& forall|i: int| 0 <= i < t.0.len() ==> (#[trigger] t.0[i]).permission_id != id
    &&& forall|i: int| 0 <= i < t.1.len() ==> (#[trigger] t.1[i]).id != id
    &&& forall|i: int| 0 <= i < t.2.len() ==> (#[trigger] t.2[i]).permission_id != id
}

/// A cell read from the rows: some permission of the role on the resource
/// allows the action.
spec fn cell_rows(t: RbacTables, r: u128, x: u128, a: u128) -> bool {
    exists|p: u128|
        #![trigger t.0.contains(RolePermissionRow { role_id: r, permission_id: p })]
        t.0.contains(RolePermissionRow { role_id: r, permission_id: p }) && perm_resource(t.1, p)
            == Some(x) && perm_allows(t.2, p, a)
}

proof fn lemma_target_found(links: Seq<RolePermissionRow>, perms: Seq<PermissionRow>, r: u128, x: u128)
    ensures
        target_perm(links, perms, r, x) matches Some(p) ==> links.contains(
            RolePermissionRow { role_id: r, permission_id: p },
        ) && perm_resource(perms, p) == Some(x),
    decreases links.len(),
{
    if links.len() > 0 {
        lemma_target_found(links.drop_first(), perms, r, x);
        if !(links[0].role_id == r && perm_resource(perms, links[0].permission_id) == Some(x)) {
            if let Some(p) = target_perm(links, perms, r, x) {
                let l = RolePermissionRow { role_id: r, permission_id: p };
                let k = choose|k: int| 0 <= k < links.drop_first().len() && links.drop_first()[k] == l;
                assert(links[k + 1] == l);
            }
        } else {
            assert(links[0] == RolePermissionRow { role_id: r, permission_id: links[0].permission_id });
        }
    }
}

proof fn lemma_target_exists(
    links: Seq<RolePermissionRow>,
    perms: Seq<PermissionRow>,
    r: u128,
    x: u128,
    p: u128,
)
    requires
        links.contains(RolePermissionRow { role_id: r, permission_id: p }),
        perm_resource(perms, p) == Some(x),
    ensures
        target_perm(links, perms, r, x) is Some,
    decreases links.len(),
{
    let l = RolePermissionRow { role_id: r, permission_id: p };
    let k = choose|k: int| 0 <= k < links.len() && links[k] == l;
    if k > 0 && !(links[0].role_id == r && perm_resource(perms, links[0].permission_id) == Some(x)) {
        assert(links.drop_first()[k - 1] == l);
        lemma_target_exists(links.drop_first(), perms, r, x, p);
    }
}

/// With one permission per role and resource, a cell is what the rows say.
proof fn lemma_cell(t: RbacTables, r: u128, x: u128, a: u128)
    requires
        one_permission_per_role_resource(t.0, t.1),
    ensures
        cell_allowed(t.0, t.1, t.2, r, x, a) == cell_rows(t, r, x, a),
{
    lemma_target_found(t.0, t.1, r, x);
    match target_perm(t.0, t.1, r, x) {
        Some(p) => {
            assert(t.0.contains(RolePermissionRow { role_id: r, permission_id: p }));
        },
        None => {
            if cell_rows(t, r, x, a) {
                let p = choose|p: u128|
                    #![trigger t.0.contains(RolePermissionRow { role_id: r, permission_id: p })]
                    t.0.contains(RolePermissionRow { role_id: r, permission_id: p }) && perm_resource(
                        t.1,
                        p,
                    ) == Some(x) && perm_allows(t.2, p, a);
                lemma_target_exists(t.0, t.1, r, x, p);
            }
        },
    }
}

proof fn lemma_perm_resource_push(perms: Seq<PermissionRow>, row: PermissionRow, p: u128)
    ensures
        perm_resource(perms.push(row), p) == if row.id == p {
            Some(row.resource_id)
        } else {
            perm_resource(perms, p)
        },
{
    assert(perms.push(row).drop_last() =~= perms);
}

proof fn lemma_perm_resource_unused(perms: Seq<PermissionRow>, id: u128)
    requires
        forall|i: int| 0 <= i < perms.len() ==> (#[trigger] perms[i]).id != id,
    ensures
        perm_resource(perms, id) is None,
    decreases perms.len(),
{
    if perms.len() > 0 {
        assert(perms[perms.len() - 1].id != id);
        assert forall|i: int| 0 <= i < perms.drop_last().len() implies (
        #[trigger] perms.drop_last()[i]).id != id by {
            assert(perms.drop_last()[i] == perms[i]);
        }
        lemma_perm_resource_unused(perms.drop_last(), id);
    }
}

proof fn lemma_allows_contains(pas: Seq<PermissionActionRow>, p: u128, a: u128)
    ensures
        perm_allows(pas, p, a) == pas.contains(
            PermissionActionRow { permission_id: p, action_id: a, allowed: true },
        ),
{
    let row = PermissionActionRow { permission_id: p, action_id: a, allowed: true };
    if pas.contains(row) {
        let i = choose|i: int| 0 <= i < pas.len() && pas[i] == row;
        assert(pas[i].permission_id == p && pas[i].allowed && pas[i].action_id == a);
    }
    if perm_allows(pas, p, a) {
        let i = choose|i: int|
            0 <= i < pas.len() && #[trigger] pas[i].permission_id == p && pas[i].allowed
                && pas[i].action_id == a;
        assert(pas[i] == row);
    }
}

proof fn lemma_allows_unused(pas: Seq<PermissionActionRow>, f: u128, a: u128)
    requires
        forall|i: int| 0 <= i < pas.len() ==> (#[trigger] pas[i]).permission_id != f,
    ensures
        !perm_allows(pas, f, a),
{
}

/// The rows after the last write of a toggle on (`pid`, `a0`).
proof fn lemma_set_cell(
    pas: Seq<PermissionActionRow>,
    pid: u128,
    a0: u128,
    allowed: bool,
    p: u128,
    a: u128,
)
    ensures
        perm_allows(
            if has_row(pas, pid, a0) {
                set_allowed(pas, pid, a0, allowed)
            } else {
                pas.push(PermissionActionRow { permission_id: pid, action_id: a0, allowed })
            },
            p,
            a,
        ) == if p == pid && a == a0 {
            allowed
        } else {
            perm_allows(pas, p, a)
        },
{
    let row = PermissionActionRow { permission_id: pid, action_id: a0, allowed };
    let q = if has_row(pas, pid, a0) {
        set_allowed(pas, pid, a0, allowed)
    } else {
        pas.push(row)
    };
    let want = if p == pid && a == a0 {
        allowed
    } else {
        perm_allows(pas, p, a)
    };
    if has_row(pas, pid, a0) {
        assert(q.len() == pas.len());
        assert forall|i: int| 0 <= i < q.len() implies #[trigger] q[i] == (if pas[i].permission_id
            == pid && pas[i].action_id == a0 {
            row
        } else {
            pas[i]
        }) by {}
        let k = choose|k: int|
            0 <= k < pas.len() && #[trigger] pas[k].permission_id == pid && pas[k].action_id == a0;
        assert(q[k] == row);
    } else {
        assert(q.len() == pas.len() + 1);
        assert forall|i: int| 0 <= i < pas.len() implies #[trigger] q[i] == pas[i] by {}
        assert(q[pas.len() as int] == row);
    }
    if perm_allows(q, p, a) {
        let i = choose|i: int|
            0 <= i < q.len() && #[trigger] q[i].permission_id == p && q[i].allowed && q[i].action_id == a;
        if !(p == pid && a == a0) {
            assert(q[i] == pas[i]);
            assert(pas[i].permission_id == p && pas[i].allowed && pas[i].action_id == a);
        }
        assert(want);
    }
    if want {
        if p == pid && a == a0 {
            if has_row(pas, pid, a0) {
                let k = choose|k: int|
                    0 <= k < pas.len() && #[trigger] pas[k].permission_id == pid && pas[k].action_id
                        == a0;
                assert(q[k].permission_id == p && q[k].allowed && q[k].action_id == a);
            } else {
                let k = pas.len() as int;
                assert(q[k].permission_id == p && q[k].allowed && q[k].action_id == a);
            }
        } else {
            let i = choose|i: int|
                0 <= i < pas.len() && #[trigger] pas[i].permission_id == p && pas[i].allowed
                    && pas[i].action_id == a;
            assert(q[i] == pas[i]);
            assert(q[i].permission_id == p && q[i].allowed && q[i].action_id == a);
        }
        assert(perm_allows(q, p, a));
    }
}

/// The rows after copying the rows of `pid` to the unused `f`.
proof fn lemma_allows_copies(pas: Seq<PermissionActionRow>, pid: u128, f: u128, p: u128, a: u128)
    requires
        forall|i: int| 0 <= i < pas.len() ==> (#[trigger] pas[i]).permission_id != f,
    ensures
        perm_allows(pas + copy_rows(pas, pid, f), p, a) == if p == f {
            perm_allows(pas, pid, a)
        } else {
            perm_allows(pas, p, a)
        },
{
    let c = copy_rows(pas, pid, f);
    let q = pas + c;
    lemma_copy_rows_contains(pas, pid, f);
    lemma_allows_contains(q, p, a);
    lemma_allows_contains(pas, p, a);
    lemma_allows_contains(pas, pid, a);
    lemma_allows_contains(c, p, a);
    let row = PermissionActionRow { permission_id: p, action_id: a, allowed: true };
    vstd::seq_lib::lemma_seq_concat_contains_all_elements(pas, c, row);
    if p == f {
        assert(!pas.contains(row));
    } else {
        if c.contains(row) {
            let k = choose|k: int| 0 <= k < c.len() && c[k] == row;
            assert(c[k].permission_id == f);
        }
    }
}

/// When a single link points at `pid`, the links of `r1` and `r2` to `pid`
/// are one: the roles are the same.
proof fn lemma_single_link(links: Seq<RolePermissionRow>, pid: u128, r1: u128, r2: u128)
    requires
        links_to(links, pid) <= 1,
        links.contains(RolePermissionRow { role_id: r1, permission_id: pid }),
        links.contains(RolePermissionRow { role_id: r2, permission_id: pid }),
    ensures
        r1 == r2,
{
    if r1 != r2 {
        let i = choose|i: int|
            0 <= i < links.len() && links[i] == RolePermissionRow { role_id: r1, permission_id: pid };
        let j = choose|j: int|
            0 <= j < links.len() && links[j] == RolePermissionRow { role_id: r2, permission_id: pid };
        lemma_links_to_two(links, pid, i, j);
    }
}

proof fn lemma_links_to_pos(links: Seq<RolePermissionRow>, pid: u128, i: int)
    requires
        0 <= i < links.len(),
        links[i].permission_id == pid,
    ensures
        links_to(links, pid) >= 1,
    decreases links.len(),
{
    if i < links.len() - 1 {
        assert(links.drop_last()[i] == links[i]);
        lemma_links_to_pos(links.drop_last(), pid, i);
    }
}

proof fn lemma_links_to_two(links: Seq<RolePermissionRow>, pid: u128, i: int, j: int)
    requires
        0 <= i < links.len(),
        0 <= j < links.len(),
        i != j,
        links[i].permission_id == pid,
        links[j].permission_id == pid,
    ensures
        links_to(links, pid) >= 2,
    decreases links.len(),
{
    let n = links.len() - 1;
    if i == n {
        assert(links.drop_last()[j] == links[j]);
        lemma_links_to_pos(links.drop_last(), pid, j);
    } else if j == n {
        assert(links.drop_last()[i] == links[i]);
        lemma_links_to_pos(links.drop_last(), pid, i);
    } else {
        assert(links.drop_last()[i] == links[i]);
        assert(links.drop_last()[j] == links[j]);
        lemma_links_to_two(links.drop_last(), pid, i, j);
    }
}

proof fn lemma_without_link(links: Seq<RolePermissionRow>, r0: u128, p0: u128, l: RolePermissionRow)
    ensures
        without_link(links, r0, p0).contains(l) == (links.contains(l) && !(l.role_id == r0
            && l.permission_id == p0)),
{
    let pred = |k: RolePermissionRow| !(k.role_id == r0 && k.permission_id == p0);
    let w = links.filter(pred);
    assert(w == without_link(links, r0, p0));
    if w.contains(l) {
        links.lemma_filter_contains_rev(pred, l);
        let k = choose|k: int| 0 <= k < w.len() && w[k] == l;
        links.lemma_filter_pred(pred, k);
    }
    if links.contains(l) && pred(l) {
        let i = choose|i: int| 0 <= i < links.len() && links[i] == l;
        links.lemma_filter_contains(pred, i);
    }
}

/// The tables after a toggle.
pub open spec fn toggled(
    t: RbacTables,
    role_id: u128,
    resource_id: u128,
    action_id: u128,
    allowed: bool,
    fresh: u128,
) -> RbacTables {
    apply_edits(t, toggle_edit_list(t, role_id, resource_id, action_id, allowed, fresh))
}

/// The tables after a toggle, described row by row.
proof fn lemma_toggled_rows(
    t: RbacTables,
    role_id: u128,
    resource_id: u128,
    action_id: u128,
    allowed: bool,
    fresh: u128,
)
    requires
        unused_permission_id(t, fresh),
    ensures
        ({
            let u = toggled(t, role_id, resource_id, action_id, allowed, fresh);
            let target = target_perm(t.0, t.1, role_id, resource_id);
            let clone = target matches Some(pid) && links_to(t.0, pid) > 1;
            let edit_id = match target {
                Some(pid) => if clone {
                    fresh
                } else {
                    pid
                },
                None => fresh,
            };
            &&& forall|l: RolePermissionRow|
                #![trigger u.0.contains(l)]
                u.0.contains(l) == (match target {
                    Some(pid) => if clone {
                        l == RolePermissionRow { role_id, permission_id: fresh } || (t.0.contains(l)
                            && !(l.role_id == role_id && l.permission_id == pid))
                    } else {
                        t.0.contains(l)
                    },
                    None => l == RolePermissionRow { role_id, permission_id: fresh } || t.0.contains(
                        l,
                    ),
                })
            &&& forall|p: u128|
                #![trigger perm_resource(u.1, p)]
                perm_resource(u.1, p) == if p == fresh && edit_id == fresh {
                    Some(resource_id)
                } else {
                    perm_resource(t.1, p)
                }
            &&& forall|p: u128, a: u128|
                #![trigger perm_allows(u.2, p, a)]
                perm_allows(u.2, p, a) == if p == edit_id && a == action_id {
                    allowed
                } else if p == fresh && clone {
                    perm_allows(t.2, target->0, a)
                } else {
                    perm_allows(t.2, p, a)
                }
        }),
{
    let (pre, pid_edit) = toggle_prefix(t, role_id, resource_id, fresh);
    let mid = apply_edits(t, pre);
    lemma_prefix_tables(t, role_id, resource_id, fresh);
    let edits = toggle_edit_list(t, role_id, resource_id, action_id, allowed, fresh);
    assert(edits.drop_last() =~= pre);
    let u = toggled(t, role_id, resource_id, action_id, allowed, fresh);
    assert(u.0 == mid.0 && u.1 == mid.1);
    assert(u.2 == if has_row(mid.2, pid_edit, action_id) {
        set_allowed(mid.2, pid_edit, action_id, allowed)
    } else {
        mid.2.push(PermissionActionRow { permission_id: pid_edit, action_id, allowed })
    });
    let target = target_perm(t.0, t.1, role_id, resource_id);
    let new_link = RolePermissionRow { role_id, permission_id: fresh };
    let new_perm = PermissionRow { id: fresh, resource_id };
    match target {
        Some(pid) => if links_to(t.0, pid) > 1 {
            assert forall|l: RolePermissionRow| #![trigger u.0.contains(l)]
                u.0.contains(l) == (l == new_link || (t.0.contains(l) && !(l.role_id == role_id
                    && l.permission_id == pid))) by {
                vstd::seq_lib::lemma_seq_contains_after_push(without_link(t.0, role_id, pid), new_link, l);
                lemma_without_link(t.0, role_id, pid, l);
            }
            assert forall|p: u128| #![trigger perm_resource(u.1, p)]
                perm_resource(u.1, p) == if p == fresh {
                    Some(resource_id)
                } else {
                    perm_resource(t.1, p)
                } by {
                lemma_perm_resource_push(t.1, new_perm, p);
            }
            assert forall|p: u128, a: u128| #![trigger perm_allows(u.2, p, a)]
                perm_allows(u.2, p, a) == if p == fresh && a == action_id {
                    allowed
                } else if p == fresh {
                    perm_allows(t.2, pid, a)
                } else {
                    perm_allows(t.2, p, a)
                } by {
                lemma_set_cell(mid.2, fresh, action_id, allowed, p, a);
                lemma_allows_copies(t.2, pid, fresh, p, a);
            }
        } else {
            lemma_target_found(t.0, t.1, role_id, resource_id);
            let l = RolePermissionRow { role_id, permission_id: pid };
            let k = choose|k: int| 0 <= k < t.0.len() && t.0[k] == l;
            assert(t.0[k].permission_id != fresh);
            assert forall|p: u128, a: u128| #![trigger perm_allows(u.2, p, a)]
                perm_allows(u.2, p, a) == if p == pid && a == action_id {
                    allowed
                } else {
                    perm_allows(t.2, p, a)
                } by {
                lemma_set_cell(mid.2, pid, action_id, allowed, p, a);
            }
        },
        None => {
            assert forall|l: RolePermissionRow| #![trigger u.0.contains(l)]
                u.0.contains(l) == (l == new_link || t.0.contains(l)) by {
                vstd::seq_lib::lemma_seq_contains_after_push(t.0, new_link, l);
            }
            assert forall|p: u128| #![trigger perm_resource(u.1, p)]
                perm_resource(u.1, p) == if p == fresh {
                    Some(resource_id)
                } else {
                    perm_resource(t.1, p)
                } by {
                lemma_perm_resource_push(t.1, new_perm, p);
            }
            assert forall|p: u128, a: u128| #![trigger perm_allows(u.2, p, a)]
                perm_allows(u.2, p, a) == if p == fresh && a == action_id {
                    allowed
                } else {
                    perm_allows(t.2, p, a)
                } by {
                lemma_set_cell(mid.2, fresh, action_id, allowed, p, a);
            }
        },
    }
}

/// A toggle keeps every role at one permission per resource.
pub proof fn toggle_keeps_one_permission_per_role_resource(
    t: RbacTables,
    role_id: u128,
    resource_id: u128,
    action_id: u128,
    allowed: bool,
    fresh: u128,
)
    requires
        one_permission_per_role_resource(t.0, t.1),
        unused_permission_id(t, fresh),
    ensures
        ({
            let u = toggled(t, role_id, resource_id, action_id, allowed, fresh);
            one_permission_per_role_resource(u.0, u.1)
        }),
{
    let u = toggled(t, role_id, resource_id, action_id, allowed, fresh);
    lemma_toggled_rows(t, role_id, resource_id, action_id, allowed, fresh);
    lemma_target_found(t.0, t.1, role_id, resource_id);
    lemma_perm_resource_unused(t.1, fresh);
    let target = target_perm(t.0, t.1, role_id, resource_id);
    assert forall|r: u128, p1: u128, p2: u128|
        #![trigger u.0.contains(RolePermissionRow { role_id: r, permission_id: p1 }), u.0.contains(RolePermissionRow { role_id: r, permission_id: p2 })]
        u.0.contains(RolePermissionRow { role_id: r, permission_id: p1 }) && u.0.contains(
            RolePermissionRow { role_id: r, permission_id: p2 },
        ) && perm_resource(u.1, p1) is Some && perm_resource(u.1, p1) == perm_resource(u.1, p2)
        implies p1 == p2 by {
        let l1 = RolePermissionRow { role_id: r, permission_id: p1 };
        let l2 = RolePermissionRow { role_id: r, permission_id: p2 };
        // A link to `fresh` in the old tables is impossible.
        if t.0.contains(l1) {
            let k = choose|k: int| 0 <= k < t.0.len() && t.0[k] == l1;
            assert(t.0[k].permission_id != fresh);
        }
        if t.0.contains(l2) {
            let k = choose|k: int| 0 <= k < t.0.len() && t.0[k] == l2;
            assert(t.0[k].permission_id != fresh);
        }
        match target {
            Some(pid) => {
                let lp = RolePermissionRow { role_id, permission_id: pid };
                if t.0.contains(lp) {
                    let k = choose|k: int| 0 <= k < t.0.len() && t.0[k] == lp;
                    assert(t.0[k].permission_id != fresh);
                }
                if p1 != p2 && p1 != fresh && p2 != fresh {
                    assert(t.0.contains(l1) && t.0.contains(l2));
                }
                if p1 != p2 && p1 == fresh {
                    assert(t.0.contains(l2));
                    assert(t.0.contains(lp));
                }
                if p1 != p2 && p2 == fresh {
                    assert(t.0.contains(l1));
                    assert(t.0.contains(lp));
                }
            },
            None => {
                if p1 != p2 && p1 == fresh {
                    assert(t.0.contains(l2));
                    lemma_target_exists(t.0, t.1, role_id, resource_id, p2);
                }
                if p1 != p2 && p2 == fresh {
                    assert(t.0.contains(l1));
                    lemma_target_exists(t.0, t.1, role_id, resource_id, p1);
                }
                if p1 != p2 && p1 != fresh && p2 != fresh {
                    assert(t.0.contains(l1) && t.0.contains(l2));
                }
            },
        }
    }
}

/// A toggle changes exactly one cell of the matrix, to the state asked for:
/// every other cell, of every role, keeps its state. A permission the role
/// shares with other roles is copied first, so the others keep theirs.
pub proof fn toggle_changes_one_cell(
    t: RbacTables,
    role_id: u128,
    resource_id: u128,
    action_id: u128,
    allowed: bool,
    fresh: u128,
    r: u128,
    x: u128,
    a: u128,
)
    requires
        one_permission_per_role_resource(t.0, t.1),
        unused_permission_id(t, fresh),
    ensures
        ({
            let u = toggled(t, role_id, resource_id, action_id, allowed, fresh);
            cell_allowed(u.0, u.1, u.2, r, x, a) == if r == role_id && x == resource_id && a
                == action_id {
                allowed
            } else {
                cell_allowed(t.0, t.1, t.2, r, x, a)
            }
        }),
{
    let u = toggled(t, role_id, resource_id, action_id, allowed, fresh);
    toggle_keeps_one_permission_per_role_resource(t, role_id, resource_id, action_id, allowed, fresh);
    lemma_cell(t, r, x, a);
    lemma_cell(u, r, x, a);
    lemma_toggled_rows(t, role_id, resource_id, action_id, allowed, fresh);
    lemma_target_found(t.0, t.1, role_id, resource_id);
    lemma_perm_resource_unused(t.1, fresh);
    lemma_allows_unused(t.2, fresh, a);
    let target = target_perm(t.0, t.1, role_id, resource_id);
    let same = r == role_id && x == resource_id && a == action_id;
    let want = if same {
        allowed
    } else {
        cell_rows(t, r, x, a)
    };
    // Links of the old tables never point at `fresh`.
    assert forall|p: u128| #[trigger] t.0.contains(RolePermissionRow { role_id: r, permission_id: p })
        implies p != fresh by {
        let l = RolePermissionRow { role_id: r, permission_id: p };
        let k = choose|k: int| 0 <= k < t.0.len() && t.0[k] == l;
        assert(t.0[k].permission_id != fresh);
    }
    match target {
        Some(pid) => {
            let lp = RolePermissionRow { role_id, permission_id: pid };
            let kp = choose|k: int| 0 <= k < t.0.len() && t.0[k] == lp;
            assert(t.0[kp].permission_id != fresh);
            if links_to(t.0, pid) > 1 {
                if cell_rows(u, r, x, a) {
                    let p = choose|p: u128|
                        #![trigger u.0.contains(RolePermissionRow { role_id: r, permission_id: p })]
                        u.0.contains(RolePermissionRow { role_id: r, permission_id: p })
                            && perm_resource(u.1, p) == Some(x) && perm_allows(u.2, p, a);
                    if p == fresh {
                        if !same {
                            assert(t.0.contains(lp));
                            assert(cell_rows(t, r, x, a));
                        }
                    } else {
                        assert(t.0.contains(RolePermissionRow { role_id: r, permission_id: p }));
                        if r == role_id && x == resource_id {
                            assert(t.0.contains(lp));
                            assert(p == pid);
                        }
                        assert(cell_rows(t, r, x, a));
                    }
                    assert(want);
                }
                if want {
                    if r == role_id && x == resource_id {
                        let nl = RolePermissionRow { role_id, permission_id: fresh };
                        assert(u.0.contains(nl));
                        if !same {
                            let p = choose|p: u128|
                                #![trigger t.0.contains(RolePermissionRow { role_id: r, permission_id: p })]
                                t.0.contains(RolePermissionRow { role_id: r, permission_id: p })
                                    && perm_resource(t.1, p) == Some(x) && perm_allows(t.2, p, a);
                            assert(t.0.contains(lp));
                            assert(p == pid);
                        }
                        assert(perm_allows(u.2, fresh, a));
                    } else {
                        let p = choose|p: u128|
                            #![trigger t.0.contains(RolePermissionRow { role_id: r, permission_id: p })]
                            t.0.contains(RolePermissionRow { role_id: r, permission_id: p })
                                && perm_resource(t.1, p) == Some(x) && perm_allows(t.2, p, a);
                        assert(u.0.contains(RolePermissionRow { role_id: r, permission_id: p }));
                    }
                    assert(cell_rows(u, r, x, a));
                }
            } else {
                if cell_rows(u, r, x, a) {
                    let p = choose|p: u128|
                        #![trigger u.0.contains(RolePermissionRow { role_id: r, permission_id: p })]
                        u.0.contains(RolePermissionRow { role_id: r, permission_id: p })
                            && perm_resource(u.1, p) == Some(x) && perm_allows(u.2, p, a);
                    if r == role_id && x == resource_id {
                        assert(t.0.contains(lp));
                        assert(p == pid);
                    }
                    if p == pid && a == action_id {
                        assert(t.0.contains(lp));
                        lemma_single_link(t.0, pid, r, role_id);
                    }
                    assert(want);
                }
                if want {
                    if same {
                        assert(u.0.contains(lp));
                    } else {
                        let p = choose|p: u128|
                            #![trigger t.0.contains(RolePermissionRow { role_id: r, permission_id: p })]
                            t.0.contains(RolePermissionRow { role_id: r, permission_id: p })
                                && perm_resource(t.1, p) == Some(x) && perm_allows(t.2, p, a);
                        if p == pid && a == action_id {
                            assert(t.0.contains(lp));
                            lemma_single_link(t.0, pid, r, role_id);
                        }
                        assert(u.0.contains(RolePermissionRow { role_id: r, permission_id: p }));
                    }
                    assert(cell_rows(u, r, x, a));
                }
            }
        },
        None => {
            if cell_rows(u, r, x, a) {
                let p = choose|p: u128|
                    #![trigger u.0.contains(RolePermissionRow { role_id: r, permission_id: p })]
                    u.0.contains(RolePermissionRow { role_id: r, permission_id: p })
                        && perm_resource(u.1, p) == Some(x) && perm_allows(u.2, p, a);
                if p != fresh {
                    assert(t.0.contains(RolePermissionRow { role_id: r, permission_id: p }));
                    if r == role_id && x == resource_id {
                        lemma_target_exists(t.0, t.1, role_id, resource_id, p);
                    }
                    assert(cell_rows(t, r, x, a));
                }
                assert(want);
            }
            if want {
                if same {
                    let nl = RolePermissionRow { role_id, permission_id: fresh };
                    assert(u.0.contains(nl));
                } else {
                    let p = choose|p: u128|
                        #![trigger t.0.contains(RolePermissionRow { role_id: r, permission_id: p })]
                        t.0.contains(RolePermissionRow { role_id: r, permission_id: p })
                            && perm_resource(t.1, p) == Some(x) && perm_allows(t.2, p, a);
                    assert(u.0.contains(RolePermissionRow { role_id: r, permission_id: p }));
                }
                assert(cell_rows(u, r, x, a));
            }
        },
    }
}

/// The permission of a role on a resource, once a link is appended.
proof fn lemma_target_push(
    links: Seq<RolePermissionRow>,
    perms: Seq<PermissionRow>,
    r: u128,
    x: u128,
    l: RolePermissionRow,
)
    ensures
        target_perm(links.push(l), perms, r, x) == match target_perm(links, perms, r, x) {
            Some(p) => Some(p),
            None => if l.role_id == r && perm_resource(perms, l.permission_id) == Some(x) {
                Some(l.permission_id)
            } else {
                None
            },
        },
    decreases links.len(),
{
    let lp = links.push(l);
    if links.len() == 0 {
        assert(lp.drop_first() =~= Seq::<RolePermissionRow>::empty());
        assert(lp[0] == l);
        assert(target_perm(lp.drop_first(), perms, r, x) is None);
    } else {
        assert(lp[0] == links[0]);
        assert(lp.drop_first() =~= links.drop_first().push(l));
        lemma_target_push(links.drop_first(), perms, r, x, l);
    }
}

/// Dropping links of other roles leaves the permission of role `r` as it was.
proof fn lemma_target_filter(
    links: Seq<RolePermissionRow>,
    perms: Seq<PermissionRow>,
    r: u128,
    x: u128,
    pred: spec_fn(RolePermissionRow) -> bool,
)
    requires
        forall|l: RolePermissionRow| l.role_id == r ==> #[trigger] pred(l),
    ensures
        target_perm(links.filter(pred), perms, r, x) == target_perm(links, perms, r, x),
    decreases links.len(),
{
    if links.len() == 0 {
        reveal(Seq::filter);
    } else {
        let init = links.drop_last();
        let last = links.last();
        assert(init.push(last) =~= links);
        init.lemma_filter_push(last, pred);
        lemma_target_filter(init, perms, r, x, pred);
        lemma_target_push(init, perms, r, x, last);
        if pred(last) {
            lemma_target_push(init.filter(pred), perms, r, x, last);
        }
    }
}

/// The permission of role `r` depends on the resources of its own links only.
proof fn lemma_target_same_resources(
    links: Seq<RolePermissionRow>,
    p1: Seq<PermissionRow>,
    p2: Seq<PermissionRow>,
    r: u128,
    x: u128,
)
    requires
        forall|i: int|
            0 <= i < links.len() && links[i].role_id == r ==> perm_resource(
                p1,
                #[trigger] links[i].permission_id,
            ) == perm_resource(p2, links[i].permission_id),
    ensures
        target_perm(links, p1, r, x) == target_perm(links, p2, r, x),
    decreases links.len(),
{
    if links.len() > 0 {
        let rest = links.drop_first();
        assert forall|i: int|
            0 <= i < rest.len() && rest[i].role_id == r implies perm_resource(
            p1,
            #[trigger] rest[i].permission_id,
        ) == perm_resource(p2, rest[i].permission_id) by {
            assert(rest[i] == links[i + 1]);
        }
        lemma_target_same_resources(rest, p1, p2, r, x);
    }
}

/// A toggle leaves every cell of every other role as it was, whatever the
/// state of the tables: the role's own permission is edited only when no
/// other role links to it, and a shared one is copied first.
pub proof fn toggle_keeps_other_roles(
    t: RbacTables,
    role_id: u128,
    resource_id: u128,
    action_id: u128,
    allowed: bool,
    fresh: u128,
    r: u128,
    x: u128,
    a: u128,
)
    requires
        unused_permission_id(t, fresh),
        r != role_id,
    ensures
        ({
            let u = toggled(t, role_id, resource_id, action_id, allowed, fresh);
            cell_allowed(u.0, u.1, u.2, r, x, a) == cell_allowed(t.0, t.1, t.2, r, x, a)
        }),
{
    let u = toggled(t, role_id, resource_id, action_id, allowed, fresh);
    let (pre, pid_edit) = toggle_prefix(t, role_id, resource_id, fresh);
    let mid = apply_edits(t, pre);
    lemma_prefix_tables(t, role_id, resource_id, fresh);
    let edits = toggle_edit_list(t, role_id, resource_id, action_id, allowed, fresh);
    assert(edits.drop_last() =~= pre);
    assert(u.0 == mid.0 && u.1 == mid.1);
    lemma_toggled_rows(t, role_id, resource_id, action_id, allowed, fresh);
    lemma_target_found(t.0, t.1, role_id, resource_id);
    lemma_target_found(t.0, t.1, r, x);
    let target = target_perm(t.0, t.1, role_id, resource_id);
    let new_link = RolePermissionRow { role_id, permission_id: fresh };
    // The links of the old tables never point at `fresh`, so their resources
    // read the same in the new permissions.
    assert forall|i: int|
        0 <= i < t.0.len() && t.0[i].role_id == r implies perm_resource(
        u.1,
        #[trigger] t.0[i].permission_id,
    ) == perm_resource(t.1, t.0[i].permission_id) by {
        assert(t.0[i].permission_id != fresh);
        lemma_perm_resource_push(t.1, PermissionRow { id: fresh, resource_id }, t.0[i].permission_id);
    }
    lemma_target_same_resources(t.0, u.1, t.1, r, x);
    // The new tables' links of role `r` lead to the same permission.
    match target {
        Some(pid) => if links_to(t.0, pid) > 1 {
            let pred = |k: RolePermissionRow| !(k.role_id == role_id && k.permission_id == pid);
            assert(without_link(t.0, role_id, pid) == t.0.filter(pred));
            lemma_target_push(t.0.filter(pred), u.1, r, x, new_link);
            lemma_target_filter(t.0, u.1, r, x, pred);
        } else {
        },
        None => {
            lemma_target_push(t.0, u.1, r, x, new_link);
        },
    }
    assert(target_perm(u.0, u.1, r, x) == target_perm(t.0, t.1, r, x));
    // That permission's rows are untouched.
    match target_perm(t.0, t.1, r, x) {
        Some(q) => {
            let lq = RolePermissionRow { role_id: r, permission_id: q };
            let k = choose|k: int| 0 <= k < t.0.len() && t.0[k] == lq;
            assert(t.0[k].permission_id != fresh);
            if let Some(pid) = target {
                if links_to(t.0, pid) <= 1 && q == pid {
                    lemma_single_link(t.0, pid, r, role_id);
                }
            }
            assert(perm_allows(u.2, q, a) == perm_allows(t.2, q, a));
        },
        None => {},
    }
}

/// Toggling a cell, then toggling it back, leaves every cell of the matrix
/// as it was.
pub proof fn toggle_back_restores_matrix(
    t: RbacTables,
    role_id: u128,
    resource_id: u128,
    action_id: u128,
    allowed: bool,
    fresh1: u128,
    fresh2: u128,
    r: u128,
    x: u128,
    a: u128,
)
    requires
        one_permission_per_role_resource(t.0, t.1),
        unused_permission_id(t, fresh1),
        unused_permission_id(toggled(t, role_id, resource_id, action_id, allowed, fresh1), fresh2),
    ensures
        ({
            let before = cell_allowed(t.0, t.1, t.2, role_id, resource_id, action_id);
            let u1 = toggled(t, role_id, resource_id, action_id, allowed, fresh1);
            let u2 = toggled(u1, role_id, resource_id, action_id, before, fresh2);
            cell_allowed(u2.0, u2.1, u2.2, r, x, a) == cell_allowed(t.0, t.1, t.2, r, x, a)
        }),
{
    let before = cell_allowed(t.0, t.1, t.2, role_id, resource_id, action_id);
    let u1 = toggled(t, role_id, resource_id, action_id, allowed, fresh1);
    toggle_keeps_one_permission_per_role_resource(t, role_id, resource_id, action_id, allowed, fresh1);
    toggle_changes_one_cell(t, role_id, resource_id, action_id, allowed, fresh1, r, x, a);
    toggle_changes_one_cell(u1, role_id, resource_id, action_id, before, fresh2, r, x, a);
}

// ---------------------------------------------------------------------------
// The matrix is what is enforced
// ---------------------------------------------------------------------------

/// No two permission rows share an id.
pub open spec fn distinct_permission_ids(perms: Seq<PermissionRow>) -> bool {
    forall|i: int, j: int|
        0 <= i < perms.len() && 0 <= j < perms.len() && #[trigger] perms[i].id == #[trigger] perms[j].id
            ==> i == j
}

/// No two resources share an id or a name.
pub open spec fn distinct_resources(resources: Seq<ResourceRow>) -> bool {
    forall|i: int, j: int|
        0 <= i < resources.len() && 0 <= j < resources.len() && (#[trigger] resources[i].id
            == #[trigger] resources[j].id || resources[i].name@ == resources[j].name@) ==> i == j
}

/// No two actions share an id or a name.
pub open spec fn distinct_actions(actions: Seq<ActionRow>) -> bool {
    forall|i: int, j: int|
        0 <= i < actions.len() && 0 <= j < actions.len() && (#[trigger] actions[i].id
            == #[trigger] actions[j].id || actions[i].name@ == actions[j].name@) ==> i == j
}

proof fn lemma_resource_name_of_row(resources: Seq<ResourceRow>, j: int)
    requires
        distinct_resources(resources),
        0 <= j < resources.len(),
    ensures
        resource_name(resources, resources[j].id) == Some(resources[j].name@),
    decreases resources.len(),
{
    let n = resources.len() - 1;
    if j < n {
        if resources[n].id == resources[j].id {
            assert(n == j);
        }
        let rest = resources.drop_last();
        assert forall|a: int, b: int|
            0 <= a < rest.len() && 0 <= b < rest.len() && (#[trigger] rest[a].id == #[trigger] rest[b].id
                || rest[a].name@ == rest[b].name@) implies a == b by {
            assert(rest[a] == resources[a] && rest[b] == resources[b]);
        }
        assert(rest[j] == resources[j]);
        lemma_resource_name_of_row(rest, j);
    }
}

proof fn lemma_resource_name_found(resources: Seq<ResourceRow>, id: u128)
    ensures
        resource_name(resources, id) matches Some(n) ==> exists|j: int|
            0 <= j < resources.len() && #[trigger] resources[j].id == id && resources[j].name@ == n,
    decreases resources.len(),
{
    if resources.len() > 0 {
        let rest = resources.drop_last();
        lemma_resource_name_found(rest, id);
        if resources.last().id != id {
            if let Some(n) = resource_name(resources, id) {
                let j = choose|j: int| 0 <= j < rest.len() && #[trigger] rest[j].id == id && rest[j].name@ == n;
                assert(resources[j] == rest[j]);
            }
        }
    }
}

proof fn lemma_action_name_of_row(actions: Seq<ActionRow>, k: int)
    requires
        distinct_actions(actions),
        0 <= k < actions.len(),
    ensures
        action_name(actions, actions[k].id) == Some(actions[k].name@),
    decreases actions.len(),
{
    let n = actions.len() - 1;
    if k < n {
        if actions[n].id == actions[k].id {
            assert(n == k);
        }
        let rest = actions.drop_last();
        assert forall|a: int, b: int|
            0 <= a < rest.len() && 0 <= b < rest.len() && (#[trigger] rest[a].id == #[trigger] rest[b].id
                || rest[a].name@ == rest[b].name@) implies a == b by {
            assert(rest[a] == actions[a] && rest[b] == actions[b]);
        }
        assert(rest[k] == actions[k]);
        lemma_action_name_of_row(rest, k);
    }
}

proof fn lemma_action_name_found(actions: Seq<ActionRow>, id: u128)
    ensures
        action_name(actions, id) matches Some(n) ==> exists|k: int|
            0 <= k < actions.len() && #[trigger] actions[k].id == id && actions[k].name@ == n,
    decreases actions.len(),
{
    if actions.len() > 0 {
        let rest = actions.drop_last();
        lemma_action_name_found(rest, id);
        if actions.last().id != id {
            if let Some(n) = action_name(actions, id) {
                let k = choose|k: int| 0 <= k < rest.len() && #[trigger] rest[k].id == id && rest[k].name@ == n;
                assert(actions[k] == rest[k]);
            }
        }
    }
}

proof fn lemma_perm_resource_found(perms: Seq<PermissionRow>, pid: u128)
    ensures
        perm_resource(perms, pid) matches Some(rid) ==> exists|i: int|
            0 <= i < perms.len() && #[trigger] perms[i].id == pid && perms[i].resource_id == rid,
    decreases perms.len(),
{
    if perms.len() > 0 {
        let rest = perms.drop_last();
        lemma_perm_resource_found(rest, pid);
        if perms.last().id != pid {
            if let Some(rid) = perm_resource(perms, pid) {
                let i = choose|i: int| 0 <= i < rest.len() && #[trigger] rest[i].id == pid && rest[i].resource_id == rid;
                assert(perms[i] == rest[i]);
            }
        }
    }
}

proof fn lemma_perm_resource_of_row(perms: Seq<PermissionRow>, i: int)
    requires
        distinct_permission_ids(perms),
        0 <= i < perms.len(),
    ensures
        perm_resource(perms, perms[i].id) == Some(perms[i].resource_id),
    decreases perms.len(),
{
    let n = perms.len() - 1;
    if i < n {
        if perms[n].id == perms[i].id {
            assert(n == i);
        }
        let rest = perms.drop_last();
        assert forall|a: int, b: int|
            0 <= a < rest.len() && 0 <= b < rest.len() && #[trigger] rest[a].id == #[trigger] rest[b].id
            implies a == b by {
            assert(rest[a] == perms[a] && rest[b] == perms[b]);
        }
        assert(rest[i] == perms[i]);
        lemma_perm_resource_of_row(rest, i);
    }
}

proof fn lemma_perm_resource_name_found(
    perms: Seq<PermissionRow>,
    resources: Seq<ResourceRow>,
    pid: u128,
)
    ensures
        perm_resource_name(perms, resources, pid) matches Some(n) ==> exists|i: int|
            0 <= i < perms.len() && #[trigger] perms[i].id == pid && resource_name(
                resources,
                perms[i].resource_id,
            ) == Some(n),
    decreases perms.len(),
{
    if perms.len() > 0 {
        let rest = perms.drop_last();
        lemma_perm_resource_name_found(rest, resources, pid);
        let last = perms.last();
        if !(last.id == pid && resource_name(resources, last.resource_id) is Some) {
            if let Some(n) = perm_resource_name(perms, resources, pid) {
                let i = choose|i: int|
                    0 <= i < rest.len() && #[trigger] rest[i].id == pid && resource_name(
                        resources,
                        rest[i].resource_id,
                    ) == Some(n);
                assert(perms[i] == rest[i]);
            }
        }
    }
}

proof fn lemma_perm_resource_name_of_row(
    perms: Seq<PermissionRow>,
    resources: Seq<ResourceRow>,
    i: int,
)
    requires
        distinct_permission_ids(perms),
        0 <= i < perms.len(),
        resource_name(resources, perms[i].resource_id) is Some,
    ensures
        perm_resource_name(perms, resources, perms[i].id) == resource_name(
            resources,
            perms[i].resource_id,
        ),
    decreases perms.len(),
{
    let n = perms.len() - 1;
    if i < n {
        if perms[n].id == perms[i].id {
            assert(n == i);
        }
        let rest = perms.drop_last();
        assert forall|a: int, b: int|
            0 <= a < rest.len() && 0 <= b < rest.len() && #[trigger] rest[a].id == #[trigger] rest[b].id
            implies a == b by {
            assert(rest[a] == perms[a] && rest[b] == perms[b]);
        }
        assert(rest[i] == perms[i]);
        lemma_perm_resource_name_of_row(rest, resources, i);
    }
}

proof fn lemma_granted_pairs(
    user_role_ids: Seq<u128>,
    links: Seq<RolePermissionRow>,
    perms: Seq<PermissionRow>,
    resources: Seq<ResourceRow>,
    actions: Seq<ActionRow>,
    pas: Seq<PermissionActionRow>,
    pair: (Seq<char>, Seq<char>),
)
    ensures
        granted_pairs(user_role_ids, links, perms, resources, actions, pas).contains(pair)
            <==> exists|q: int|
            0 <= q < pas.len() && granted_pair(
                user_role_ids,
                links,
                perms,
                resources,
                actions,
                #[trigger] pas[q],
            ) == Some(pair),
    decreases pas.len(),
{
    if pas.len() > 0 {
        let rest = pas.drop_last();
        lemma_granted_pairs(user_role_ids, links, perms, resources, actions, rest, pair);
        let g = granted_pairs(user_role_ids, links, perms, resources, actions, pas);
        let gr = granted_pairs(user_role_ids, links, perms, resources, actions, rest);
        let last = granted_pair(user_role_ids, links, perms, resources, actions, pas.last());
        match last {
            Some(p) => {
                vstd::seq_lib::lemma_seq_contains_after_push(gr, p, pair);
            },
            None => {},
        }
        if gr.contains(pair) {
            let q = choose|q: int|
                0 <= q < rest.len() && granted_pair(
                    user_role_ids,
                    links,
                    perms,
                    resources,
                    actions,
                    #[trigger] rest[q],
                ) == Some(pair);
            assert(pas[q] == rest[q]);
        }
        if exists|q: int|
            0 <= q < pas.len() && granted_pair(
                user_role_ids,
                links,
                perms,
                resources,
                actions,
                #[trigger] pas[q],
            ) == Some(pair) {
            let q = choose|q: int|
                0 <= q < pas.len() && granted_pair(
                    user_role_ids,
                    links,
                    perms,
                    resources,
                    actions,
                    #[trigger] pas[q],
                ) == Some(pair);
            if q < rest.len() {
                assert(rest[q] == pas[q]);
            }
        }
    }
}

/// What the RBAC screen shows is what is enforced: a user holds the
/// permission to perform an action on a resource exactly when the matrix
/// cell of one of their roles for that resource and action is allowed (with
/// each role holding one permission per resource, and ids and names unique).
pub proof fn enforcement_matches_matrix(
    user_role_ids: Seq<u128>,
    links: Seq<RolePermissionRow>,
    perms: Seq<PermissionRow>,
    resources: Seq<ResourceRow>,
    actions: Seq<ActionRow>,
    pas: Seq<PermissionActionRow>,
    j: int,
    k: int,
)
    requires
        one_permission_per_role_resource(links, perms),
        distinct_permission_ids(perms),
        distinct_resources(resources),
        distinct_actions(actions),
        0 <= j < resources.len(),
        0 <= k < actions.len(),
    ensures
        granted_pairs(user_role_ids, links, perms, resources, actions, pas).contains(
            (resources[j].name@, actions[k].name@),
        ) == exists|i: int|
            0 <= i < user_role_ids.len() && cell_allowed(
                links,
                perms,
                pas,
                #[trigger] user_role_ids[i],
                resources[j].id,
                actions[k].id,
            ),
{
    let pair = (resources[j].name@, actions[k].name@);
    let rid = resources[j].id;
    let aid = actions[k].id;
    let t: RbacTables = (links, perms, pas);
    lemma_granted_pairs(user_role_ids, links, perms, resources, actions, pas, pair);
    lemma_resource_name_of_row(resources, j);
    lemma_action_name_of_row(actions, k);
    let shown = exists|i: int|
        0 <= i < user_role_ids.len() && cell_allowed(
            links,
            perms,
            pas,
            #[trigger] user_role_ids[i],
            rid,
            aid,
        );
    if granted_pairs(user_role_ids, links, perms, resources, actions, pas).contains(pair) {
        let q = choose|q: int|
            0 <= q < pas.len() && granted_pair(
                user_role_ids,
                links,
                perms,
                resources,
                actions,
                #[trigger] pas[q],
            ) == Some(pair);
        let row = pas[q];
        let pid = row.permission_id;
        // The role that holds the permission.
        let li = choose|li: int|
            0 <= li < links.len() && #[trigger] links[li].permission_id == pid
                && user_role_ids.contains(links[li].role_id);
        let role = links[li].role_id;
        let i = choose|i: int| 0 <= i < user_role_ids.len() && user_role_ids[i] == role;
        // The permission's resource is `resources[j]`.
        lemma_perm_resource_name_found(perms, resources, pid);
        let pi = choose|pi: int|
            0 <= pi < perms.len() && #[trigger] perms[pi].id == pid && resource_name(
                resources,
                perms[pi].resource_id,
            ) == Some(pair.0);
        lemma_resource_name_found(resources, perms[pi].resource_id);
        let rj = choose|rj: int|
            0 <= rj < resources.len() && #[trigger] resources[rj].id == perms[pi].resource_id
                && resources[rj].name@ == pair.0;
        assert(rj == j);
        lemma_perm_resource_of_row(perms, pi);
        // The row's action is `actions[k]`.
        lemma_action_name_found(actions, row.action_id);
        let ak = choose|ak: int|
            0 <= ak < actions.len() && #[trigger] actions[ak].id == row.action_id
                && actions[ak].name@ == pair.1;
        assert(ak == k);
        assert(perm_allows(pas, pid, aid));
        assert(links[li] == RolePermissionRow { role_id: role, permission_id: pid });
        assert(t.0.contains(RolePermissionRow { role_id: role, permission_id: pid }));
        assert(perm_resource(t.1, pid) == Some(rid) && perm_allows(t.2, pid, aid));
        assert(cell_rows(t, role, rid, aid));
        lemma_cell(t, role, rid, aid);
        assert(cell_allowed(links, perms, pas, user_role_ids[i], rid, aid));
        assert(shown);
    }
    if shown {
        let i = choose|i: int|
            0 <= i < user_role_ids.len() && cell_allowed(
                links,
                perms,
                pas,
                #[trigger] user_role_ids[i],
                rid,
                aid,
            );
        let role = user_role_ids[i];
        lemma_cell(t, role, rid, aid);
        let pid = choose|p: u128|
            #![trigger links.contains(RolePermissionRow { role_id: role, permission_id: p })]
            links.contains(RolePermissionRow { role_id: role, permission_id: p }) && perm_resource(
                perms,
                p,
            ) == Some(rid) && perm_allows(pas, p, aid);
        let q = choose|q: int|
            0 <= q < pas.len() && #[trigger] pas[q].permission_id == pid && pas[q].allowed
                && pas[q].action_id == aid;
        let li = choose|li: int|
            0 <= li < links.len() && links[li] == RolePermissionRow { role_id: role, permission_id: pid };
        assert(user_role_ids.contains(role));
        assert(links[li].permission_id == pid && user_role_ids.contains(links[li].role_id));
        assert(held_by_roles(user_role_ids, links, pid));
        lemma_perm_resource_found(perms, pid);
        let pi = choose|pi: int| 0 <= pi < perms.len() && #[trigger] perms[pi].id == pid && perms[pi].resource_id == rid;
        lemma_perm_resource_name_of_row(perms, resources, pi);
        assert(granted_pair(user_role_ids, links, perms, resources, actions, pas[q]) == Some(pair));
    }
}

} // verus!
