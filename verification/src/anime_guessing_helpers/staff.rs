use vstd::prelude::*;

use crate::types;

verus! {

/// What the staff query gives of an anime.
pub struct Media {
    pub staff: Staff,
}

/// The staff of an anime.
pub struct Staff {
    pub edges: Vec<Edge>,
}

/// A staff member and their role on the anime.
pub struct Edge {
    pub node: Node,
    pub role: String,
}

/// A staff member.
pub struct Node {
    pub name: Name,
}

/// A person's name.
pub struct Name {
    pub full: String,
}

/// The most staff members a hint names.
pub open spec fn staff_hint_size() -> nat {
    5
}

/// The staff member an edge names, with their role.
pub open spec fn staff_of(e: Edge) -> types::StaffView {
    types::StaffView { name: e.node.name.full@, role: e.role@ }
}

/// The staff for the hint: the first five members the query lists, with their roles.
pub fn get_staff(media: &Media) -> (r: Vec<types::Staff>)
    ensures
        types::staff_view(r@) == media.staff.edges@.take(
            if media.staff.edges@.len() < staff_hint_size() { media.staff.edges@.len() as int } else { staff_hint_size() as int },
        ).map_values(|e: Edge| staff_of(e)),
{
    let edges = &media.staff.edges;
    let ghost n: int = if edges@.len() < 5 { edges@.len() as int } else { 5 };
    let mut staff: Vec<types::Staff> = Vec::new();
    let mut i: usize = 0;
    while i < edges.len() && staff.len() < 5
        invariant
            i <= edges@.len(),
            staff@.len() == i,
            i <= 5,
            types::staff_view(staff@) == edges@.take(i as int).map_values(|e: Edge| staff_of(e)),
        decreases edges@.len() - i,
    {
        let s = &edges[i];
        let ghost before = types::staff_view(staff@);
        let member = types::Staff { name: s.node.name.full.clone(), role: s.role.clone() };
        assert(member@ == staff_of(edges@[i as int]));
        staff.push(member);
        assert(types::staff_view(staff@) =~= before.push(staff_of(edges@[i as int])));
        assert(types::staff_view(staff@) =~= edges@.take(i + 1).map_values(|e: Edge| staff_of(e)));
        i = i + 1;
    }
    assert(i == n);
    staff
}

} // verus!
