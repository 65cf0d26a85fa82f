use vstd::prelude::*;

use crate::types::strings_view;

verus! {

/// A studio that worked on an anime, and whether it was a main studio.
pub struct StudioEdge {
    pub name: String,
    pub is_main: bool,
}

/// The names of the main studios, in order.
pub open spec fn main_studios(s: Seq<StudioEdge>) -> Seq<Seq<char>>
    decreases s.len(),
{
    if s.len() == 0 {
        Seq::empty()
    } else {
        main_studios(s.drop_last()) + if s.last().is_main { seq![s.last().name@] } else { Seq::empty() }
    }
}

/// The studios for the hint: the main studios the query lists.
pub fn get_studios(edges: &Vec<StudioEdge>) -> (r: Vec<String>)
    ensures
        strings_view(r@) == main_studios(edges@),
{
    let mut studios: Vec<String> = Vec::new();
    let mut i: usize = 0;
    while i < edges.len()
        invariant
            i <= edges@.len(),
            strings_view(studios@) == main_studios(edges@.take(i as int)),
        decreases edges@.len() - i,
    {
        if edges[i].is_main {
            studios.push(edges[i].name.clone());
        }
        assert(edges@.take(i + 1).drop_last() =~= edges@.take(i as int));
        assert(strings_view(studios@) =~= main_studios(edges@.take(i + 1)));
        i = i + 1;
    }
    assert(edges@.take(edges@.len() as int) =~= edges@);
    studios
}

} // verus!
