use vstd::prelude::*;

verus! {

/// Adds a page of a user's favourite anime to the ids gathered so far and
/// tells whether another page follows, as the page itself reports.
pub fn add_favourites_page(favourite_ids: &mut Vec<u64>, page: Vec<u64>, has_next_page: bool) -> (more: bool)
    ensures
        final(favourite_ids)@ == old(favourite_ids)@ + page@,
        more == has_next_page,
{
    let mut page = page;
    favourite_ids.append(&mut page);
    has_next_page
}

} // verus!
