use vstd::prelude::*;

use crate::types::strings_view;

verus! {

/// What the voice-actor query gives of an anime.
pub struct Media {
    pub characters: Characters,
}

/// The main characters of an anime.
pub struct Characters {
    pub edges: Vec<Edge>,
}

/// A character and the people who voiced it.
pub struct Edge {
    pub node: Node,
    pub voice_actors: Vec<VoiceActor>,
}

/// A character.
pub struct Node {
    pub id: u64,
}

/// A person who voiced a character.
pub struct VoiceActor {
    pub name: Name,
}

/// A person's name.
pub struct Name {
    pub full: String,
}

/// The first voice actor of each character that has one, in order.
pub open spec fn first_voice_actors(s: Seq<Edge>) -> Seq<Seq<char>>
    decreases s.len(),
{
    if s.len() == 0 {
        Seq::empty()
    } else {
        first_voice_actors(s.drop_last()) + if s.last().voice_actors@.len() > 0 {
            seq![s.last().voice_actors@[0].name.full@]
        } else {
            Seq::empty()
        }
    }
}

/// The voice actors for the hint: for each main character, the first person
/// who voiced it.
pub fn get_voice_actors(media: &Media) -> (r: Vec<String>)
    ensures
        strings_view(r@) == first_voice_actors(media.characters.edges@),
{
    let edges = &media.characters.edges;
    let mut voice_actors: Vec<String> = Vec::new();
    let mut i: usize = 0;
    while i < edges.len()
        invariant
            i <= edges@.len(),
            strings_view(voice_actors@) == first_voice_actors(edges@.take(i as int)),
        decreases edges@.len() - i,
    {
        if edges[i].voice_actors.len() > 0 {
            voice_actors.push(edges[i].voice_actors[0].name.full.clone());
        }
        assert(edges@.take(i + 1).drop_last() =~= edges@.take(i as int));
        assert(strings_view(voice_actors@) =~= first_voice_actors(edges@.take(i + 1)));
        i = i + 1;
    }
    assert(edges@.take(edges@.len() as int) =~= edges@);
    voice_actors
}

} // verus!
