//! The matchmaking registry: games that wait for a second player, keyed by
//! their identifier.

use std::collections::HashMap;
use vstd::prelude::*;
use crate::packets::GameId;

verus! {

broadcast use vstd::std_specs::hash::group_hash_axioms;

/// Number of distinct game identifiers (24 bits).
pub const ID_SPACE: u32 = 0x100_0000;

/// Random draws made for one new identifier before falling back to a scan.
/// Every loop here must provably end, so the draws cannot go on until one
/// is free; with far fewer waiting games than identifiers, 64 draws that all
/// collide essentially never happen.
pub const RANDOM_DRAWS: usize = 64;

/// Waiting sessions, each under the 24-bit value of its game's identifier.
pub struct Registry<S> {
    games: HashMap<u32, S>,
}

impl<S> View for Registry<S> {
    type V = Map<u32, S>;

    closed spec fn view(&self) -> Map<u32, S> {
        self.games@
    }
}

/// The identifier whose 24-bit value is `key`.
fn id_of_key(key: u32) -> (r: GameId)
    requires
        key < ID_SPACE,
    ensures
        r.value() == key,
{
    let id = GameId([(key >> 16u32) as u8, (key >> 8u32) as u8, key as u8]);
    let (a, b, c) = ((key >> 16u32) as u8, (key >> 8u32) as u8, key as u8);
    assert(((a as u32) << 16u32) | ((b as u32) << 8u32) | (c as u32) == key) by (bit_vector)
        requires
            key < 0x100_0000u32,
            a == (key >> 16u32) as u8,
            b == (key >> 8u32) as u8,
            c == key as u8;
    id
}

impl<S> Registry<S> {
    pub fn new() -> (r: Registry<S>)
        ensures
            r@ == Map::<u32, S>::empty(),
    {
        Registry { games: HashMap::new() }
    }

    /// Number of waiting games.
    pub fn len(&self) -> (r: usize)
        ensures
            r == self@.len(),
    {
        self.games.len()
    }

    /// Whether a game waits under `id`.
    pub fn contains(&self, id: &GameId) -> (r: bool)
        ensures
            r == self@.contains_key(id.value()),
    {
        let key = id.key();
        self.games.contains_key(&key)
    }

    /// Puts `session` under `id`; a session already there is replaced.
    pub fn register(&mut self, id: GameId, session: S)
        ensures
            final(self)@ == old(self)@.insert(id.value(), session),
    {
        let key = id.key();
        self.games.insert(key, session);
    }

    /// Removes the session waiting under `id` and hands it out, if there is
    /// one.
    pub fn claim(&mut self, id: &GameId) -> (r: Option<S>)
        ensures
            final(self)@ == old(self)@.remove(id.value()),
            r is Some <==> old(self)@.contains_key(id.value()),
            r is Some ==> r->Some_0 == old(self)@[id.value()],
    {
        let key = id.key();
        self.games.remove(&key)
    }
}

/// The first of `draws` under which no game waits, if any.
pub fn first_free<S>(games: &Registry<S>, draws: &[GameId]) -> (r: Option<GameId>)
    ensures
        r is None <==> forall|i: int| 0 <= i < draws@.len() ==> games@.contains_key(#[trigger] draws@[i].value()),
        r is Some ==> exists|k: int|
            0 <= k < draws@.len() && r == Some(#[trigger] draws@[k]) && !games@.contains_key(draws@[k].value())
                && forall|i: int| 0 <= i < k ==> games@.contains_key(#[trigger] draws@[i].value()),
{
    let mut i: usize = 0;
    while i < draws.len()
        invariant
            i <= draws@.len(),
            forall|j: int| 0 <= j < i ==> games@.contains_key(#[trigger] draws@[j].value()),
        decreases draws@.len() - i,
    {
        if !games.contains(&draws[i]) {
            return Some(draws[i]);
        }
        i += 1;
    }
    None
}

/// The lowest identifier under which no game waits.
pub fn lowest_free<S>(games: &Registry<S>) -> (r: GameId)
    requires
        games@.len() < ID_SPACE,
    ensures
        !games@.contains_key(r.value()),
        forall|x: u32| x < r.value() ==> games@.contains_key(x),
{
    let mut key: u32 = 0;
    let ghost mut taken: Set<u32> = Set::empty();
    while key < ID_SPACE
        invariant
            key <= ID_SPACE,
            games@.len() < ID_SPACE,
            taken.finite(),
            taken.len() == key,
            forall|x: u32| #[trigger] taken.contains(x) <==> x < key,
            forall|x: u32| #[trigger] taken.contains(x) ==> games@.contains_key(x),
        decreases ID_SPACE - key,
    {
        let id = id_of_key(key);
        if !games.contains(&id) {
            assert forall|x: u32| x < id.value() implies games@.contains_key(x) by {
                assert(taken.contains(x));
            }
            return id;
        }
        proof {
            taken = taken.insert(key);
        }
        key += 1;
    }
    proof {
        assert(taken.subset_of(games@.dom()));
        vstd::set_lib::lemma_len_subset(taken, games@.dom());
    }
    id_of_key(0)
}

/// An identifier under which no game waits: `RANDOM_DRAWS` random draws are
/// made and the first free one is taken (`first_free`); should every draw
/// collide, the lowest free identifier is taken (`lowest_free`).
pub fn generate_new_game_id<S>(games: &Registry<S>) -> (r: GameId)
    requires
        games@.len() < ID_SPACE,
    ensures
        !games@.contains_key(r.value()),
{
    let mut draws: Vec<GameId> = Vec::new();
    while draws.len() < RANDOM_DRAWS
        invariant
            draws@.len() <= RANDOM_DRAWS,
        decreases RANDOM_DRAWS - draws@.len(),
    {
        draws.push(GameId::random());
    }
    match first_free(games, draws.as_slice()) {
        Some(id) => id,
        None => lowest_free(games),
    }
}

/// A session is handed out at most once: once a claim of `id` has removed
/// it, every further claim of `id` (before it is registered again) finds
/// nothing, while a registry that held `id` lets the first claim succeed.
pub proof fn lemma_claim_at_most_once<S>(before: Map<u32, S>, after_first: Map<u32, S>, id: GameId)
    requires
        after_first == before.remove(id.value()),
    ensures
        !after_first.contains_key(id.value()),
        after_first.remove(id.value()) == after_first,
        forall|k: u32| k != id.value() ==> (#[trigger] after_first.contains_key(k) <==> before.contains_key(k)),
{
    assert(after_first.remove(id.value()) =~= after_first);
}

} // verus!
