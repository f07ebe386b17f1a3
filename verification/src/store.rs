//! The player store: keyed storage of one record per player id, with
//! full-record and single-field reads, insert, partial update, wholesale
//! replacement, delete, direct validated rank assignment, and the
//! level-up operation that reads the stats, asks the progression engine
//! for a decision and conditionally writes the new rank back.
//!
//! The store is viewed as a map from player id to record value, and every
//! operation's contract is stated against that map. Each operation takes
//! the store by exclusive reference, so a level-up's read-decide-write
//! sequence cannot interleave with another operation on the same store.

use vstd::prelude::*;

use crate::engine::{evaluate_level_up, level_up_decision};
use crate::models::{apply_update, NewPlayer, Player, PlayerView, StoreError, UpdatePlayer};
use crate::rank::{is_rank_code, parse_rank, rank_name};

verus! {

/// Whether no two records of `players` share an id.
spec fn unique_ids(players: Seq<Player>) -> bool {
    forall|i: int, j: int|
        0 <= i < j < players.len() ==> players[i].id != players[j].id
}

/// Whether some record of `players` has id `k`.
spec fn id_present(players: Seq<Player>, k: int) -> bool {
    exists|i: int| 0 <= i < players.len() && players[i].id as int == k
}

/// The index of the record of `players` with id `k`; meaningful only
/// when `id_present(players, k)` holds and the ids are unique.
spec fn index_of_id(players: Seq<Player>, k: int) -> int {
    choose|i: int| 0 <= i < players.len() && players[i].id as int == k
}

/// The map from player id to record value that `players` represents.
spec fn players_as_map(players: Seq<Player>) -> Map<int, PlayerView> {
    Map::new(|k: int| id_present(players, k), |k: int| players[index_of_id(players, k)]@)
}

/// With unique ids, the record at index `i` is the one its id maps to.
proof fn lemma_map_at_index(players: Seq<Player>, i: int)
    requires
        unique_ids(players),
        0 <= i < players.len(),
    ensures
        id_present(players, players[i].id as int),
        index_of_id(players, players[i].id as int) == i,
        players_as_map(players).dom().contains(players[i].id as int),
        players_as_map(players)[players[i].id as int] == players[i]@,
{
    assert(id_present(players, players[i].id as int));
    let j = index_of_id(players, players[i].id as int);
    assert(0 <= j < players.len() && players[j].id == players[i].id);
}

/// Appending a record with a fresh id adds exactly that entry to the map.
proof fn lemma_map_push(players: Seq<Player>, p: Player)
    requires
        unique_ids(players),
        !id_present(players, p.id as int),
    ensures
        unique_ids(players.push(p)),
        players_as_map(players.push(p)) =~= players_as_map(players).insert(p.id as int, p@),
{
    let players2 = players.push(p);
    assert forall|i: int, j: int| 0 <= i < j < players2.len() implies players2[i].id
        != players2[j].id by {
        if j < players.len() {
        } else {
            assert(players2[i] == players[i]);
        }
    }
    assert forall|k: int| id_present(players2, k) implies id_present(players, k) || k == p.id as int by {
        let i = choose|i: int| 0 <= i < players2.len() && players2[i].id as int == k;
        if i < players.len() {
            assert(players[i].id as int == k);
        }
    }
    assert forall|k: int| id_present(players, k) implies id_present(players2, k) by {
        let i = choose|i: int| 0 <= i < players.len() && players[i].id as int == k;
        assert(players2[i].id as int == k);
    }
    assert(players2[players.len() as int].id as int == p.id as int);
    assert forall|k: int| #[trigger] players_as_map(players2).dom().contains(k) implies
        players_as_map(players2)[k] == players_as_map(players).insert(p.id as int, p@)[k] by {
        let i = index_of_id(players2, k);
        assert(0 <= i < players2.len() && players2[i].id as int == k);
        if k == p.id as int {
            if i < players.len() {
                assert(id_present(players, k));
                assert(false);
            }
            assert(players2[i] == p);
        } else {
            assert(i < players.len());
            assert(players2[i] == players[i]);
            lemma_map_at_index(players, i);
        }
    }
}

/// Overwriting the record at index `i` with one of the same id replaces
/// exactly that id's entry in the map.
proof fn lemma_map_update(players: Seq<Player>, i: int, p: Player)
    requires
        unique_ids(players),
        0 <= i < players.len(),
        p.id == players[i].id,
    ensures
        unique_ids(players.update(i, p)),
        players_as_map(players.update(i, p)) =~= players_as_map(players).insert(p.id as int, p@),
{
    let players2 = players.update(i, p);
    assert forall|a: int, b: int| 0 <= a < b < players2.len() implies players2[a].id
        != players2[b].id by {
        assert(players[a].id != players[b].id);
    }
    assert forall|k: int| id_present(players2, k) implies id_present(players, k) by {
        let a = choose|a: int| 0 <= a < players2.len() && players2[a].id as int == k;
        if a == i {
            assert(players[i].id as int == k);
        } else {
            assert(players[a].id as int == k);
        }
    }
    assert forall|k: int| id_present(players, k) implies id_present(players2, k) by {
        let a = choose|a: int| 0 <= a < players.len() && players[a].id as int == k;
        if a == i {
            assert(players2[i].id as int == k);
        } else {
            assert(players2[a].id as int == k);
        }
    }
    assert forall|k: int| #[trigger] players_as_map(players2).dom().contains(k) implies
        players_as_map(players2)[k] == players_as_map(players).insert(p.id as int, p@)[k] by {
        let a = index_of_id(players2, k);
        assert(0 <= a < players2.len() && players2[a].id as int == k);
        if k == p.id as int {
            if a != i {
                assert(players[a].id != players[i].id);
                assert(false);
            }
        } else {
            assert(a != i);
            assert(players2[a] == players[a]);
            lemma_map_at_index(players, a);
        }
    }
}

/// Removing the record at index `i` removes exactly its id's entry from
/// the map.
proof fn lemma_map_remove(players: Seq<Player>, i: int)
    requires
        unique_ids(players),
        0 <= i < players.len(),
    ensures
        unique_ids(players.remove(i)),
        players_as_map(players.remove(i)) =~= players_as_map(players).remove(
            players[i].id as int,
        ),
{
    let players2 = players.remove(i);
    assert forall|a: int, b: int| 0 <= a < b < players2.len() implies players2[a].id
        != players2[b].id by {
        let a0 = if a < i { a } else { a + 1 };
        let b0 = if b < i { b } else { b + 1 };
        assert(players2[a] == players[a0]);
        assert(players2[b] == players[b0]);
    }
    assert forall|k: int| id_present(players2, k) implies id_present(players, k) && k
        != players[i].id as int by {
        let a = choose|a: int| 0 <= a < players2.len() && players2[a].id as int == k;
        let a0 = if a < i { a } else { a + 1 };
        assert(players2[a] == players[a0]);
        assert(players[a0].id as int == k);
        assert(a0 != i);
        if k == players[i].id as int {
            assert(players[a0].id == players[i].id);
            assert(false);
        }
    }
    assert forall|k: int| id_present(players, k) && k != players[i].id as int implies id_present(
        players2,
        k,
    ) by {
        let a0 = choose|a0: int| 0 <= a0 < players.len() && players[a0].id as int == k;
        assert(a0 != i);
        let a = if a0 < i { a0 } else { a0 - 1 };
        assert(players2[a] == players[a0]);
        assert(players2[a].id as int == k);
    }
    assert forall|k: int| #[trigger] players_as_map(players2).dom().contains(k) implies
        players_as_map(players2)[k] == players_as_map(players).remove(players[i].id as int)[k] by {
        let a = index_of_id(players2, k);
        assert(0 <= a < players2.len() && players2[a].id as int == k);
        let a0 = if a < i { a } else { a + 1 };
        assert(players2[a] == players[a0]);
        lemma_map_at_index(players, a0);
    }
}

/// The player store: one record per id, keyed storage behind a map view.
pub struct PlayerStore {
    players: Vec<Player>,
}

impl View for PlayerStore {
    type V = Map<int, PlayerView>;

    closed spec fn view(&self) -> Map<int, PlayerView> {
        players_as_map(self.players@)
    }
}

impl PlayerStore {
    /// No two stored records share an id.
    #[verifier::type_invariant]
    spec fn wf(self) -> bool {
        unique_ids(self.players@)
    }

    /// An empty store.
    pub fn new() -> (s: Self)
        ensures
            s@ == Map::<int, PlayerView>::empty(),
    {
        let s = PlayerStore { players: Vec::new() };
        proof {
            assert(s@ =~= Map::<int, PlayerView>::empty());
        }
        s
    }

    /// The index of the record with id `id`, if it exists.
    fn find_index(&self, id: i32) -> (r: Option<usize>)
        ensures
            match r {
                Some(i) => i < self.players@.len() && self.players@[i as int].id == id
                    && self@.dom().contains(id as int) && self@[id as int]
                    == self.players@[i as int]@,
                None => !self@.dom().contains(id as int),
            },
    {
        proof {
            use_type_invariant(&*self);
        }
        let n = self.players.len();
        let mut i: usize = 0;
        while i < n
            invariant
                unique_ids(self.players@),
                n == self.players@.len(),
                i <= n,
                forall|j: int| 0 <= j < i ==> self.players@[j].id != id,
            decreases n - i,
        {
            if self.players[i].id == id {
                proof {
                    lemma_map_at_index(self.players@, i as int);
                }
                return Some(i);
            }
            i += 1;
        }
        None
    }

    /// Full-record read: the record stored under `id`, absent when no
    /// record has that id.
    pub fn get_player(&self, id: i32) -> (r: Option<Player>)
        ensures
            r is Some <==> self@.dom().contains(id as int),
            r is Some ==> r.unwrap()@ == self@[id as int] && r.unwrap()@.id == id as int,
    {
        match self.find_index(id) {
            Some(i) => Some(self.players[i].clone()),
            None => None,
        }
    }

    /// Field projection: the bank of the record stored under `id`.
    pub fn get_player_bank(&self, id: i32) -> (r: Option<i64>)
        ensures
            r is Some <==> self@.dom().contains(id as int),
            r is Some ==> r.unwrap() as int == self@[id as int].bank,
    {
        match self.find_index(id) {
            Some(i) => Some(self.players[i].bank),
            None => None,
        }
    }

    /// Field projection: the kill count of the record stored under `id`.
    pub fn get_player_kills(&self, id: i32) -> (r: Option<i64>)
        ensures
            r is Some <==> self@.dom().contains(id as int),
            r is Some ==> r.unwrap() as int == self@[id as int].kills,
    {
        match self.find_index(id) {
            Some(i) => Some(self.players[i].kills),
            None => None,
        }
    }

    /// Field projection: the headshot count of the record stored under `id`.
    pub fn get_player_headshots(&self, id: i32) -> (r: Option<i64>)
        ensures
            r is Some <==> self@.dom().contains(id as int),
            r is Some ==> r.unwrap() as int == self@[id as int].headshots,
    {
        match self.find_index(id) {
            Some(i) => Some(self.players[i].headshots),
            None => None,
        }
    }

    /// Field projection: the rank of the record stored under `id`.
    pub fn get_player_rank(&self, id: i32) -> (r: Option<String>)
        ensures
            r is Some <==> self@.dom().contains(id as int),
            r is Some ==> r.unwrap()@ == self@[id as int].rank,
    {
        match self.find_index(id) {
            Some(i) => Some(self.players[i].rank.clone()),
            None => None,
        }
    }

    /// Inserts a new record under its caller-supplied id. Fails with
    /// `Conflict`, leaving the store unchanged, when the id already
    /// exists; otherwise stores exactly the given record and returns it.
    pub fn create_player(&mut self, new: NewPlayer) -> (r: Result<Player, StoreError>)
        ensures
            old(self)@.dom().contains(new.id as int) ==> ({
                &&& r matches Err(e) && e == StoreError::Conflict
                &&& final(self)@ == old(self)@
            }),
            !old(self)@.dom().contains(new.id as int) ==> ({
                &&& final(self)@ == old(self)@.insert(new.id as int, new@)
                &&& r matches Ok(p) && p@ == new@
            }),
    {
        proof {
            use_type_invariant(&*self);
        }
        match self.find_index(new.id) {
            Some(_) => Err(StoreError::Conflict),
            None => {
                let p = Player {
                    id: new.id,
                    rank: new.rank,
                    kills: new.kills,
                    headshots: new.headshots,
                    bank: new.bank,
                };
                let ret = p.clone();
                let mut players: Vec<Player> = Vec::new();
                std::mem::swap(&mut players, &mut self.players);
                proof {
                    lemma_map_push(players@, p);
                }
                players.push(p);
                self.players = players;
                Ok(ret)
            },
        }
    }

    /// Partial update: applies exactly the fields present in `up` to the
    /// record stored under `id` and returns the updated record; absent
    /// when no record has that id, in which case nothing changes.
    pub fn update_player(&mut self, id: i32, up: UpdatePlayer) -> (r: Option<Player>)
        ensures
            r is Some <==> old(self)@.dom().contains(id as int),
            !old(self)@.dom().contains(id as int) ==> final(self)@ == old(self)@,
            old(self)@.dom().contains(id as int) ==> {
                &&& final(self)@ == old(self)@.insert(
                    id as int,
                    apply_update(old(self)@[id as int], up@),
                )
                &&& r.unwrap()@ == apply_update(old(self)@[id as int], up@)
            },
    {
        proof {
            use_type_invariant(&*self);
        }
        let ghost u = up@;
        match self.find_index(id) {
            None => None,
            Some(i) => {
                let mut players: Vec<Player> = Vec::new();
                std::mem::swap(&mut players, &mut self.players);
                let mut p = players[i].clone();
                let UpdatePlayer { rank, kills, headshots, bank } = up;
                if let Some(new_rank) = rank {
                    p.rank = new_rank;
                }
                if let Some(new_kills) = kills {
                    p.kills = new_kills;
                }
                if let Some(new_headshots) = headshots {
                    p.headshots = new_headshots;
                }
                if let Some(new_bank) = bank {
                    p.bank = new_bank;
                }
                let ret = p.clone();
                proof {
                    assert(p@ == apply_update(old(self)@[id as int], u));
                    lemma_map_update(players@, i as int, p);
                }
                players[i] = p;
                self.players = players;
                Some(ret)
            },
        }
    }

    /// Wholesale replacement: overwrites every field but the id of the
    /// record stored under `id` and returns the new record; absent when
    /// no record has that id, in which case nothing changes.
    pub fn replace_player(
        &mut self,
        id: i32,
        rank: String,
        kills: i64,
        headshots: i64,
        bank: i64,
    ) -> (r: Option<Player>)
        ensures
            r is Some <==> old(self)@.dom().contains(id as int),
            !old(self)@.dom().contains(id as int) ==> final(self)@ == old(self)@,
            old(self)@.dom().contains(id as int) ==> {
                &&& final(self)@ == old(self)@.insert(
                    id as int,
                    PlayerView {
                        id: id as int,
                        rank: rank@,
                        kills: kills as int,
                        headshots: headshots as int,
                        bank: bank as int,
                    },
                )
                &&& r.unwrap()@ == final(self)@[id as int]
            },
    {
        proof {
            use_type_invariant(&*self);
        }
        match self.find_index(id) {
            None => None,
            Some(i) => {
                let mut players: Vec<Player> = Vec::new();
                std::mem::swap(&mut players, &mut self.players);
                let p = Player { id, rank, kills, headshots, bank };
                let ret = p.clone();
                proof {
                    lemma_map_update(players@, i as int, p);
                }
                players[i] = p;
                self.players = players;
                Some(ret)
            },
        }
    }

    /// Delete: removes the record stored under `id`. Idempotent; returns
    /// whether a record was removed.
    pub fn delete_player(&mut self, id: i32) -> (r: bool)
        ensures
            r <==> old(self)@.dom().contains(id as int),
            final(self)@ == old(self)@.remove(id as int),
    {
        proof {
            use_type_invariant(&*self);
        }
        match self.find_index(id) {
            None => {
                proof {
                    assert(self@ =~= self@.remove(id as int));
                }
                false
            },
            Some(i) => {
                let mut players: Vec<Player> = Vec::new();
                std::mem::swap(&mut players, &mut self.players);
                proof {
                    lemma_map_remove(players@, i as int);
                }
                players.remove(i);
                self.players = players;
                true
            },
        }
    }

    /// Direct rank assignment, validated by membership in the rank
    /// ladder: a requested value outside the ladder is rejected with
    /// `InvalidRank` before any write; an unknown id fails with
    /// `NotFound`; otherwise the stored rank is set to the requested
    /// code, which is returned.
    pub fn assign_rank(&mut self, id: i32, requested: &str) -> (r: Result<String, StoreError>)
        ensures
            !is_rank_code(requested@) ==> ({
                &&& r matches Err(e) && e == StoreError::InvalidRank
                &&& final(self)@ == old(self)@
            }),
            is_rank_code(requested@) && !old(self)@.dom().contains(id as int) ==> ({
                &&& r matches Err(e) && e == StoreError::NotFound
                &&& final(self)@ == old(self)@
            }),
            is_rank_code(requested@) && old(self)@.dom().contains(id as int) ==> {
                &&& r matches Ok(s) && s@ == requested@
                &&& final(self)@ == old(self)@.insert(
                    id as int,
                    PlayerView { rank: requested@, ..old(self)@[id as int] },
                )
            },
    {
        proof {
            use_type_invariant(&*self);
        }
        if parse_rank(requested).is_none() {
            return Err(StoreError::InvalidRank);
        }
        match self.find_index(id) {
            None => Err(StoreError::NotFound),
            Some(i) => {
                let mut players: Vec<Player> = Vec::new();
                std::mem::swap(&mut players, &mut self.players);
                let mut p = players[i].clone();
                p.rank = requested.to_owned();
                proof {
                    lemma_map_update(players@, i as int, p);
                }
                players[i] = p;
                self.players = players;
                Ok(requested.to_owned())
            },
        }
    }

    /// Level-up: reads the stored rank and stats, asks the progression
    /// engine for a decision, writes the advanced rank back when the
    /// engine calls for it, and returns the resulting (possibly
    /// unchanged) rank. Absent when no record has that id. The whole
    /// read-decide-write sequence holds the store exclusively, so two
    /// level-ups of the same player cannot interleave.
    pub fn level_up_player(&mut self, id: i32) -> (r: Option<String>)
        ensures
            r is Some <==> old(self)@.dom().contains(id as int),
            !old(self)@.dom().contains(id as int) ==> final(self)@ == old(self)@,
            old(self)@.dom().contains(id as int) ==> ({
                let pv = old(self)@[id as int];
                match level_up_decision(pv.rank, pv.kills, pv.headshots) {
                    Some(q) => final(self)@ == old(self)@.insert(
                        id as int,
                        PlayerView { rank: rank_name(q), ..pv },
                    ) && r.unwrap()@ == rank_name(q),
                    None => final(self)@ == old(self)@ && r.unwrap()@ == pv.rank,
                }
            }),
    {
        proof {
            use_type_invariant(&*self);
        }
        match self.find_index(id) {
            None => None,
            Some(i) => {
                let decision = evaluate_level_up(
                    self.players[i].rank.as_str(),
                    self.players[i].kills,
                    self.players[i].headshots,
                );
                match decision {
                    Some(next_rank) => {
                        let mut players: Vec<Player> = Vec::new();
                        std::mem::swap(&mut players, &mut self.players);
                        let mut p = players[i].clone();
                        p.rank = next_rank.clone();
                        proof {
                            lemma_map_update(players@, i as int, p);
                        }
                        players[i] = p;
                        self.players = players;
                        Some(next_rank)
                    },
                    None => Some(self.players[i].rank.clone()),
                }
            },
        }
    }
}

/// Creating a record and then reading the same id yields exactly the
/// record created, and deleting an id and then reading it yields
/// absence: stated over the map view through which `create_player`,
/// `get_player` and `delete_player` specify their effect.
pub proof fn lemma_round_trip(m: Map<int, PlayerView>, id: int, p: PlayerView)
    ensures
        m.insert(id, p).dom().contains(id),
        m.insert(id, p)[id] == p,
        !m.remove(id).dom().contains(id),
{
}

} // verus!
