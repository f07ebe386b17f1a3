//! The persisted player record, the payloads used to create, partially
//! update or report on one, and the error kinds the store distinguishes.

use vstd::prelude::*;

verus! {

/// Mathematical value of a player record: the id it is keyed by, the rank
/// code as a character sequence, and the three integer counters.
pub struct PlayerView {
    pub id: int,
    pub rank: Seq<char>,
    pub kills: int,
    pub headshots: int,
    pub bank: int,
}

/// One player's persisted record. The rank is a free-form string: records
/// whose rank lies outside the rank ladder are stored as given, and the
/// progression engine treats them as "no change".
pub struct Player {
    pub id: i32,
    pub rank: String,
    pub kills: i64,
    pub headshots: i64,
    pub bank: i64,
}

impl View for Player {
    type V = PlayerView;

    open spec fn view(&self) -> PlayerView {
        PlayerView {
            id: self.id as int,
            rank: self.rank@,
            kills: self.kills as int,
            headshots: self.headshots as int,
            bank: self.bank as int,
        }
    }
}

impl Clone for Player {
    /// A cloned record has the same value as the original.
    fn clone(&self) -> (r: Self)
        ensures
            r@ == self@,
    {
        Player {
            id: self.id,
            rank: self.rank.clone(),
            kills: self.kills,
            headshots: self.headshots,
            bank: self.bank,
        }
    }
}

/// The payload of a create request: a full record, with the caller-supplied id.
pub struct NewPlayer {
    pub id: i32,
    pub rank: String,
    pub kills: i64,
    pub headshots: i64,
    pub bank: i64,
}

impl View for NewPlayer {
    type V = PlayerView;

    open spec fn view(&self) -> PlayerView {
        PlayerView {
            id: self.id as int,
            rank: self.rank@,
            kills: self.kills as int,
            headshots: self.headshots as int,
            bank: self.bank as int,
        }
    }
}

/// Mathematical value of a partial update: each field either absent
/// (leave the stored value) or present (overwrite it).
pub struct UpdateView {
    pub rank: Option<Seq<char>>,
    pub kills: Option<int>,
    pub headshots: Option<int>,
    pub bank: Option<int>,
}

/// The payload of a partial update: every field is optional, and only the
/// fields that are present are written. The id cannot be changed.
pub struct UpdatePlayer {
    pub rank: Option<String>,
    pub kills: Option<i64>,
    pub headshots: Option<i64>,
    pub bank: Option<i64>,
}

impl View for UpdatePlayer {
    type V = UpdateView;

    open spec fn view(&self) -> UpdateView {
        UpdateView {
            rank: match self.rank {
                Some(ref s) => Some(s@),
                None => None,
            },
            kills: match self.kills {
                Some(k) => Some(k as int),
                None => None,
            },
            headshots: match self.headshots {
                Some(h) => Some(h as int),
                None => None,
            },
            bank: match self.bank {
                Some(b) => Some(b as int),
                None => None,
            },
        }
    }
}

/// The record that results from applying the partial update `u` to the
/// stored record `p`: present fields overwrite, absent fields are kept,
/// and the id is untouched.
pub open spec fn apply_update(p: PlayerView, u: UpdateView) -> PlayerView {
    PlayerView {
        id: p.id,
        rank: match u.rank {
            Some(r) => r,
            None => p.rank,
        },
        kills: match u.kills {
            Some(k) => k,
            None => p.kills,
        },
        headshots: match u.headshots {
            Some(h) => h,
            None => p.headshots,
        },
        bank: match u.bank {
            Some(b) => b,
            None => p.bank,
        },
    }
}

/// A partial update that carries only a bank value sets the bank to that
/// value and leaves rank, kills, headshots and the id unchanged.
pub proof fn lemma_bank_only_update(p: PlayerView, u: UpdateView)
    requires
        u.rank is None,
        u.kills is None,
        u.headshots is None,
        u.bank is Some,
    ensures
        apply_update(p, u).bank == u.bank.unwrap(),
        apply_update(p, u).rank == p.rank,
        apply_update(p, u).kills == p.kills,
        apply_update(p, u).headshots == p.headshots,
        apply_update(p, u).id == p.id,
{
}

/// The error kinds a store operation distinguishes.
#[derive(Clone, Copy, Debug, PartialEq, Eq, Structural)]
pub enum StoreError {
    /// The operation addressed a player id that does not exist.
    NotFound,
    /// A rank assignment named a value outside the rank ladder.
    InvalidRank,
    /// A create request carried an id that already exists.
    Conflict,
}

/// The error payload reported to callers.
pub struct ErrorResponse {
    pub error: String,
}

impl ErrorResponse {
    /// The response describing `e`, with the human-readable message.
    pub fn of_error(e: StoreError) -> (r: ErrorResponse)
        ensures
            r.error@ == error_message(e),
    {
        let msg: &str = match e {
            StoreError::NotFound => "Player not found",
            StoreError::InvalidRank => "Invalid rank",
            StoreError::Conflict => "Player already exists",
        };
        ErrorResponse { error: msg.to_owned() }
    }
}

/// The message text that describes each error kind.
pub open spec fn error_message(e: StoreError) -> Seq<char> {
    match e {
        StoreError::NotFound => "Player not found"@,
        StoreError::InvalidRank => "Invalid rank"@,
        StoreError::Conflict => "Player already exists"@,
    }
}

} // verus!
