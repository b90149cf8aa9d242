//! Session orchestration: rendezvous readiness, roster assignment and
//! lifecycle events.
//!
//! Once the rendezvous channel reports exactly the required peers, a
//! session is built with a stable, order-assigned roster: slot `i` belongs
//! to the `i`-th peer of the rendezvous list, which every peer observes in
//! the same order. The id-to-slot mapping is fixed at that moment and
//! never changes for the match's lifetime. There is no reconnection: a
//! disconnect or desync tears the session down and the caller must
//! rendezvous afresh.

use vstd::prelude::*;

use crate::error::GameError;

verus! {

/// The number of peers a match requires.
pub const NUM_PLAYERS: usize = 2;

/// Frames of local input buffered before application, trading input
/// latency for a smaller rollback window.
pub const INPUT_DELAY: usize = 2;

/// Peers exchange a checksum over rollback-tracked state every this many
/// frames.
pub const DESYNC_INTERVAL: u32 = 10;

/// The generator seed a fresh match starts from.
pub const MATCH_SEED: u64 = 8_008_135;

/// The fixed simulation frequency, in steps per second.
pub const SIM_FPS: u32 = 60;

/// The top-level lifecycle of the application around a session.
#[derive(Clone, Copy, Debug, Hash, PartialEq, Eq, Structural)]
pub enum GameState {
    Loading,
    Lobby,
    Connecting,
    Game,
}

impl Default for GameState {
    /// The application starts out loading.
    fn default() -> (r: GameState)
        ensures
            r is Loading,
    {
        GameState::Loading
    }
}

/// What the transport reports about a running session.
#[derive(Clone, Copy, Debug, PartialEq, Eq, Structural)]
pub enum SessionEvent {
    Synchronizing,
    Synchronized,
    Disconnected,
    DesyncDetected,
    NetworkInterrupted,
    NetworkResumed,
    WaitRecommendation,
}

/// A built session: the ordered roster (slot to peer id), the local
/// peer's slot, and the match parameters.
#[derive(Debug)]
pub struct Session {
    pub roster: Vec<u64>,
    pub local_handle: usize,
    pub input_delay: usize,
    pub desync_interval: u32,
}

/// The first position of `id` in the ordered peer list, or -1 when the
/// id does not appear.
pub open spec fn spec_first_index(players: Seq<u64>, id: u64) -> int
    decreases players.len(),
{
    if players.len() == 0 {
        -1
    } else if players[0] == id {
        0
    } else {
        let rest = spec_first_index(players.drop_first(), id);
        if rest < 0 {
            -1
        } else {
            rest + 1
        }
    }
}

/// A peer list is ready when it holds at least the required peer count
/// and the local peer appears in it.
pub open spec fn spec_ready(players: Seq<u64>, my_id: u64) -> bool {
    players.len() >= NUM_PLAYERS && spec_first_index(players, my_id) >= 0
}

/// A non-negative first index points at the id, and nothing before it
/// matches; and an id that appears anywhere has a non-negative first
/// index.
pub proof fn lemma_first_index_props(players: Seq<u64>, id: u64)
    ensures
        spec_first_index(players, id) >= 0 ==> {
            let i = spec_first_index(players, id);
            &&& 0 <= i < players.len()
            &&& players[i] == id
            &&& forall|j: int| 0 <= j < i ==> players[j] != id
        },
        (exists|j: int| 0 <= j < players.len() && players[j] == id) ==> spec_first_index(
            players,
            id,
        ) >= 0,
    decreases players.len(),
{
    if players.len() > 0 && players[0] != id {
        lemma_first_index_props(players.drop_first(), id);
        let rest = spec_first_index(players.drop_first(), id);
        if rest >= 0 {
            assert(players.drop_first()[rest] == players[rest + 1]);
            assert forall|j: int| 0 <= j < rest + 1 implies players[j] != id by {
                if j > 0 {
                    assert(players.drop_first()[j - 1] == players[j]);
                }
            }
        }
        if exists|j: int| 0 <= j < players.len() && players[j] == id {
            let j = choose|j: int| 0 <= j < players.len() && players[j] == id;
            assert(players.drop_first()[j - 1] == id);
        }
    }
}

/// Any index that points at the id with nothing before it matching is
/// the first index.
pub proof fn lemma_first_index_unique(players: Seq<u64>, id: u64, i: int)
    requires
        0 <= i < players.len(),
        players[i] == id,
        forall|j: int| 0 <= j < i ==> players[j] != id,
    ensures
        spec_first_index(players, id) == i,
{
    lemma_first_index_props(players, id);
    let f = spec_first_index(players, id);
    if f < i {
        assert(players[f] != id);
    }
}

/// Decide whether the rendezvous is complete and, if so, build the
/// session.
///
/// While the channel has not been handed over, or fewer than the required
/// peers are present, the transport is simply not ready and the caller
/// polls again. With the peers present, the roster is the rendezvous
/// list itself — slot `i` is the `i`-th peer — and the local slot is the
/// first position of the local peer's id; a list that does not contain
/// the local peer is a broken configuration. Succeeds exactly when the
/// channel is ready, at least `NUM_PLAYERS` peers are listed and the
/// local id is among them.
pub fn wait_for_players(channel_ready: bool, players: &Vec<u64>, my_id: u64) -> (r: Result<
    Session,
    GameError,
>)
    ensures
        !channel_ready ==> (r matches Err(e) && e is TransportNotReady),
        channel_ready && players@.len() < NUM_PLAYERS ==> (r matches Err(e)
            && e is TransportNotReady),
        channel_ready && players@.len() >= NUM_PLAYERS && spec_first_index(players@, my_id) < 0
            ==> (r matches Err(e) && e is ConfigurationError),
        channel_ready && spec_ready(players@, my_id) ==> (r matches Ok(s) && s.roster@ == players@
            && s.local_handle == spec_first_index(players@, my_id) && s.input_delay == INPUT_DELAY
            && s.desync_interval == DESYNC_INTERVAL),
{
    if !channel_ready {
        return Err(GameError::TransportNotReady);
    }
    if players.len() < NUM_PLAYERS {
        return Err(GameError::TransportNotReady);
    }
    let mut i: usize = 0;
    let mut local: Option<usize> = None;
    while i < players.len()
        invariant
            i <= players@.len(),
            (match local {
                Some(h) => h < i && players@[h as int] == my_id && forall|j: int|
                    0 <= j < h ==> players@[j] != my_id,
                None => forall|j: int| 0 <= j < i ==> players@[j] != my_id,
            }),
        decreases players@.len() - i,
    {
        if local.is_none() && players[i] == my_id {
            local = Some(i);
        }
        i = i + 1;
    }
    match local {
        Some(h) => {
            proof {
                lemma_first_index_unique(players@, my_id, h as int);
            }
            let mut roster: Vec<u64> = Vec::new();
            let mut k: usize = 0;
            while k < players.len()
                invariant
                    k <= players@.len(),
                    roster@ == players@.take(k as int),
                decreases players@.len() - k,
            {
                roster.push(players[k]);
                proof {
                    assert(roster@ =~= players@.take(k + 1 as int));
                }
                k = k + 1;
            }
            proof {
                assert(roster@ =~= players@);
            }
            Ok(
                Session {
                    roster,
                    local_handle: h,
                    input_delay: INPUT_DELAY,
                    desync_interval: DESYNC_INTERVAL,
                },
            )
        },
        None => {
            proof {
                lemma_first_index_props(players@, my_id);
            }
            Err(GameError::ConfigurationError)
        },
    }
}

/// Two peers that observe the same ordered rendezvous list agree: each
/// builds the identical roster — the list itself — and each computes its
/// own slot as its own first position in that list, so two distinct
/// peers never claim the same slot.
pub proof fn lemma_roster_agreement(players: Seq<u64>, id_a: u64, id_b: u64)
    requires
        spec_ready(players, id_a),
        spec_ready(players, id_b),
        id_a != id_b,
    ensures
        players[spec_first_index(players, id_a)] == id_a,
        players[spec_first_index(players, id_b)] == id_b,
        spec_first_index(players, id_a) != spec_first_index(players, id_b),
{
    lemma_first_index_props(players, id_a);
    lemma_first_index_props(players, id_b);
}

/// Translate a transport event into the next lifecycle state and the
/// error to surface.
///
/// A peer disconnect or a detected desync tears the session down: the
/// application returns to the lobby and the caller must rendezvous
/// afresh. A desync is surfaced, never auto-corrected — it marks a
/// violated determinism contract. Every other event leaves the state
/// unchanged.
pub fn process_ggrs_events(state: GameState, event: &SessionEvent) -> (r: (
    GameState,
    Option<GameError>,
))
    ensures
        event is Disconnected ==> r == (GameState::Lobby, Some(GameError::PeerDisconnected)),
        event is DesyncDetected ==> r == (GameState::Lobby, Some(GameError::DesyncDetected)),
        !(event is Disconnected) && !(event is DesyncDetected) ==> r == (
            state,
            None::<GameError>,
        ),
{
    match event {
        SessionEvent::Disconnected => (GameState::Lobby, Some(GameError::PeerDisconnected)),
        SessionEvent::DesyncDetected => (GameState::Lobby, Some(GameError::DesyncDetected)),
        _ => (state, None),
    }
}

} // verus!
