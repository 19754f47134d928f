use vstd::prelude::*;

use crate::errors::Error;
use crate::hashing::commitment_of;
use crate::session::{
    alive_count, circular_distance, fire_allowed, fire_error, is_member, is_zero_bytes,
    join_allowed, join_error, join_post, lemma_alive_count_zero, lemma_first_alive_some,
    lemma_scan_finds, lemma_scan_first, lemma_scan_sound, lemma_unique_alive, load_allowed,
    load_error, next_turn, session_wf, Jugador, PartidaRuleta, NUM_CHAMBERS, PHASE_FINISHED,
    PHASE_PLAYING, PHASE_WAITING,
};

verus! {

/// A successful join grows the roster by exactly one, and the roster never
/// exceeds three players: the n-th successful join leaves n players, and a
/// fourth can never succeed.
pub proof fn lemma_join_grows_roster(
    pre: PartidaRuleta,
    post: PartidaRuleta,
    player: u64,
    points: i128,
)
    requires
        join_allowed(pre, player),
        join_post(pre, post, player, points),
    ensures
        post.players@.len() == pre.players@.len() + 1,
        post.players@.len() <= 3,
{
}

/// A join attempted on a full waiting lobby always fails, with LobbyFull.
pub proof fn lemma_full_lobby_rejected(g: PartidaRuleta, player: u64)
    requires
        g.phase == PHASE_WAITING,
        g.players@.len() >= 3,
    ensures
        !join_allowed(g, player),
        join_error(g, player) == Error::LobbyFull,
{
}

/// An identity on the roster stays on it through any later join, so a
/// repeat join keeps failing whatever joins come in between.
pub proof fn lemma_membership_preserved(
    pre: PartidaRuleta,
    post: PartidaRuleta,
    player: u64,
    points: i128,
    who: u64,
)
    requires
        join_post(pre, post, player, points),
        is_member(pre.players@, who) || who == player,
    ensures
        is_member(post.players@, who),
{
    if who == player {
        assert(post.players@[pre.players@.len() as int].address == who);
    } else {
        let i = choose|i: int| 0 <= i < pre.players@.len() && pre.players@[i].address == who;
        assert(post.players@[i].address == who);
    }
}

/// Joining twice with the same identity in one session fails with
/// AlreadyJoined, as long as the lobby is still waiting and not full (a
/// full lobby reports LobbyFull first).
pub proof fn lemma_rejoin_rejected(g: PartidaRuleta, who: u64)
    requires
        g.phase == PHASE_WAITING,
        g.players@.len() < 3,
        is_member(g.players@, who),
    ensures
        !join_allowed(g, who),
        join_error(g, who) == Error::AlreadyJoined,
{
}

/// A load of a ready, waiting session by any identity but the first joiner
/// always fails with NotPlayer.
pub proof fn lemma_load_non_host_rejected(g: PartidaRuleta, who: u64, position: u32)
    requires
        g.players@.len() >= 2,
        g.phase == PHASE_WAITING,
        position < NUM_CHAMBERS,
        g.players@[0].address != who,
    ensures
        !load_allowed(g, who, position),
        load_error(g, who, position) == Error::NotPlayer,
{
}

/// A load of a session with fewer than two players always fails with
/// NotEnoughPlayers, whoever calls and whatever the position.
pub proof fn lemma_load_underfull_rejected(g: PartidaRuleta, who: u64, position: u32)
    requires
        g.players@.len() < 2,
    ensures
        !load_allowed(g, who, position),
        load_error(g, who, position) == Error::NotEnoughPlayers,
{
}

/// Commitments are deterministic: the same salt and position always yield
/// the same commitment value.
pub proof fn lemma_commitment_deterministic(salt1: Seq<u8>, pos1: u32, salt2: Seq<u8>, pos2: u32)
    requires
        salt1 == salt2,
        pos1 == pos2,
    ensures
        commitment_of(salt1, pos1) == commitment_of(salt2, pos2),
{
}

/// The all-zero proof value is always refused with InvalidProof when the
/// shot is otherwise in order; fire's contract then guarantees the stored
/// session is left exactly as it was.
pub proof fn lemma_zero_proof_rejected(g: PartidaRuleta, player: u64, zk_proof: Seq<u8>)
    requires
        session_wf(g),
        g.phase == PHASE_PLAYING,
        g.players@[g.current_turn as int].address == player,
        is_zero_bytes(zk_proof),
    ensures
        !fire_allowed(g, player, zk_proof),
        fire_error(g, player, zk_proof) == Error::InvalidProof,
{
}

/// The turn handed on after a shot is the next alive player in roster
/// order, wrapping: it is alive, and no alive player sits strictly closer
/// after the acting one.
pub proof fn lemma_next_turn_nearest_alive(ps: Seq<Jugador>, cur: int, j: int)
    requires
        0 <= cur < ps.len(),
        alive_count(ps) >= 1,
        0 <= j < ps.len(),
        ps[j].is_alive,
    ensures
        ({
            let start = if cur + 1 >= ps.len() {
                0int
            } else {
                cur + 1
            };
            let nt = next_turn(ps, cur);
            &&& 0 <= nt < ps.len()
            &&& ps[nt].is_alive
            &&& circular_distance(start, nt, ps.len() as int) <= circular_distance(
                start,
                j,
                ps.len() as int,
            )
        }),
{
    let start = if cur + 1 >= ps.len() {
        0int
    } else {
        cur + 1
    };
    lemma_alive_count_zero(ps);
    let t = choose|t: int| 0 <= t < ps.len() && ps[t].is_alive;
    assert(circular_distance(start, t, ps.len() as int) < ps.len() as int);
    lemma_scan_finds(ps, start, ps.len(), t);
    lemma_scan_sound(ps, start, ps.len());
    lemma_scan_first(ps, start, ps.len(), j);
}

/// A finished three-player game stands with exactly two eliminated players,
/// and the winner is the identity of the unique player left alive.
pub proof fn lemma_finished_three_players(g: PartidaRuleta)
    requires
        session_wf(g),
        g.phase == PHASE_FINISHED,
        g.players@.len() == 3,
    ensures
        g.eliminated@.len() == 2,
        g.winner is Some,
        forall|i: int|
            0 <= i < g.players@.len() && (#[trigger] g.players@[i]).is_alive ==> g.winner == Some(
                g.players@[i].address,
            ),
{
    lemma_first_alive_some(g.players@);
    assert forall|i: int|
        0 <= i < g.players@.len() && (#[trigger] g.players@[i]).is_alive implies g.winner == Some(
        g.players@[i].address,
    ) by {
        lemma_unique_alive(g.players@, i);
    }
}

} // verus!
