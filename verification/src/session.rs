use vstd::prelude::*;

use crate::errors::Error;
use crate::hashing::{derive_bullet_position, reload_position};

verus! {

/// Fewest players a game can start with.
pub const MIN_PLAYERS: u32 = 2;

/// Most players a session's lobby can hold.
pub const MAX_PLAYERS: u32 = 3;

/// Number of chambers in the revolver's cylinder.
pub const NUM_CHAMBERS: u32 = 6;

/// Session is waiting for players to join.
pub const PHASE_WAITING: u32 = 0;

/// Session is live: players fire in turn.
pub const PHASE_PLAYING: u32 = 1;

/// Session is over: a winner stands.
pub const PHASE_FINISHED: u32 = 2;

/// One registered player. Identities are the plain numeric form of the
/// account addresses the host platform hands in; `alive` flips to false
/// exactly once, on elimination.
#[derive(Clone, Copy, Debug, PartialEq, Eq, Structural)]
pub struct Jugador {
    pub address: u64,
    pub is_alive: bool,
    pub points: i128,
}

/// One game session: the aggregate the engine stores per session id.
/// Join order defines turn rotation, and the player at index 0 is the host.
#[derive(Debug)]
pub struct PartidaRuleta {
    pub players: Vec<Jugador>,
    pub phase: u32,
    pub current_turn: u32,
    pub current_chamber: u32,
    pub bullet_commitment: [u8; 32],
    pub bullet_position: u32,
    pub eliminated: Vec<u64>,
    pub winner: Option<u64>,
    pub session_id: u32,
    pub shots_fired: u32,
    pub hub_player1: u64,
    pub hub_player2: u64,
}

/// How many of `ps` are still alive.
pub open spec fn alive_count(ps: Seq<Jugador>) -> nat
    decreases ps.len(),
{
    if ps.len() == 0 {
        0
    } else {
        alive_count(ps.drop_last()) + if ps.last().is_alive {
            1nat
        } else {
            0nat
        }
    }
}

/// Whether `who` is on the roster.
pub open spec fn is_member(ps: Seq<Jugador>, who: u64) -> bool {
    exists|i: int| 0 <= i < ps.len() && ps[i].address == who
}

/// Identity of the first alive player at or after index `i`, if any.
pub open spec fn first_alive_from(ps: Seq<Jugador>, i: int) -> Option<u64>
    decreases ps.len() - i,
{
    if i < 0 || i >= ps.len() {
        None
    } else if ps[i].is_alive {
        Some(ps[i].address)
    } else {
        first_alive_from(ps, i + 1)
    }
}

/// Identity of the first alive player on the roster, if any.
pub open spec fn first_alive(ps: Seq<Jugador>) -> Option<u64> {
    first_alive_from(ps, 0)
}

/// Circular scan: the first index holding an alive player, starting at
/// `pos`, wrapping at the roster's end, probing at most `fuel` slots.
pub open spec fn scan_alive(ps: Seq<Jugador>, pos: int, fuel: nat) -> Option<int>
    decreases fuel,
{
    if fuel == 0 {
        None
    } else if 0 <= pos < ps.len() && ps[pos].is_alive {
        Some(pos)
    } else {
        scan_alive(ps, if pos + 1 >= ps.len() { 0 } else { pos + 1 }, (fuel - 1) as nat)
    }
}

/// The turn after `cur`: the next alive player in roster order, wrapping,
/// or `cur` itself if a full circle finds nobody alive.
pub open spec fn next_turn(ps: Seq<Jugador>, cur: int) -> int {
    let start = if cur + 1 >= ps.len() { 0 } else { cur + 1 };
    match scan_alive(ps, start, ps.len()) {
        Some(i) => i,
        None => cur,
    }
}

/// Steps a circular walk takes to reach slot `b` from slot `a` in a roster
/// of `n` slots.
pub open spec fn circular_distance(a: int, b: int, n: int) -> int {
    if b >= a {
        b - a
    } else {
        b + n - a
    }
}

/// Whether a byte sequence is all zero: the one proof value the proof gate
/// rejects.
pub open spec fn is_zero_bytes(s: Seq<u8>) -> bool {
    forall|i: int| 0 <= i < s.len() ==> s[i] == 0
}

/// Well-formedness of a session: every state the engine stores satisfies
/// this, every transition preserves it.
pub open spec fn session_wf(g: PartidaRuleta) -> bool {
    &&& g.players@.len() <= MAX_PLAYERS
    &&& (forall|i: int, j: int|
        0 <= i < j < g.players@.len() ==> g.players@[i].address != g.players@[j].address)
    &&& (g.phase == PHASE_WAITING || g.phase == PHASE_PLAYING || g.phase == PHASE_FINISHED)
    &&& g.bullet_position < NUM_CHAMBERS
    &&& g.current_chamber <= g.bullet_position
    &&& g.eliminated@.len() + alive_count(g.players@) == g.players@.len()
    &&& (g.players@.len() >= 1 ==> g.hub_player1 == g.players@[0].address)
    &&& (g.players@.len() >= 2 ==> g.hub_player2 == g.players@[1].address)
    &&& (g.phase == PHASE_WAITING ==> {
        &&& (forall|i: int| 0 <= i < g.players@.len() ==> g.players@[i].is_alive)
        &&& g.eliminated@.len() == 0
        &&& g.current_turn == 0
        &&& g.current_chamber == 0
    })
    &&& (g.phase != PHASE_WAITING ==> g.players@.len() >= MIN_PLAYERS)
    &&& (g.phase == PHASE_PLAYING ==> {
        &&& (g.current_turn as int) < g.players@.len()
        &&& g.players@[g.current_turn as int].is_alive
        &&& alive_count(g.players@) >= 2
    })
    &&& (g.phase == PHASE_FINISHED ==> {
        &&& alive_count(g.players@) == 1
        &&& g.winner == first_alive(g.players@)
    })
    &&& (g.winner is Some <==> g.phase == PHASE_FINISHED)
}

/// Field-by-field equality of two session values.
pub open spec fn same_session(a: PartidaRuleta, b: PartidaRuleta) -> bool {
    &&& a.players@ == b.players@
    &&& a.phase == b.phase
    &&& a.current_turn == b.current_turn
    &&& a.current_chamber == b.current_chamber
    &&& a.bullet_commitment == b.bullet_commitment
    &&& a.bullet_position == b.bullet_position
    &&& a.eliminated@ == b.eliminated@
    &&& a.winner == b.winner
    &&& a.session_id == b.session_id
    &&& a.shots_fired == b.shots_fired
    &&& a.hub_player1 == b.hub_player1
    &&& a.hub_player2 == b.hub_player2
}

// ------------------------------------------------------------------
// Transition relations
// ------------------------------------------------------------------

/// When a join succeeds: the lobby is still waiting, not full, and the
/// identity is new.
pub open spec fn join_allowed(g: PartidaRuleta, player: u64) -> bool {
    &&& g.phase == PHASE_WAITING
    &&& g.players@.len() < MAX_PLAYERS
    &&& !is_member(g.players@, player)
}

/// The error a refused join reports, checks in the order they are made.
pub open spec fn join_error(g: PartidaRuleta, player: u64) -> Error {
    if g.phase != PHASE_WAITING {
        Error::WrongPhase
    } else if g.players@.len() >= MAX_PLAYERS {
        Error::LobbyFull
    } else {
        Error::AlreadyJoined
    }
}

/// How a successful join changes the session: the player is appended alive,
/// the hub snapshots track the first two joiners, everything else stays.
pub open spec fn join_post(pre: PartidaRuleta, post: PartidaRuleta, player: u64, points: i128) -> bool {
    &&& post.players@ == pre.players@.push(Jugador { address: player, is_alive: true, points })
    &&& post.hub_player1 == if pre.players@.len() == 0 {
        player
    } else {
        pre.hub_player1
    }
    &&& post.hub_player2 == if pre.players@.len() == 1 {
        player
    } else {
        pre.hub_player2
    }
    &&& post.phase == pre.phase
    &&& post.current_turn == pre.current_turn
    &&& post.current_chamber == pre.current_chamber
    &&& post.bullet_commitment == pre.bullet_commitment
    &&& post.bullet_position == pre.bullet_position
    &&& post.eliminated@ == pre.eliminated@
    &&& post.winner == pre.winner
    &&& post.session_id == pre.session_id
    &&& post.shots_fired == pre.shots_fired
}

/// A session freshly created by `player`'s first join: the lazily
/// initialised record with default hazard fields and one alive player.
pub open spec fn fresh_joined(g: PartidaRuleta, session_id: u32, player: u64, points: i128) -> bool {
    &&& g.players@ == seq![Jugador { address: player, is_alive: true, points }]
    &&& g.phase == PHASE_WAITING
    &&& g.current_turn == 0
    &&& g.current_chamber == 0
    &&& g.bullet_commitment@ == Seq::new(32, |i: int| 0u8)
    &&& g.bullet_position == 0
    &&& g.eliminated@ == Seq::<u64>::empty()
    &&& g.winner is None
    &&& g.session_id == session_id
    &&& g.shots_fired == 0
    &&& g.hub_player1 == player
    &&& g.hub_player2 == player
}

/// When a load succeeds: enough players, the session has not started or
/// finished, the chamber index is valid, and the caller is the host
/// (roster index 0).
pub open spec fn load_allowed(g: PartidaRuleta, player: u64, bullet_position: u32) -> bool {
    &&& g.players@.len() >= MIN_PLAYERS
    &&& g.phase != PHASE_FINISHED
    &&& g.phase != PHASE_PLAYING
    &&& bullet_position < NUM_CHAMBERS
    &&& g.players@[0].address == player
}

/// The error a refused load reports, checks in the order they are made.
pub open spec fn load_error(g: PartidaRuleta, player: u64, bullet_position: u32) -> Error {
    if g.players@.len() < MIN_PLAYERS {
        Error::NotEnoughPlayers
    } else if g.phase == PHASE_FINISHED {
        Error::GameAlreadyEnded
    } else if g.phase == PHASE_PLAYING {
        Error::AlreadyStarted
    } else if bullet_position >= NUM_CHAMBERS {
        Error::InvalidChamber
    } else {
        Error::NotPlayer
    }
}

/// How a successful load changes the session: commitment and position are
/// bound, play starts at turn 0 with chamber 0.
pub open spec fn load_post(
    pre: PartidaRuleta,
    post: PartidaRuleta,
    commitment: Seq<u8>,
    bullet_position: u32,
) -> bool {
    &&& post.players@ == pre.players@
    &&& post.phase == PHASE_PLAYING
    &&& post.bullet_commitment@ == commitment
    &&& post.bullet_position == bullet_position
    &&& post.current_turn == 0
    &&& post.current_chamber == 0
    &&& post.eliminated@ == pre.eliminated@
    &&& post.winner == pre.winner
    &&& post.session_id == pre.session_id
    &&& post.shots_fired == pre.shots_fired
    &&& post.hub_player1 == pre.hub_player1
    &&& post.hub_player2 == pre.hub_player2
}

/// When a shot resolves: the session is live, the caller is the alive
/// player whose turn it is, the chamber index is valid and the proof value
/// passes the proof gate.
pub open spec fn fire_allowed(g: PartidaRuleta, player: u64, zk_proof: Seq<u8>) -> bool {
    &&& g.phase == PHASE_PLAYING
    &&& g.players@[g.current_turn as int].address == player
    &&& g.players@[g.current_turn as int].is_alive
    &&& g.current_chamber < NUM_CHAMBERS
    &&& !is_zero_bytes(zk_proof)
}

/// The error a refused shot reports, checks in the order they are made.
pub open spec fn fire_error(g: PartidaRuleta, player: u64, zk_proof: Seq<u8>) -> Error {
    if g.phase != PHASE_PLAYING {
        Error::WrongPhase
    } else if g.players@[g.current_turn as int].address != player {
        Error::NotYourTurn
    } else if !g.players@[g.current_turn as int].is_alive {
        Error::PlayerEliminated
    } else if g.current_chamber >= NUM_CHAMBERS {
        Error::InvalidChamber
    } else {
        Error::InvalidProof
    }
}

/// The roster after the player at `turn` is eliminated: same identities and
/// points, that one alive flag flipped to false.
pub open spec fn killed(ps: Seq<Jugador>, turn: int) -> Seq<Jugador> {
    ps.update(turn, Jugador { address: ps[turn].address, is_alive: false, points: ps[turn].points })
}

/// A survived shot: the chamber counter advances by one, the turn passes to
/// the next alive player, the shot counter grows.
pub open spec fn fire_post_miss(pre: PartidaRuleta, post: PartidaRuleta) -> bool {
    &&& post.players@ == pre.players@
    &&& post.phase == PHASE_PLAYING
    &&& post.current_chamber == pre.current_chamber + 1
    &&& post.current_turn as int == next_turn(pre.players@, pre.current_turn as int)
    &&& post.shots_fired == pre.shots_fired + 1
    &&& post.bullet_commitment == pre.bullet_commitment
    &&& post.bullet_position == pre.bullet_position
    &&& post.eliminated@ == pre.eliminated@
    &&& post.winner == pre.winner
    &&& post.session_id == pre.session_id
    &&& post.hub_player1 == pre.hub_player1
    &&& post.hub_player2 == pre.hub_player2
}

/// A fatal shot that ends the game: the acting player dies, is appended to
/// the eliminated list, and the one player left alive is the winner.
pub open spec fn fire_post_finish(pre: PartidaRuleta, post: PartidaRuleta) -> bool {
    let ps = killed(pre.players@, pre.current_turn as int);
    &&& post.players@ == ps
    &&& post.phase == PHASE_FINISHED
    &&& post.winner == first_alive(ps)
    &&& post.eliminated@ == pre.eliminated@.push(pre.players@[pre.current_turn as int].address)
    &&& post.shots_fired == pre.shots_fired + 1
    &&& post.current_turn == pre.current_turn
    &&& post.current_chamber == pre.current_chamber
    &&& post.bullet_commitment == pre.bullet_commitment
    &&& post.bullet_position == pre.bullet_position
    &&& post.session_id == pre.session_id
    &&& post.hub_player1 == pre.hub_player1
    &&& post.hub_player2 == pre.hub_player2
}

/// A fatal shot with two or more survivors: the acting player dies, the
/// cylinder auto-reloads at the derived position, the chamber counter
/// resets and the turn passes to the next alive player.
pub open spec fn fire_post_reload(pre: PartidaRuleta, post: PartidaRuleta) -> bool {
    let ps = killed(pre.players@, pre.current_turn as int);
    &&& post.players@ == ps
    &&& post.phase == PHASE_PLAYING
    &&& post.eliminated@ == pre.eliminated@.push(pre.players@[pre.current_turn as int].address)
    &&& post.shots_fired == pre.shots_fired + 1
    &&& post.bullet_position == reload_position(pre.session_id, (pre.shots_fired + 1) as u32)
    &&& post.current_chamber == 0
    &&& post.current_turn as int == next_turn(ps, pre.current_turn as int)
    &&& post.winner == pre.winner
    &&& post.bullet_commitment == pre.bullet_commitment
    &&& post.session_id == pre.session_id
    &&& post.hub_player1 == pre.hub_player1
    &&& post.hub_player2 == pre.hub_player2
}

/// Identities of the alive players, in roster order.
pub open spec fn alive_addresses(ps: Seq<Jugador>) -> Seq<u64>
    decreases ps.len(),
{
    if ps.len() == 0 {
        Seq::empty()
    } else {
        alive_addresses(ps.drop_last()) + if ps.last().is_alive {
            seq![ps.last().address]
        } else {
            Seq::<u64>::empty()
        }
    }
}

// ------------------------------------------------------------------
// Counting lemmas
// ------------------------------------------------------------------

/// Appending a player adds one to the alive count exactly when that player
/// is alive.
pub proof fn lemma_alive_count_push(ps: Seq<Jugador>, p: Jugador)
    ensures
        alive_count(ps.push(p)) == alive_count(ps) + if p.is_alive {
            1nat
        } else {
            0nat
        },
{
    assert(ps.push(p).drop_last() =~= ps);
    assert(ps.push(p).last() == p);
}

/// Replacing the player at `i` adjusts the alive count by the difference of
/// the two alive flags.
pub proof fn lemma_alive_count_update(ps: Seq<Jugador>, i: int, p: Jugador)
    requires
        0 <= i < ps.len(),
    ensures
        alive_count(ps.update(i, p)) + if ps[i].is_alive {
            1int
        } else {
            0int
        } == alive_count(ps) + if p.is_alive {
            1int
        } else {
            0int
        },
    decreases ps.len(),
{
    let ps2 = ps.update(i, p);
    if i == ps.len() - 1 {
        assert(ps2.drop_last() =~= ps.drop_last());
        assert(ps2.last() == p);
    } else {
        assert(ps2.drop_last() =~= ps.drop_last().update(i, p));
        assert(ps2.last() == ps.last());
        lemma_alive_count_update(ps.drop_last(), i, p);
    }
}

/// A roster's alive count is zero exactly when nobody on it is alive.
pub proof fn lemma_alive_count_zero(ps: Seq<Jugador>)
    ensures
        (alive_count(ps) == 0) <==> (forall|i: int| 0 <= i < ps.len() ==> !ps[i].is_alive),
    decreases ps.len(),
{
    if ps.len() > 0 {
        lemma_alive_count_zero(ps.drop_last());
        assert(forall|i: int| 0 <= i < ps.len() - 1 ==> ps.drop_last()[i] == ps[i]);
        if alive_count(ps) == 0 {
            assert forall|i: int| 0 <= i < ps.len() implies !ps[i].is_alive by {
                if i < ps.len() - 1 {
                    assert(!ps.drop_last()[i].is_alive);
                } else {
                    assert(ps[i] == ps.last());
                }
            }
        }
    }
}

/// One alive player bounds the alive count from below by one.
pub proof fn lemma_one_alive(ps: Seq<Jugador>, i: int)
    requires
        0 <= i < ps.len(),
        ps[i].is_alive,
    ensures
        alive_count(ps) >= 1,
    decreases ps.len(),
{
    if i < ps.len() - 1 {
        assert(ps.drop_last()[i] == ps[i]);
        lemma_one_alive(ps.drop_last(), i);
    } else {
        assert(ps.last() == ps[i]);
    }
}

/// Two distinct alive players bound the alive count from below by two.
pub proof fn lemma_two_alive(ps: Seq<Jugador>, i: int, j: int)
    requires
        0 <= i < j < ps.len(),
        ps[i].is_alive,
        ps[j].is_alive,
    ensures
        alive_count(ps) >= 2,
    decreases ps.len(),
{
    if j < ps.len() - 1 {
        assert(ps.drop_last()[i] == ps[i]);
        assert(ps.drop_last()[j] == ps[j]);
        lemma_two_alive(ps.drop_last(), i, j);
    } else {
        assert(ps.last() == ps[j]);
        assert(ps.drop_last()[i] == ps[i]);
        lemma_one_alive(ps.drop_last(), i);
    }
}

/// On an all-alive roster the alive count is the roster size.
pub proof fn lemma_alive_count_all(ps: Seq<Jugador>)
    requires
        forall|i: int| 0 <= i < ps.len() ==> ps[i].is_alive,
    ensures
        alive_count(ps) == ps.len(),
    decreases ps.len(),
{
    if ps.len() > 0 {
        assert(forall|i: int| 0 <= i < ps.len() - 1 ==> ps.drop_last()[i] == ps[i]);
        lemma_alive_count_all(ps.drop_last());
        assert(ps.last() == ps[ps.len() - 1]);
    }
}

/// What `first_alive_from` finds: an alive member if it returns one, and a
/// dead tail if it returns none.
pub proof fn lemma_first_alive_from(ps: Seq<Jugador>, k: int)
    requires
        0 <= k <= ps.len(),
    ensures
        match first_alive_from(ps, k) {
            Some(a) => exists|i: int| k <= i < ps.len() && ps[i].is_alive && ps[i].address == a,
            None => forall|i: int| k <= i < ps.len() ==> !ps[i].is_alive,
        },
    decreases ps.len() - k,
{
    if k < ps.len() && !ps[k].is_alive {
        lemma_first_alive_from(ps, k + 1);
    }
}

/// A roster with someone alive has a first alive player.
pub proof fn lemma_first_alive_some(ps: Seq<Jugador>)
    requires
        alive_count(ps) >= 1,
    ensures
        first_alive(ps) is Some,
{
    lemma_first_alive_from(ps, 0);
    if first_alive(ps) is None {
        lemma_alive_count_zero(ps);
    }
}

/// With exactly one player alive, every alive index carries the identity
/// `first_alive` reports.
pub proof fn lemma_unique_alive(ps: Seq<Jugador>, i: int)
    requires
        alive_count(ps) == 1,
        0 <= i < ps.len(),
        ps[i].is_alive,
    ensures
        first_alive(ps) == Some(ps[i].address),
{
    lemma_first_alive_from(ps, 0);
    lemma_first_alive_some(ps);
    let j = choose|j: int| 0 <= j < ps.len() && ps[j].is_alive && ps[j].address
        == first_alive(ps)->Some_0;
    if i < j {
        lemma_two_alive(ps, i, j);
    } else if j < i {
        lemma_two_alive(ps, j, i);
    }
}

// ------------------------------------------------------------------
// Circular-scan lemmas
// ------------------------------------------------------------------

/// A successful scan lands on an alive player inside the roster.
pub proof fn lemma_scan_sound(ps: Seq<Jugador>, pos: int, fuel: nat)
    ensures
        match scan_alive(ps, pos, fuel) {
            Some(i) => 0 <= i < ps.len() && ps[i].is_alive,
            None => true,
        },
    decreases fuel,
{
    if fuel > 0 && !(0 <= pos < ps.len() && ps[pos].is_alive) {
        lemma_scan_sound(ps, if pos + 1 >= ps.len() { 0 } else { pos + 1 }, (fuel - 1) as nat);
    }
}

/// A scan with enough fuel to reach an alive slot succeeds.
pub proof fn lemma_scan_finds(ps: Seq<Jugador>, pos: int, fuel: nat, t: int)
    requires
        0 <= pos < ps.len(),
        0 <= t < ps.len(),
        ps[t].is_alive,
        circular_distance(pos, t, ps.len() as int) < fuel,
    ensures
        scan_alive(ps, pos, fuel) is Some,
    decreases fuel,
{
    if !ps[pos].is_alive {
        let pos2 = if pos + 1 >= ps.len() { 0 } else { pos + 1 };
        assert(circular_distance(pos2, t, ps.len() as int) == circular_distance(
            pos,
            t,
            ps.len() as int,
        ) - 1);
        lemma_scan_finds(ps, pos2, (fuel - 1) as nat, t);
    }
}

/// What the circular scan returns is the nearest alive slot: no alive slot
/// lies strictly closer to the scan's start.
pub proof fn lemma_scan_first(ps: Seq<Jugador>, pos: int, fuel: nat, j: int)
    requires
        0 <= pos < ps.len(),
        0 <= j < ps.len(),
        ps[j].is_alive,
        scan_alive(ps, pos, fuel) is Some,
    ensures
        circular_distance(pos, scan_alive(ps, pos, fuel)->Some_0, ps.len() as int)
            <= circular_distance(pos, j, ps.len() as int),
    decreases fuel,
{
    if !ps[pos].is_alive {
        let pos2 = if pos + 1 >= ps.len() { 0 } else { pos + 1 };
        lemma_scan_sound(ps, pos2, (fuel - 1) as nat);
        lemma_scan_first(ps, pos2, (fuel - 1) as nat, j);
    }
}

// ------------------------------------------------------------------
// Executable helpers
// ------------------------------------------------------------------

/// Accept a proof value unless it is the all-zero sentinel. Placeholder for
/// algebraic proof verification: the stored commitment is not yet consulted.
pub fn verify_zk_proof(zk_proof: &[u8; 32], _bullet_commitment: &[u8; 32]) -> (r: Result<
    (),
    Error,
>)
    ensures
        r is Ok <==> !is_zero_bytes(zk_proof@),
        r is Err ==> r == Err::<(), Error>(Error::InvalidProof),
{
    let mut i: usize = 0;
    while i < 32
        invariant
            i <= 32,
            forall|j: int| 0 <= j < i ==> zk_proof@[j] == 0,
        decreases 32 - i,
    {
        if zk_proof[i] != 0 {
            return Ok(());
        }
        i = i + 1;
    }
    Err(Error::InvalidProof)
}

impl PartidaRuleta {
    /// Count the players still alive.
    pub fn count_alive(&self) -> (n: u32)
        requires
            self.players@.len() <= MAX_PLAYERS,
        ensures
            n as nat == alive_count(self.players@),
    {
        let ghost ps = self.players@;
        let mut n: u32 = 0;
        let mut i: usize = 0;
        while i < self.players.len()
            invariant
                i <= ps.len(),
                ps.len() <= MAX_PLAYERS,
                ps == self.players@,
                n <= i,
                n as nat == alive_count(ps.take(i as int)),
            decreases ps.len() - i,
        {
            proof {
                assert(ps.take(i + 1 as int).drop_last() =~= ps.take(i as int));
                assert(ps.take(i + 1 as int).last() == ps[i as int]);
            }
            if self.players[i].is_alive {
                n = n + 1;
            }
            i = i + 1;
        }
        proof {
            assert(ps.take(ps.len() as int) =~= ps);
        }
        n
    }

    /// Identity of the first alive player on the roster, if any.
    pub fn find_last_alive(&self) -> (r: Option<u64>)
        ensures
            r == first_alive(self.players@),
    {
        let ghost ps = self.players@;
        let mut i: usize = 0;
        while i < self.players.len()
            invariant
                i <= ps.len(),
                ps == self.players@,
                first_alive(ps) == first_alive_from(ps, i as int),
            decreases ps.len() - i,
        {
            let p = self.players[i];
            if p.is_alive {
                return Some(p.address);
            }
            i = i + 1;
        }
        None
    }

    /// Advance `current_turn` to the next alive player, walking circularly
    /// over the roster for at most one full round.
    fn advance_turn(&mut self)
        requires
            (old(self).current_turn as int) < old(self).players@.len(),
            old(self).players@.len() <= MAX_PLAYERS,
        ensures
            final(self).current_turn as int == next_turn(
                old(self).players@,
                old(self).current_turn as int,
            ),
            alive_count(old(self).players@) >= 1 ==> final(self).players@[final(self).current_turn as int].is_alive,
            (final(self).current_turn as int) < final(self).players@.len(),
            final(self).players@ == old(self).players@,
            final(self).phase == old(self).phase,
            final(self).current_chamber == old(self).current_chamber,
            final(self).bullet_commitment == old(self).bullet_commitment,
            final(self).bullet_position == old(self).bullet_position,
            final(self).eliminated@ == old(self).eliminated@,
            final(self).winner == old(self).winner,
            final(self).session_id == old(self).session_id,
            final(self).shots_fired == old(self).shots_fired,
            final(self).hub_player1 == old(self).hub_player1,
            final(self).hub_player2 == old(self).hub_player2,
    {
        let ghost ps = self.players@;
        let ghost cur = self.current_turn as int;
        let n = self.players.len();
        let mut next: usize = self.current_turn as usize + 1;
        if next >= n {
            next = 0;
        }
        let ghost start = next as int;
        let mut k: usize = 0;
        while k < n
            invariant
                n == ps.len(),
                0 < n,
                k <= n,
                next < n,
                n <= MAX_PLAYERS,
                *self == *old(self),
                ps == self.players@,
                cur == self.current_turn as int,
                0 <= cur < n,
                start == (if cur + 1 >= ps.len() {
                    0int
                } else {
                    cur + 1
                }),
                scan_alive(ps, start, n as nat) == scan_alive(ps, next as int, (n - k) as nat),
            decreases n - k,
        {
            if self.players[next].is_alive {
                proof {
                    assert(scan_alive(ps, next as int, (n - k) as nat) == Some(next as int));
                }
                self.current_turn = next as u32;
                return ;
            }
            proof {
                let fuel = (n - k) as nat;
                assert(scan_alive(ps, next as int, fuel) == scan_alive(
                    ps,
                    if next as int + 1 >= ps.len() {
                        0
                    } else {
                        next as int + 1
                    },
                    (fuel - 1) as nat,
                ));
            }
            next = next + 1;
            if next >= n {
                next = 0;
            }
            k = k + 1;
        }
        proof {
            assert(scan_alive(ps, start, n as nat) is None);
            if alive_count(ps) >= 1 {
                lemma_alive_count_zero(ps);
                let t = choose|t: int| 0 <= t < ps.len() && ps[t].is_alive;
                assert(circular_distance(start, t, n as int) < n as int);
                lemma_scan_finds(ps, start, n as nat, t);
            }
        }
    }

    /// Register `player` into the waiting lobby with a point stake.
    /// Returns the new roster size.
    pub fn join(&mut self, player: u64, points: i128) -> (r: Result<u32, Error>)
        requires
            session_wf(*old(self)),
        ensures
            session_wf(*final(self)),
            match r {
                Ok(n) => {
                    &&& join_allowed(*old(self), player)
                    &&& join_post(*old(self), *final(self), player, points)
                    &&& n as nat == final(self).players@.len()
                },
                Err(e) => {
                    &&& !join_allowed(*old(self), player)
                    &&& e == join_error(*old(self), player)
                    &&& *final(self) == *old(self)
                },
            },
    {
        if self.phase != PHASE_WAITING {
            return Err(Error::WrongPhase);
        }
        if self.players.len() >= MAX_PLAYERS as usize {
            return Err(Error::LobbyFull);
        }
        let mut i: usize = 0;
        while i < self.players.len()
            invariant
                session_wf(*old(self)),
                *self == *old(self),
                self.phase == PHASE_WAITING,
                self.players@.len() < MAX_PLAYERS,
                i <= self.players@.len(),
                forall|j: int| 0 <= j < i ==> self.players@[j].address != player,
            decreases self.players@.len() - i,
        {
            if self.players[i].address == player {
                proof {
                    assert(is_member(self.players@, player)) by {
                        assert(self.players@[i as int].address == player);
                    }
                }
                return Err(Error::AlreadyJoined);
            }
            i = i + 1;
        }
        let jugador = Jugador { address: player, is_alive: true, points };
        proof {
            lemma_alive_count_push(self.players@, jugador);
        }
        self.players.push(jugador);
        let player_count = self.players.len();
        if player_count == 1 {
            self.hub_player1 = player;
        } else if player_count == 2 {
            self.hub_player2 = player;
        }
        Ok(player_count as u32)
    }

    /// Bind the bullet commitment and position and start the game. Only the
    /// host (roster index 0) may load, and only before play has started.
    pub fn load(&mut self, player: u64, bullet_commitment: [u8; 32], bullet_position: u32) -> (r:
        Result<(), Error>)
        requires
            session_wf(*old(self)),
        ensures
            session_wf(*final(self)),
            match r {
                Ok(_) => {
                    &&& load_allowed(*old(self), player, bullet_position)
                    &&& load_post(*old(self), *final(self), bullet_commitment@, bullet_position)
                },
                Err(e) => {
                    &&& !load_allowed(*old(self), player, bullet_position)
                    &&& e == load_error(*old(self), player, bullet_position)
                    &&& *final(self) == *old(self)
                },
            },
    {
        if self.players.len() < MIN_PLAYERS as usize {
            return Err(Error::NotEnoughPlayers);
        }
        if self.phase == PHASE_FINISHED {
            return Err(Error::GameAlreadyEnded);
        }
        if self.phase == PHASE_PLAYING {
            return Err(Error::AlreadyStarted);
        }
        if bullet_position >= NUM_CHAMBERS {
            return Err(Error::InvalidChamber);
        }
        let p0 = self.players[0];
        if p0.address != player {
            return Err(Error::NotPlayer);
        }
        proof {
            lemma_alive_count_all(self.players@);
        }
        self.bullet_commitment = bullet_commitment;
        self.bullet_position = bullet_position;
        self.phase = PHASE_PLAYING;
        self.current_turn = 0;
        self.current_chamber = 0;
        Ok(())
    }

    /// The acting player pulls the trigger. Returns whether the shot was
    /// fatal. A hit eliminates the acting player and either finishes the
    /// game (one player left) or auto-reloads the cylinder; a miss advances
    /// the chamber counter and passes the turn.
    pub fn fire(&mut self, player: u64, zk_proof: &[u8; 32]) -> (r: Result<bool, Error>)
        requires
            session_wf(*old(self)),
            old(self).shots_fired < 0xffff_ffffu32,
        ensures
            session_wf(*final(self)),
            match r {
                Ok(hit) => {
                    &&& fire_allowed(*old(self), player, zk_proof@)
                    &&& hit == (old(self).current_chamber == old(self).bullet_position)
                    &&& (if hit {
                        if alive_count(
                            killed(old(self).players@, old(self).current_turn as int),
                        ) == 1 {
                            fire_post_finish(*old(self), *final(self))
                        } else {
                            fire_post_reload(*old(self), *final(self))
                        }
                    } else {
                        fire_post_miss(*old(self), *final(self))
                    })
                },
                Err(e) => {
                    &&& !fire_allowed(*old(self), player, zk_proof@)
                    &&& e == fire_error(*old(self), player, zk_proof@)
                    &&& *final(self) == *old(self)
                },
            },
    {
        if self.phase != PHASE_PLAYING {
            return Err(Error::WrongPhase);
        }
        let turn = self.current_turn as usize;
        let current = self.players[turn];
        if current.address != player {
            return Err(Error::NotYourTurn);
        }
        if !current.is_alive {
            return Err(Error::PlayerEliminated);
        }
        if self.current_chamber >= NUM_CHAMBERS {
            return Err(Error::InvalidChamber);
        }
        match verify_zk_proof(zk_proof, &self.bullet_commitment) {
            Err(e) => {
                return Err(e);
            },
            Ok(_) => {},
        }
        self.shots_fired = self.shots_fired + 1;
        let is_hit = self.current_chamber == self.bullet_position;
        if is_hit {
            let mut dead_player = self.players[turn];
            dead_player.is_alive = false;
            proof {
                lemma_alive_count_update(self.players@, turn as int, dead_player);
            }
            self.players[turn] = dead_player;
            self.eliminated.push(player);
            let alive = self.count_alive();
            if alive == 1 {
                proof {
                    lemma_first_alive_some(self.players@);
                }
                match self.find_last_alive() {
                    Some(w) => {
                        self.phase = PHASE_FINISHED;
                        self.winner = Some(w);
                    },
                    None => {
                        proof {
                            assert(false);
                        }
                    },
                }
            } else {
                let pos = derive_bullet_position(self.session_id, self.shots_fired);
                self.bullet_position = pos;
                self.current_chamber = 0;
                self.advance_turn();
            }
        } else {
            self.current_chamber = self.current_chamber + 1;
            self.advance_turn();
        }
        Ok(is_hit)
    }

    /// Identities of the players still alive, in join order.
    pub fn alive_players(&self) -> (r: Vec<u64>)
        ensures
            r@ == alive_addresses(self.players@),
    {
        let ghost ps = self.players@;
        let mut out: Vec<u64> = Vec::new();
        let mut i: usize = 0;
        while i < self.players.len()
            invariant
                i <= ps.len(),
                ps == self.players@,
                out@ == alive_addresses(ps.take(i as int)),
            decreases ps.len() - i,
        {
            proof {
                assert(ps.take(i + 1 as int).drop_last() =~= ps.take(i as int));
                assert(ps.take(i + 1 as int).last() == ps[i as int]);
            }
            let p = self.players[i];
            if p.is_alive {
                out.push(p.address);
                proof {
                    assert(out@ =~= alive_addresses(ps.take(i + 1 as int)));
                }
            } else {
                proof {
                    assert(out@ =~= alive_addresses(ps.take(i + 1 as int)));
                }
            }
            i = i + 1;
        }
        proof {
            assert(ps.take(ps.len() as int) =~= ps);
        }
        out
    }
}

impl Clone for PartidaRuleta {
    /// An exact copy of the session record.
    fn clone(&self) -> (res: Self)
        ensures
            same_session(res, *self),
    {
        let res = PartidaRuleta {
            players: self.players.clone(),
            phase: self.phase,
            current_turn: self.current_turn,
            current_chamber: self.current_chamber,
            bullet_commitment: self.bullet_commitment,
            bullet_position: self.bullet_position,
            eliminated: self.eliminated.clone(),
            winner: self.winner,
            session_id: self.session_id,
            shots_fired: self.shots_fired,
            hub_player1: self.hub_player1,
            hub_player2: self.hub_player2,
        };
        proof {
            assert(res.players@ =~= self.players@);
            assert(res.eliminated@ =~= self.eliminated@);
        }
        res
    }
}

} // verus!
