use vstd::prelude::*;

use std::collections::HashMap;

use crate::errors::Error;
use crate::hashing::{commitment_bytes, commitment_of};
use crate::hub::{GameEnded, GameStarted, MockGameHub};
use crate::session::{
    alive_addresses, fire_allowed, fire_error, fire_post_finish, fire_post_miss, fire_post_reload,
    fresh_joined, alive_count, join_allowed, join_error, join_post, killed, load_allowed,
    load_error, load_post, same_session, session_wf, Jugador, PartidaRuleta, PHASE_FINISHED,
    PHASE_WAITING,
};

verus! {

broadcast use vstd::std_specs::hash::group_hash_axioms;

/// The game engine: a store of sessions keyed by caller-supplied id, plus
/// the configuration record (this contract's own address, the admin and the
/// scoring hub address). Each session is owned exclusively by its key; no
/// state is shared across sessions.
pub struct ZkMafiaContract {
    pub sessions: HashMap<u32, PartidaRuleta>,
    pub contract_address: u64,
    pub admin: u64,
    pub game_hub: u64,
}

/// All sessions outside `except` are the same in `pre` and `post`.
pub open spec fn sessions_unchanged_except(
    pre: Map<u32, PartidaRuleta>,
    post: Map<u32, PartidaRuleta>,
    except: u32,
) -> bool {
    forall|k: u32|
        k != except ==> (#[trigger] post.contains_key(k)) == pre.contains_key(k) && (
        pre.contains_key(k) ==> post[k] == pre[k])
}

impl ZkMafiaContract {
    /// Every stored session is well formed and filed under its own id.
    pub open spec fn wf(self) -> bool {
        forall|k: u32|
            #[trigger] self.sessions@.contains_key(k) ==> session_wf(self.sessions@[k])
                && self.sessions@[k].session_id == k
    }

    /// The configuration record is untouched.
    pub open spec fn config_unchanged(pre: Self, post: Self) -> bool {
        &&& post.contract_address == pre.contract_address
        &&& post.admin == pre.admin
        &&& post.game_hub == pre.game_hub
    }

    /// Set up the engine with its own address, the admin identity and the
    /// scoring hub address. The session store starts empty.
    pub fn new(contract_address: u64, admin: u64, game_hub: u64) -> (c: Self)
        ensures
            c.wf(),
            c.sessions@ == Map::<u32, PartidaRuleta>::empty(),
            c.contract_address == contract_address,
            c.admin == admin,
            c.game_hub == game_hub,
    {
        ZkMafiaContract { sessions: HashMap::new(), contract_address, admin, game_hub }
    }

    /// The lazily created session a first join for a fresh id starts from:
    /// default hazard fields, empty roster, both hub snapshots pointing at
    /// the joiner.
    fn fresh_session(session_id: u32, player: u64) -> (g: PartidaRuleta)
        ensures
            session_wf(g),
            g.players@ == Seq::<Jugador>::empty(),
            g.phase == PHASE_WAITING,
            g.current_turn == 0,
            g.current_chamber == 0,
            g.bullet_commitment@ == Seq::new(32, |i: int| 0u8),
            g.bullet_position == 0,
            g.eliminated@ == Seq::<u64>::empty(),
            g.winner is None,
            g.session_id == session_id,
            g.shots_fired == 0,
            g.hub_player1 == player,
            g.hub_player2 == player,
    {
        let g = PartidaRuleta {
            players: Vec::new(),
            phase: PHASE_WAITING,
            current_turn: 0,
            current_chamber: 0,
            bullet_commitment: [0u8; 32],
            bullet_position: 0,
            eliminated: Vec::new(),
            winner: None,
            session_id,
            shots_fired: 0,
            hub_player1: player,
            hub_player2: player,
        };
        proof {
            assert(g.bullet_commitment@ =~= Seq::new(32, |i: int| 0u8));
        }
        g
    }

    /// Register `player` into session `session_id` with a point stake,
    /// creating the session lazily on first contact. Returns the new roster
    /// size. A rejected join leaves the store exactly as it was.
    pub fn entrar_a_la_ruleta(&mut self, session_id: u32, player: u64, points: i128) -> (r: Result<
        u32,
        Error,
    >)
        requires
            old(self).wf(),
        ensures
            final(self).wf(),
            Self::config_unchanged(*old(self), *final(self)),
            match r {
                Ok(n) => ({
                    let post = final(self).sessions@[session_id];
                    &&& final(self).sessions@.contains_key(session_id)
                    &&& sessions_unchanged_except(
                        old(self).sessions@,
                        final(self).sessions@,
                        session_id,
                    )
                    &&& (if old(self).sessions@.contains_key(session_id) {
                        join_allowed(old(self).sessions@[session_id], player) && join_post(
                            old(self).sessions@[session_id],
                            post,
                            player,
                            points,
                        )
                    } else {
                        fresh_joined(post, session_id, player, points)
                    })
                    &&& n as nat == post.players@.len()
                }),
                Err(e) => {
                    &&& final(self).sessions@ == old(self).sessions@
                    &&& old(self).sessions@.contains_key(session_id)
                    &&& !join_allowed(old(self).sessions@[session_id], player)
                    &&& e == join_error(old(self).sessions@[session_id], player)
                },
            },
    {
        let taken = self.sessions.remove(&session_id);
        match taken {
            Some(mut game) => {
                let r = game.join(player, points);
                self.sessions.insert(session_id, game);
                proof {
                    if r is Err {
                        assert(self.sessions@ =~= old(self).sessions@);
                    }
                }
                r
            },
            None => {
                let mut game = Self::fresh_session(session_id, player);
                let r = game.join(player, points);
                self.sessions.insert(session_id, game);
                proof {
                    assert(game.players@ =~= seq![
                        Jugador { address: player, is_alive: true, points },
                    ]);
                }
                r
            },
        }
    }

    /// The host commits the bullet and starts session `session_id`. On
    /// success returns the start notification owed to the scoring hub,
    /// carrying the first two joiners and their stakes.
    pub fn cargar_revolver(
        &mut self,
        session_id: u32,
        player: u64,
        bullet_commitment: [u8; 32],
        bullet_position: u32,
    ) -> (r: Result<GameStarted, Error>)
        requires
            old(self).wf(),
        ensures
            final(self).wf(),
            Self::config_unchanged(*old(self), *final(self)),
            match r {
                Ok(note) => ({
                    let pre = old(self).sessions@[session_id];
                    let post = final(self).sessions@[session_id];
                    &&& old(self).sessions@.contains_key(session_id)
                    &&& final(self).sessions@.contains_key(session_id)
                    &&& sessions_unchanged_except(
                        old(self).sessions@,
                        final(self).sessions@,
                        session_id,
                    )
                    &&& load_allowed(pre, player, bullet_position)
                    &&& load_post(pre, post, bullet_commitment@, bullet_position)
                    &&& note == (GameStarted {
                        session_id,
                        game_id: old(self).contract_address,
                        player1: pre.players@[0].address,
                        player2: pre.players@[1].address,
                        player1_points: pre.players@[0].points,
                        player2_points: pre.players@[1].points,
                    })
                }),
                Err(e) => {
                    &&& final(self).sessions@ == old(self).sessions@
                    &&& (if old(self).sessions@.contains_key(session_id) {
                        !load_allowed(old(self).sessions@[session_id], player, bullet_position)
                            && e == load_error(
                            old(self).sessions@[session_id],
                            player,
                            bullet_position,
                        )
                    } else {
                        e == Error::GameNotFound
                    })
                },
            },
    {
        let taken = self.sessions.remove(&session_id);
        match taken {
            None => {
                proof {
                    assert(self.sessions@ =~= old(self).sessions@);
                }
                Err(Error::GameNotFound)
            },
            Some(mut game) => {
                let r = game.load(player, bullet_commitment, bullet_position);
                match r {
                    Ok(_) => {
                        let p1 = game.players[0];
                        let p2 = game.players[1];
                        let note = MockGameHub::start_game(
                            self.contract_address,
                            session_id,
                            p1.address,
                            p2.address,
                            p1.points,
                            p2.points,
                        );
                        self.sessions.insert(session_id, game);
                        Ok(note)
                    },
                    Err(e) => {
                        self.sessions.insert(session_id, game);
                        proof {
                            assert(self.sessions@ =~= old(self).sessions@);
                        }
                        Err(e)
                    },
                }
            },
        }
    }

    /// The acting player pulls the trigger in session `session_id`. Returns
    /// whether the shot was fatal and, when it ended the game, the end
    /// notification owed to the scoring hub. A rejected shot leaves the
    /// store exactly as it was.
    pub fn disparar(&mut self, session_id: u32, player: u64, zk_proof: [u8; 32]) -> (r: Result<
        (bool, Option<GameEnded>),
        Error,
    >)
        requires
            old(self).wf(),
            old(self).sessions@.contains_key(session_id) ==> old(
                self,
            ).sessions@[session_id].shots_fired < 0xffff_ffffu32,
        ensures
            final(self).wf(),
            Self::config_unchanged(*old(self), *final(self)),
            match r {
                Ok(res) => ({
                    let pre = old(self).sessions@[session_id];
                    let post = final(self).sessions@[session_id];
                    &&& old(self).sessions@.contains_key(session_id)
                    &&& final(self).sessions@.contains_key(session_id)
                    &&& sessions_unchanged_except(
                        old(self).sessions@,
                        final(self).sessions@,
                        session_id,
                    )
                    &&& fire_allowed(pre, player, zk_proof@)
                    &&& res.0 == (pre.current_chamber == pre.bullet_position)
                    &&& (if res.0 {
                        if alive_count(killed(pre.players@, pre.current_turn as int)) == 1 {
                            fire_post_finish(pre, post)
                        } else {
                            fire_post_reload(pre, post)
                        }
                    } else {
                        fire_post_miss(pre, post)
                    })
                    &&& (match res.1 {
                        Some(note) => post.phase == PHASE_FINISHED && note == (GameEnded {
                            session_id,
                            player1_won: post.winner == Some(post.hub_player1),
                        }),
                        None => post.phase != PHASE_FINISHED,
                    })
                }),
                Err(e) => {
                    &&& final(self).sessions@ == old(self).sessions@
                    &&& (if old(self).sessions@.contains_key(session_id) {
                        !fire_allowed(old(self).sessions@[session_id], player, zk_proof@) && e
                            == fire_error(old(self).sessions@[session_id], player, zk_proof@)
                    } else {
                        e == Error::GameNotFound
                    })
                },
            },
    {
        let taken = self.sessions.remove(&session_id);
        match taken {
            None => {
                proof {
                    assert(self.sessions@ =~= old(self).sessions@);
                }
                Err(Error::GameNotFound)
            },
            Some(mut game) => {
                let r = game.fire(player, &zk_proof);
                match r {
                    Ok(hit) => {
                        let mut report: Option<GameEnded> = None;
                        if game.phase == PHASE_FINISHED {
                            match game.winner {
                                Some(w) => {
                                    report = Some(Self::report_to_hub(&game, w));
                                },
                                None => {
                                    proof {
                                        assert(false);
                                    }
                                },
                            }
                        }
                        self.sessions.insert(session_id, game);
                        Ok((hit, report))
                    },
                    Err(e) => {
                        self.sessions.insert(session_id, game);
                        proof {
                            assert(self.sessions@ =~= old(self).sessions@);
                        }
                        Err(e)
                    },
                }
            },
        }
    }

    /// The end notification owed to the hub for a finished session: whether
    /// the first hub player is the winner.
    fn report_to_hub(game: &PartidaRuleta, winner: u64) -> (note: GameEnded)
        ensures
            note == (GameEnded {
                session_id: game.session_id,
                player1_won: winner == game.hub_player1,
            }),
    {
        MockGameHub::end_game(game.session_id, winner == game.hub_player1)
    }

    /// A copy of the full session record.
    pub fn get_game(&self, session_id: u32) -> (r: Result<PartidaRuleta, Error>)
        ensures
            match r {
                Ok(g) => self.sessions@.contains_key(session_id) && same_session(
                    g,
                    self.sessions@[session_id],
                ),
                Err(e) => !self.sessions@.contains_key(session_id) && e == Error::GameNotFound,
            },
    {
        match self.sessions.get(&session_id) {
            Some(g) => Ok(g.clone()),
            None => Err(Error::GameNotFound),
        }
    }

    /// Identities of the players still alive in the session, in join order.
    pub fn who_is_alive(&self, session_id: u32) -> (r: Result<Vec<u64>, Error>)
        ensures
            match r {
                Ok(v) => self.sessions@.contains_key(session_id) && v@ == alive_addresses(
                    self.sessions@[session_id].players@,
                ),
                Err(e) => !self.sessions@.contains_key(session_id) && e == Error::GameNotFound,
            },
    {
        match self.sessions.get(&session_id) {
            Some(g) => Ok(g.alive_players()),
            None => Err(Error::GameNotFound),
        }
    }

    /// Commitment helper for hosts and tests: SHA-256(salt ‖ position byte).
    pub fn compute_bullet_hash(salt: &[u8; 32], position: u32) -> (r: [u8; 32])
        ensures
            r@ == commitment_of(salt@, position),
    {
        commitment_bytes(salt, position)
    }

    /// The current admin identity.
    pub fn get_admin(&self) -> (r: u64)
        ensures
            r == self.admin,
    {
        self.admin
    }

    /// Replace the admin identity. Authorisation of the caller is the host
    /// platform's concern, outside this crate.
    pub fn set_admin(&mut self, new_admin: u64)
        ensures
            final(self).admin == new_admin,
            final(self).sessions@ == old(self).sessions@,
            final(self).game_hub == old(self).game_hub,
            final(self).contract_address == old(self).contract_address,
            old(self).wf() ==> final(self).wf(),
    {
        self.admin = new_admin;
    }

    /// The scoring hub address the engine reports to.
    pub fn get_hub(&self) -> (r: u64)
        ensures
            r == self.game_hub,
    {
        self.game_hub
    }

    /// Replace the scoring hub address. Authorisation of the caller is the
    /// host platform's concern, outside this crate.
    pub fn set_hub(&mut self, new_hub: u64)
        ensures
            final(self).game_hub == new_hub,
            final(self).sessions@ == old(self).sessions@,
            final(self).admin == old(self).admin,
            final(self).contract_address == old(self).contract_address,
            old(self).wf() ==> final(self).wf(),
    {
        self.game_hub = new_hub;
    }
}

} // verus!
