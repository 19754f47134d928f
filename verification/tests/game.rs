use zk_mafia::contract::ZkMafiaContract;
use zk_mafia::errors::Error;
use zk_mafia::hub::GameEnded;
use zk_mafia::session::{PHASE_FINISHED, PHASE_PLAYING, PHASE_WAITING};

const CONTRACT: u64 = 900;
const ADMIN: u64 = 901;
const GAME_HUB: u64 = 902;

const P1: u64 = 1;
const P2: u64 = 2;
const P3: u64 = 3;

fn setup() -> ZkMafiaContract {
    ZkMafiaContract::new(CONTRACT, ADMIN, GAME_HUB)
}

/// Helper: register 3 players. Returns player count.
fn join_all_players(c: &mut ZkMafiaContract, session_id: u32) -> u32 {
    assert_eq!(c.entrar_a_la_ruleta(session_id, P1, 100), Ok(1));
    assert_eq!(c.entrar_a_la_ruleta(session_id, P2, 100), Ok(2));
    assert_eq!(c.entrar_a_la_ruleta(session_id, P3, 100), Ok(3));
    3
}

/// Helper: register 2 players. Returns player count.
fn join_two_players(c: &mut ZkMafiaContract, session_id: u32) -> u32 {
    assert_eq!(c.entrar_a_la_ruleta(session_id, P1, 100), Ok(1));
    assert_eq!(c.entrar_a_la_ruleta(session_id, P2, 100), Ok(2));
    2
}

/// Helper: host loads the revolver with a commitment and bullet position.
fn load_revolver(c: &mut ZkMafiaContract, session_id: u32, host: u64, bullet_pos: u32) -> [u8; 32] {
    let salt = [42u8; 32];
    let commitment = ZkMafiaContract::compute_bullet_hash(&salt, bullet_pos);
    assert!(c.cargar_revolver(session_id, host, commitment, bullet_pos).is_ok());
    commitment
}

fn fire(c: &mut ZkMafiaContract, session_id: u32, player: u64, proof: [u8; 32]) -> bool {
    c.disparar(session_id, player, proof).unwrap().0
}

#[test]
fn test_three_players_join() {
    let mut c = setup();
    let session_id: u32 = 7;

    join_all_players(&mut c, session_id);

    let game = c.get_game(session_id).unwrap();
    assert_eq!(game.phase, PHASE_WAITING); // Still waiting for cargar_revolver
    assert_eq!(game.players.len(), 3);
}

#[test]
fn test_two_players_can_start() {
    let mut c = setup();
    let session_id: u32 = 8;

    join_two_players(&mut c, session_id);
    load_revolver(&mut c, session_id, P1, 3);

    let game = c.get_game(session_id).unwrap();
    assert_eq!(game.phase, PHASE_PLAYING);
    assert_eq!(game.players.len(), 2);
    assert_eq!(game.bullet_position, 3);
}

#[test]
fn test_cannot_join_full_lobby() {
    let mut c = setup();
    let session_id: u32 = 13;

    join_all_players(&mut c, session_id);

    let p4: u64 = 4;
    let result = c.entrar_a_la_ruleta(session_id, p4, 100);
    assert!(result.is_err());
}

#[test]
fn test_cargar_revolver_starts_game() {
    let mut c = setup();
    let session_id: u32 = 20;

    join_all_players(&mut c, session_id);
    load_revolver(&mut c, session_id, P1, 3);

    let game = c.get_game(session_id).unwrap();
    assert_eq!(game.phase, PHASE_PLAYING);
    assert_eq!(game.current_turn, 0);
    assert_eq!(game.current_chamber, 0);
    assert_eq!(game.bullet_position, 3);
}

#[test]
fn test_player_survives_shot() {
    let mut c = setup();
    let session_id: u32 = 30;

    join_all_players(&mut c, session_id);
    // Bullet in chamber 3 -> chambers 0, 1, 2 are safe
    load_revolver(&mut c, session_id, P1, 3);

    // Player 1 (turn 0) fires chamber 0 -> miss
    let zk_proof = [0xAA; 32];
    let result = fire(&mut c, session_id, P1, zk_proof);
    assert_eq!(result, false); // survived

    let game = c.get_game(session_id).unwrap();
    assert_eq!(game.current_turn, 1); // advanced to p2
    assert_eq!(game.current_chamber, 1);
    assert_eq!(game.shots_fired, 1);
}

#[test]
fn test_full_game_player_eliminated() {
    let mut c = setup();
    let session_id: u32 = 42;

    join_all_players(&mut c, session_id);
    // Bullet in chamber 2 -> chamber 0=safe, 1=safe, 2=BOOM
    load_revolver(&mut c, session_id, P1, 2);

    let proof = [0xBB; 32];

    // Turn 0: P1 fires chamber 0 -> miss
    assert_eq!(fire(&mut c, session_id, P1, proof), false);
    // Turn 1: P2 fires chamber 1 -> miss
    assert_eq!(fire(&mut c, session_id, P2, proof), false);
    // Turn 2: P3 fires chamber 2 -> HIT (chamber 2 == bullet_position 2)
    assert_eq!(fire(&mut c, session_id, P3, proof), true);

    let game = c.get_game(session_id).unwrap();
    assert_eq!(game.eliminated.len(), 1);
    // P3 is dead
    let dead = game.players[2];
    assert!(!dead.is_alive);

    // Game continues (2 alive players remain) with auto-reloaded cylinder
    assert_eq!(game.phase, PHASE_PLAYING);
    assert_eq!(game.current_chamber, 0); // Reset after reload
}

#[test]
fn test_full_game_winner() {
    let mut c = setup();
    let session_id: u32 = 55;

    join_all_players(&mut c, session_id);
    // Bullet in chamber 1 -> chamber 0=safe, 1=BOOM
    load_revolver(&mut c, session_id, P1, 1);

    let proof = [0xCC; 32];

    // Turn 0: P1 fires chamber 0 -> miss
    assert_eq!(fire(&mut c, session_id, P1, proof), false);
    // Turn 1: P2 fires chamber 1 -> HIT, P2 eliminated -> auto-reload
    assert_eq!(fire(&mut c, session_id, P2, proof), true);

    let game = c.get_game(session_id).unwrap();
    assert_eq!(game.eliminated.len(), 1);
    assert_eq!(game.phase, PHASE_PLAYING); // Still 2 alive
    assert_eq!(game.current_chamber, 0); // Reset after reload

    // Continue playing until a winner emerges (auto-reload generates new positions)
    let mut turns = 0;
    loop {
        let g = c.get_game(session_id).unwrap();
        if g.phase == PHASE_FINISHED {
            break;
        }
        let current = g.players[g.current_turn as usize];
        let _ = c.disparar(session_id, current.address, proof).unwrap();
        turns += 1;
        if turns > 20 {
            panic!("Game didn't end within 20 turns");
        }
    }

    let game = c.get_game(session_id).unwrap();
    assert_eq!(game.phase, PHASE_FINISHED);
    assert!(game.winner.is_some());
    assert_eq!(game.eliminated.len(), 2); // 2 eliminated, 1 winner
}

#[test]
fn test_two_player_game_completes() {
    let mut c = setup();
    let session_id: u32 = 56;

    join_two_players(&mut c, session_id);
    // Bullet in chamber 0 -> immediate hit on first shot
    load_revolver(&mut c, session_id, P1, 0);

    let proof = [0xDD; 32];

    // Turn 0: P1 fires chamber 0 -> HIT, only 1 alive -> game over
    assert_eq!(fire(&mut c, session_id, P1, proof), true);

    let game = c.get_game(session_id).unwrap();
    assert_eq!(game.phase, PHASE_FINISHED);
    assert_eq!(game.winner.unwrap(), P2); // P2 is the last alive
    assert_eq!(game.eliminated.len(), 1);
}

#[test]
fn test_zero_proof_rejected() {
    let mut c = setup();
    let session_id: u32 = 66;

    join_all_players(&mut c, session_id);
    load_revolver(&mut c, session_id, P1, 3);

    let zero_proof = [0u8; 32];
    let result = c.disparar(session_id, P1, zero_proof);
    assert!(result.is_err());
}

#[test]
fn test_wrong_turn_rejected() {
    let mut c = setup();
    let session_id: u32 = 77;

    join_all_players(&mut c, session_id);
    load_revolver(&mut c, session_id, P1, 4);

    // P2 tries to fire when it's P1's turn
    let proof = [0xDD; 32];
    let result = c.disparar(session_id, P2, proof);
    assert!(result.is_err());
}

#[test]
fn test_who_is_alive() {
    let mut c = setup();
    let session_id: u32 = 88;

    join_all_players(&mut c, session_id);

    let alive = c.who_is_alive(session_id).unwrap();
    assert_eq!(alive.len(), 3);
}

#[test]
fn test_compute_bullet_hash() {
    let salt = [42u8; 32];
    let hash_pos0 = ZkMafiaContract::compute_bullet_hash(&salt, 0);
    let hash_pos1 = ZkMafiaContract::compute_bullet_hash(&salt, 1);

    // Different positions -> different hashes
    assert_ne!(hash_pos0, hash_pos1);
    // Deterministic
    assert_eq!(hash_pos0, ZkMafiaContract::compute_bullet_hash(&salt, 0));
}

// ---------------------------------------------------------------------
// Further coverage
// ---------------------------------------------------------------------

#[test]
fn test_unknown_session_rejected() {
    let mut c = setup();
    assert_eq!(c.get_game(999).unwrap_err(), Error::GameNotFound);
    assert_eq!(c.who_is_alive(999).unwrap_err(), Error::GameNotFound);
    let commitment = ZkMafiaContract::compute_bullet_hash(&[1u8; 32], 0);
    assert_eq!(c.cargar_revolver(999, P1, commitment, 0).unwrap_err(), Error::GameNotFound);
    assert_eq!(c.disparar(999, P1, [0xAA; 32]).unwrap_err(), Error::GameNotFound);
}

#[test]
fn test_fourth_join_lobby_full() {
    let mut c = setup();
    join_all_players(&mut c, 200);
    assert_eq!(c.entrar_a_la_ruleta(200, 4, 100).unwrap_err(), Error::LobbyFull);
    // The refused join left the roster as it was.
    assert_eq!(c.get_game(200).unwrap().players.len(), 3);
}

#[test]
fn test_rejoin_rejected() {
    let mut c = setup();
    assert_eq!(c.entrar_a_la_ruleta(201, P1, 100), Ok(1));
    assert_eq!(c.entrar_a_la_ruleta(201, P1, 100).unwrap_err(), Error::AlreadyJoined);
    assert_eq!(c.entrar_a_la_ruleta(201, P2, 100), Ok(2));
    // Order relative to other joins does not matter.
    assert_eq!(c.entrar_a_la_ruleta(201, P1, 100).unwrap_err(), Error::AlreadyJoined);
}

#[test]
fn test_join_after_start_wrong_phase() {
    let mut c = setup();
    join_two_players(&mut c, 202);
    load_revolver(&mut c, 202, P1, 3);
    assert_eq!(c.entrar_a_la_ruleta(202, P3, 100).unwrap_err(), Error::WrongPhase);
}

#[test]
fn test_load_not_enough_players() {
    let mut c = setup();
    assert_eq!(c.entrar_a_la_ruleta(203, P1, 100), Ok(1));
    let commitment = ZkMafiaContract::compute_bullet_hash(&[42u8; 32], 3);
    assert_eq!(c.cargar_revolver(203, P1, commitment, 3).unwrap_err(), Error::NotEnoughPlayers);
}

#[test]
fn test_load_by_non_host_rejected() {
    let mut c = setup();
    join_two_players(&mut c, 204);
    let commitment = ZkMafiaContract::compute_bullet_hash(&[42u8; 32], 3);
    assert_eq!(c.cargar_revolver(204, P2, commitment, 3).unwrap_err(), Error::NotPlayer);
}

#[test]
fn test_load_twice_already_started() {
    let mut c = setup();
    join_two_players(&mut c, 205);
    load_revolver(&mut c, 205, P1, 3);
    let commitment = ZkMafiaContract::compute_bullet_hash(&[42u8; 32], 2);
    assert_eq!(c.cargar_revolver(205, P1, commitment, 2).unwrap_err(), Error::AlreadyStarted);
}

#[test]
fn test_load_invalid_chamber() {
    let mut c = setup();
    join_two_players(&mut c, 206);
    let commitment = ZkMafiaContract::compute_bullet_hash(&[42u8; 32], 6);
    assert_eq!(c.cargar_revolver(206, P1, commitment, 6).unwrap_err(), Error::InvalidChamber);
}

#[test]
fn test_load_finished_game_already_ended() {
    let mut c = setup();
    join_two_players(&mut c, 207);
    load_revolver(&mut c, 207, P1, 0);
    assert_eq!(fire(&mut c, 207, P1, [0xEE; 32]), true);
    let commitment = ZkMafiaContract::compute_bullet_hash(&[42u8; 32], 1);
    assert_eq!(c.cargar_revolver(207, P1, commitment, 1).unwrap_err(), Error::GameAlreadyEnded);
}

#[test]
fn test_fire_before_load_wrong_phase() {
    let mut c = setup();
    join_two_players(&mut c, 208);
    assert_eq!(c.disparar(208, P1, [0xAA; 32]).unwrap_err(), Error::WrongPhase);
}

#[test]
fn test_zero_proof_error_and_state_unchanged() {
    let mut c = setup();
    join_all_players(&mut c, 209);
    load_revolver(&mut c, 209, P1, 3);
    let before = c.get_game(209).unwrap();

    assert_eq!(c.disparar(209, P1, [0u8; 32]).unwrap_err(), Error::InvalidProof);

    let after = c.get_game(209).unwrap();
    assert_eq!(after.players, before.players);
    assert_eq!(after.phase, before.phase);
    assert_eq!(after.current_turn, before.current_turn);
    assert_eq!(after.current_chamber, before.current_chamber);
    assert_eq!(after.bullet_commitment, before.bullet_commitment);
    assert_eq!(after.bullet_position, before.bullet_position);
    assert_eq!(after.eliminated, before.eliminated);
    assert_eq!(after.winner, before.winner);
    assert_eq!(after.shots_fired, before.shots_fired);
}

#[test]
fn test_wrong_turn_exact_error() {
    let mut c = setup();
    join_all_players(&mut c, 210);
    load_revolver(&mut c, 210, P1, 4);
    assert_eq!(c.disparar(210, P2, [0xDD; 32]).unwrap_err(), Error::NotYourTurn);
}

#[test]
fn test_commitment_known_vector() {
    // SHA-256 of 32 bytes of 42 followed by the position byte 0.
    let salt = [42u8; 32];
    let expected: [u8; 32] = [
        100, 246, 93, 5, 138, 82, 219, 90, 88, 88, 222, 39, 69, 127, 179, 185, 150, 116, 251,
        234, 235, 97, 214, 77, 97, 73, 113, 111, 17, 226, 18, 39,
    ];
    assert_eq!(ZkMafiaContract::compute_bullet_hash(&salt, 0), expected);
}

#[test]
fn test_commitment_differs_from_salt() {
    // The digest really is a digest, not the salt handed back.
    let salt = [42u8; 32];
    assert_ne!(ZkMafiaContract::compute_bullet_hash(&salt, 0), salt);
}

#[test]
fn test_start_note_carries_first_two_players() {
    let mut c = setup();
    join_all_players(&mut c, 211);
    let salt = [42u8; 32];
    let commitment = ZkMafiaContract::compute_bullet_hash(&salt, 3);
    let note = c.cargar_revolver(211, P1, commitment, 3).unwrap();
    assert_eq!(note.game_id, CONTRACT);
    assert_eq!(note.session_id, 211);
    assert_eq!(note.player1, P1);
    assert_eq!(note.player2, P2);
    assert_eq!(note.player1_points, 100);
    assert_eq!(note.player2_points, 100);
}

#[test]
fn test_end_note_on_finish() {
    let mut c = setup();
    join_two_players(&mut c, 212);
    load_revolver(&mut c, 212, P1, 0);
    let (hit, report) = c.disparar(212, P1, [0xAB; 32]).unwrap();
    assert!(hit);
    // P1 (the first hub player) lost.
    assert_eq!(report, Some(GameEnded { session_id: 212, player1_won: false }));
}

#[test]
fn test_no_end_note_on_miss() {
    let mut c = setup();
    join_two_players(&mut c, 213);
    load_revolver(&mut c, 213, P1, 5);
    let (hit, report) = c.disparar(213, P1, [0xAB; 32]).unwrap();
    assert!(!hit);
    assert_eq!(report, None);
}

#[test]
fn test_reload_is_deterministic() {
    // Two separate engines playing the same session id make the same
    // auto-reload choices.
    let mut c1 = setup();
    let mut c2 = setup();
    for c in [&mut c1, &mut c2] {
        join_all_players(c, 56);
        load_revolver(c, 56, P1, 0);
        assert_eq!(fire(c, 56, P1, [0x11; 32]), true);
    }
    let g1 = c1.get_game(56).unwrap();
    let g2 = c2.get_game(56).unwrap();
    assert_eq!(g1.bullet_position, g2.bullet_position);
    // SHA-256(be(56) || be(1)) has first byte 4 modulo 6.
    assert_eq!(g1.bullet_position, 4);
}

#[test]
fn test_who_is_alive_after_elimination() {
    let mut c = setup();
    join_all_players(&mut c, 214);
    load_revolver(&mut c, 214, P1, 0);
    assert_eq!(fire(&mut c, 214, P1, [0x22; 32]), true);
    let alive = c.who_is_alive(214).unwrap();
    assert_eq!(alive, vec![P2, P3]);
}

#[test]
fn test_admin_and_hub_accessors() {
    let mut c = setup();
    assert_eq!(c.get_admin(), ADMIN);
    assert_eq!(c.get_hub(), GAME_HUB);
    c.set_admin(77);
    c.set_hub(78);
    assert_eq!(c.get_admin(), 77);
    assert_eq!(c.get_hub(), 78);
}

#[test]
fn test_sessions_are_independent() {
    let mut c = setup();
    join_two_players(&mut c, 215);
    join_all_players(&mut c, 216);
    load_revolver(&mut c, 215, P1, 0);
    assert_eq!(fire(&mut c, 215, P1, [0x33; 32]), true);
    // Session 216 is untouched by session 215's game.
    let g = c.get_game(216).unwrap();
    assert_eq!(g.phase, PHASE_WAITING);
    assert_eq!(g.players.len(), 3);
}
