use vstd::prelude::*;

verus! {

/// Notification the hub re-emits when a game session starts.
#[derive(Clone, Copy, Debug, PartialEq, Eq, Structural)]
pub struct GameStarted {
    pub session_id: u32,
    pub game_id: u64,
    pub player1: u64,
    pub player2: u64,
    pub player1_points: i128,
    pub player2_points: i128,
}

/// Notification the hub re-emits when a game session ends.
#[derive(Clone, Copy, Debug, PartialEq, Eq, Structural)]
pub struct GameEnded {
    pub session_id: u32,
    pub player1_won: bool,
}

/// Placeholder scoring hub. It keeps no state and does no bookkeeping: each
/// entry point simply re-emits its arguments as the notification the caller
/// is expected to publish. It exists so the game engine has the two-method
/// hub interface to report to during development; a production hub honours
/// the same shape.
pub struct MockGameHub;

impl MockGameHub {
    /// Record that `game_id` started session `session_id` between the first
    /// two players, with their point stakes.
    pub fn start_game(
        game_id: u64,
        session_id: u32,
        player1: u64,
        player2: u64,
        player1_points: i128,
        player2_points: i128,
    ) -> (note: GameStarted)
        ensures
            note == (GameStarted {
                session_id,
                game_id,
                player1,
                player2,
                player1_points,
                player2_points,
            }),
    {
        GameStarted { session_id, game_id, player1, player2, player1_points, player2_points }
    }

    /// Record that session `session_id` ended, and whether the first hub
    /// player won it.
    pub fn end_game(session_id: u32, player1_won: bool) -> (note: GameEnded)
        ensures
            note == (GameEnded { session_id, player1_won }),
    {
        GameEnded { session_id, player1_won }
    }
}

} // verus!
