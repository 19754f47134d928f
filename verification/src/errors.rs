use vstd::prelude::*;

verus! {

/// The closed set of failures a game entry point can report. Every operation
/// is total: it either succeeds or returns one of these, leaving the stored
/// session exactly as it was.
#[derive(Clone, Copy, Debug, PartialEq, Eq, Structural)]
pub enum Error {
    GameNotFound,
    NotPlayer,
    WrongPhase,
    NotYourTurn,
    GameAlreadyEnded,
    LobbyFull,
    AlreadyJoined,
    PlayerEliminated,
    InvalidProof,
    InvalidChamber,
    NotEnoughPlayers,
    AlreadyStarted,
}

} // verus!
