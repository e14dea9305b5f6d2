use vstd::prelude::*;

verus! {

/// Difficulty selected in the menu.  It is threaded through the game
/// state as metadata and does not alter the simulation rules.
#[derive(Clone, Copy, Debug, PartialEq, Eq, Structural)]
pub enum Difficulty {
    Easy,
    Normal,
    Hard,
}

impl Difficulty {
    pub fn next(self) -> (r: Difficulty)
        ensures
            r == (match self {
                Difficulty::Easy => Difficulty::Normal,
                Difficulty::Normal => Difficulty::Hard,
                Difficulty::Hard => Difficulty::Easy,
            }),
    {
        match self {
            Difficulty::Easy => Difficulty::Normal,
            Difficulty::Normal => Difficulty::Hard,
            Difficulty::Hard => Difficulty::Easy,
        }
    }

    pub fn prev(self) -> (r: Difficulty)
        ensures
            r == (match self {
                Difficulty::Easy => Difficulty::Hard,
                Difficulty::Normal => Difficulty::Easy,
                Difficulty::Hard => Difficulty::Normal,
            }),
    {
        match self {
            Difficulty::Easy => Difficulty::Hard,
            Difficulty::Normal => Difficulty::Easy,
            Difficulty::Hard => Difficulty::Normal,
        }
    }

    pub fn as_str(self) -> (r: &'static str)
        ensures
            self is Easy ==> r@ == "Easy"@,
            self is Normal ==> r@ == "Normal"@,
            self is Hard ==> r@ == "Hard"@,
    {
        match self {
            Difficulty::Easy => "Easy",
            Difficulty::Normal => "Normal",
            Difficulty::Hard => "Hard",
        }
    }
}

/// Game mode selected in the menu; forwarded metadata, like
/// `Difficulty`.
#[derive(Clone, Copy, Debug, PartialEq, Eq, Structural)]
pub enum GameMode {
    Classic,
    Timed,
    Endless,
}

impl GameMode {
    pub fn next(self) -> (r: GameMode)
        ensures
            r == (match self {
                GameMode::Classic => GameMode::Timed,
                GameMode::Timed => GameMode::Endless,
                GameMode::Endless => GameMode::Classic,
            }),
    {
        match self {
            GameMode::Classic => GameMode::Timed,
            GameMode::Timed => GameMode::Endless,
            GameMode::Endless => GameMode::Classic,
        }
    }

    pub fn prev(self) -> (r: GameMode)
        ensures
            r == (match self {
                GameMode::Classic => GameMode::Endless,
                GameMode::Timed => GameMode::Classic,
                GameMode::Endless => GameMode::Timed,
            }),
    {
        match self {
            GameMode::Classic => GameMode::Endless,
            GameMode::Timed => GameMode::Classic,
            GameMode::Endless => GameMode::Timed,
        }
    }

    pub fn as_str(self) -> (r: &'static str)
        ensures
            self is Classic ==> r@ == "Classic"@,
            self is Timed ==> r@ == "Timed"@,
            self is Endless ==> r@ == "Endless"@,
    {
        match self {
            GameMode::Classic => "Classic",
            GameMode::Timed => "Timed",
            GameMode::Endless => "Endless",
        }
    }
}

} // verus!
