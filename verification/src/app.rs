//! The application around a round: which screen is shown and what a key
//! does on it.

use vstd::prelude::*;
use std::collections::HashMap;
use crate::game::game::{Game, GameDifficulty, GameView};
use crate::utils::keys::KeyCode;
use crate::utils::vec2d::Vec2D;

verus! {

/// The screens of the application.
#[derive(Copy, Clone, Debug, PartialEq, Eq, Structural)]
pub enum CurrentScreen {
    Main,
    Editing,
    Exiting,
    Home,
    Play,
}

/// The entries of the home screen.
#[derive(Copy, Clone, Debug, PartialEq, Eq, Structural)]
pub enum HomeSelection {
    StartGame,
    Settings,
}

impl HomeSelection {
    /// The number of entries.
    pub const COUNT: usize = 2;

    /// The entry at position `index`; the first where there is none.
    pub fn from_index(index: usize) -> (s: HomeSelection)
        ensures
            s == if index == 1 {
                HomeSelection::Settings
            } else {
                HomeSelection::StartGame
            },
    {
        match index {
            0 => HomeSelection::StartGame,
            1 => HomeSelection::Settings,
            _ => HomeSelection::StartGame,
        }
    }
}

/// Whether a round is running or over, as the application sees it.
#[derive(Copy, Clone, Debug, PartialEq, Eq, Structural)]
pub enum GameState {
    Playing,
    GameOver,
}

/// The half of a pair that is being edited.
#[derive(Copy, Clone, Debug, PartialEq, Eq, Structural)]
pub enum CurrentlyEditing {
    Key,
    Value,
}

/// Why the pairs could not be written as JSON.
#[derive(Copy, Clone, Debug, PartialEq, Eq, Structural)]
pub enum JsonError {
    /// The serialiser failed.
    Serialize,
}

/// The width of the field a new application plays on.
pub const FIELD_WIDTH: i64 = 150_000_000;

/// The height of the field a new application plays on.
pub const FIELD_HEIGHT: i64 = 75_000_000;

/// The application.
pub struct App {
    pub pairs: HashMap<String, String>,
    pub current_screen: CurrentScreen,
    pub currently_editing: Option<CurrentlyEditing>,
    pub current_game_state: Option<GameState>,
    pub current_home_selection: HomeSelection,
    pub game: Game,
    pub menu_idx: usize,
}

/// The state of the application as a mathematical value.
pub struct AppView {
    pub pairs: Map<String, String>,
    pub current_screen: CurrentScreen,
    pub currently_editing: Option<CurrentlyEditing>,
    pub current_game_state: Option<GameState>,
    pub current_home_selection: HomeSelection,
    pub game: GameView,
    pub menu_idx: usize,
}

impl AppView {
    /// The application as it starts: on the home screen, with a round at
    /// normal difficulty.
    pub open spec fn initial() -> AppView {
        AppView {
            pairs: Map::empty(),
            current_screen: CurrentScreen::Home,
            currently_editing: None,
            current_game_state: None,
            current_home_selection: HomeSelection::StartGame,
            game: GameView::initial(
                GameDifficulty::Normal,
                Vec2D { x: FIELD_WIDTH, y: FIELD_HEIGHT },
            ),
            menu_idx: 0,
        }
    }

    /// The application one tick later, where `spawn` is the place of the
    /// new food if the food is eaten in this tick. Time passes on the play
    /// screen only: on every other screen the round stands still.
    pub open spec fn ticked(self, delta_micros: u64, spawn: Vec2D) -> AppView {
        if self.current_screen == CurrentScreen::Play {
            AppView { game: self.game.ticked(delta_micros, spawn), ..self }
        } else {
            self
        }
    }

    /// The key asks to leave the application: `q` or escape on the home
    /// screen.
    pub open spec fn quits(self, key: KeyCode) -> bool {
        self.current_screen == CurrentScreen::Home && (key == KeyCode::Char('q') || key
            == KeyCode::Esc)
    }

    /// The application after a key. On the home screen `a` lowers and `d`
    /// raises the difficulty, and enter starts a new round. On the play
    /// screen escape leads back home, and every other key goes to the round.
    pub open spec fn after_key(self, key: KeyCode) -> AppView {
        match self.current_screen {
            CurrentScreen::Home => {
                if key == KeyCode::Char('a') {
                    AppView {
                        game: self.game.with_difficulty(self.game.difficulty.lowered()),
                        ..self
                    }
                } else if key == KeyCode::Char('d') {
                    AppView {
                        game: self.game.with_difficulty(self.game.difficulty.raised()),
                        ..self
                    }
                } else if key == KeyCode::Enter {
                    AppView {
                        game: self.game.restarted(),
                        current_screen: CurrentScreen::Play,
                        ..self
                    }
                } else {
                    self
                }
            },
            CurrentScreen::Play => {
                if key == KeyCode::Esc {
                    AppView {
                        current_screen: CurrentScreen::Home,
                        current_home_selection: HomeSelection::StartGame,
                        ..self
                    }
                } else {
                    AppView { game: self.game.keyed(key), ..self }
                }
            },
            _ => self,
        }
    }
}

impl View for App {
    type V = AppView;

    open spec fn view(&self) -> AppView {
        AppView {
            pairs: self.pairs@,
            current_screen: self.current_screen,
            currently_editing: self.currently_editing,
            current_game_state: self.current_game_state,
            current_home_selection: self.current_home_selection,
            game: self.game@,
            menu_idx: self.menu_idx,
        }
    }
}

impl App {
    /// The application as it starts.
    pub fn new() -> (app: App)
        ensures
            app@ == AppView::initial(),
            app@.game.wf(),
    {
        App {
            pairs: HashMap::new(),
            current_screen: CurrentScreen::Home,
            currently_editing: None,
            current_game_state: None,
            current_home_selection: HomeSelection::StartGame,
            game: Game::new(GameDifficulty::Normal, Vec2D::new(FIELD_WIDTH, FIELD_HEIGHT)),
            menu_idx: 0,
        }
    }

    /// Lets `delta_micros` microseconds pass: the round advances by one
    /// tick if the play screen is shown, and stands still if not.
    pub fn update(&mut self, delta_micros: u64)
        requires
            old(self)@.game.wf(),
        ensures
            final(self)@ == old(self)@.ticked(delta_micros, final(self).game.food.pos),
            final(self)@.game.wf(),
    {
        match self.current_screen {
            CurrentScreen::Play => {
                self.game.update(delta_micros);
            },
            _ => {},
        }
    }

    /// The pairs as a JSON object, as `json_outcome` hands on what the serialiser made of them.
    pub fn to_json(&self) -> (r: Result<String, JsonError>) {
        Self::json_outcome(pairs_to_json(&self.pairs))
    }

    /// Applies a key and tells whether the application is to end.
    pub fn handle_event(&mut self, key: KeyCode) -> (quit: bool)
        ensures
            quit == old(self)@.quits(key),
            final(self)@ == if quit {
                old(self)@
            } else {
                old(self)@.after_key(key)
            },
            old(self)@.game.wf() ==> final(self)@.game.wf(),
    {
        match self.current_screen {
            CurrentScreen::Home => match key {
                KeyCode::Esc => {
                    return true;
                },
                KeyCode::Enter => {
                    self.game.reset();
                    self.current_screen = CurrentScreen::Play;
                },
                KeyCode::Char(c) => {
                    if c == 'q' {
                        return true;
                    } else if c == 'a' {
                        self.game.decrease_difficulty();
                    } else if c == 'd' {
                        self.game.increase_difficulty();
                    }
                },
                _ => {},
            },
            CurrentScreen::Play => match key {
                KeyCode::Esc => {
                    self.current_screen = CurrentScreen::Home;
                    self.current_home_selection = HomeSelection::StartGame;
                },
                _ => {
                    self.game.handle_event(key);
                },
            },
            _ => {},
        }
        false
    }
}

impl App {
    /// What the application makes of the outcome of the serialiser: the text
    /// is handed on as it is, and every failure becomes
    /// `JsonError::Serialize`.
    pub fn json_outcome(outcome: Result<String, serde_json::Error>) -> (r: Result<
        String,
        JsonError,
    >)
        ensures
            r == match outcome {
                Ok(text) => Ok::<String, JsonError>(text),
                Err(_) => Err::<String, JsonError>(JsonError::Serialize),
            },
    {
        match outcome {
            Ok(text) => Ok(text),
            Err(_) => Err(JsonError::Serialize),
        }
    }
}

/// The error of `serde_json`, which is carried through and not looked into.
#[verifier::external_type_specification]
#[verifier::external_body]
pub struct ExJsonError(serde_json::Error);

/// Writes the pairs as a JSON object, with `serde_json::to_string`. The
/// order of the members follows the map and is not determined.
#[verifier::external_body]
fn pairs_to_json(pairs: &HashMap<String, String>) -> (r: Result<String, serde_json::Error>) {
    serde_json::to_string(pairs)
}

} // verus!
