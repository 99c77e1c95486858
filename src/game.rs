use vstd::prelude::*;

use crate::board::{
    column_full, dropped, valid_grid, empty_grid, has_four, top_row_full, Board, Color, COLUMNS,
};

verus! {

/// Where the game stands.
#[derive(Clone, Copy, PartialEq, Eq, Debug, Structural)]
pub enum GameState {
    Playing,
    Complete,
    Exit,
}

/// The headline shown above the board.
#[derive(Clone, Copy, PartialEq, Eq, Debug, Structural)]
pub enum Title {
    Turn(Color),
    Won(Color),
    Draw,
}

/// The line shown under the headline.
#[derive(Clone, Copy, PartialEq, Eq, Debug, Structural)]
pub enum Notice {
    Blank,
    InvalidMove,
    PlayAgain,
}

/// An input from the player.
#[derive(Clone, Copy, PartialEq, Eq, Debug, Structural)]
pub enum Command {
    Quit,
    Digit(u32),
    Left,
    Right,
    Enter,
}

/// The words of a headline.
pub open spec fn title_words(t: Title) -> Seq<char> {
    match t {
        Title::Turn(Color::Red) => "Red's turn"@,
        Title::Turn(Color::Yellow) => "Yellow's turn"@,
        Title::Won(Color::Red) => "Red won!"@,
        Title::Won(Color::Yellow) => "Yellow won!"@,
        Title::Draw => "Draw"@,
    }
}

/// The words of a notice.
pub open spec fn notice_words(n: Notice) -> Seq<char> {
    match n {
        Notice::Blank => ""@,
        Notice::InvalidMove => "invalid move, try again"@,
        Notice::PlayAgain => "Press enter to play again"@,
    }
}

impl Title {
    /// The headline as it is shown.
    pub fn text(&self) -> (r: &'static str)
        ensures
            r@ == title_words(*self),
    {
        match self {
            Title::Turn(Color::Red) => "Red's turn",
            Title::Turn(Color::Yellow) => "Yellow's turn",
            Title::Won(Color::Red) => "Red won!",
            Title::Won(Color::Yellow) => "Yellow won!",
            Title::Draw => "Draw",
        }
    }
}

impl Notice {
    /// The notice as it is shown.
    pub fn text(&self) -> (r: &'static str)
        ensures
            r@ == notice_words(*self),
    {
        match self {
            Notice::Blank => "",
            Notice::InvalidMove => "invalid move, try again",
            Notice::PlayAgain => "Press enter to play again",
        }
    }
}

/// The game: the board, whose turn it is, what is shown and where the game
/// stands.
pub struct App {
    board: Board,
    selected_column: Option<usize>,
    current_player: Color,
    title: Title,
    subtitle: Notice,
    game_state: GameState,
}

/// The state of a game, as seen by contracts.
pub struct AppView {
    pub board: Seq<Option<Color>>,
    pub selected_column: Option<usize>,
    pub current_player: Color,
    pub title: Title,
    pub subtitle: Notice,
    pub game_state: GameState,
}

impl View for App {
    type V = AppView;

    closed spec fn view(&self) -> AppView {
        AppView {
            board: self.board@,
            selected_column: self.selected_column,
            current_player: self.current_player,
            title: self.title,
            subtitle: self.subtitle,
            game_state: self.game_state,
        }
    }
}

impl Default for App {
    fn default() -> (a: App)
        ensures
            a.wf(),
            a@ == initial_view(),
    {
        App::new()
    }
}

/// The color that is not `c`.
pub open spec fn other(c: Color) -> Color {
    match c {
        Color::Red => Color::Yellow,
        Color::Yellow => Color::Red,
    }
}

/// A fresh game: an empty board, Red to move, no column selected.
pub open spec fn initial_view() -> AppView {
    AppView {
        board: empty_grid(),
        selected_column: None,
        current_player: Color::Red,
        title: Title::Turn(Color::Red),
        subtitle: Notice::Blank,
        game_state: GameState::Playing,
    }
}

/// The selection after a move to the right: one column further, at most the
/// last; the last column when none was selected.
pub open spec fn selection_right(sel: Option<usize>) -> Option<usize> {
    match sel {
        Some(c) => Some(if c + 1 < COLUMNS { (c + 1) as usize } else { (COLUMNS - 1) as usize }),
        None => Some((COLUMNS - 1) as usize),
    }
}

/// The selection after a move to the left: one column back, at least the
/// first; the first column when none was selected.
pub open spec fn selection_left(sel: Option<usize>) -> Option<usize> {
    match sel {
        Some(c) => Some(if c > 0 { (c - 1) as usize } else { 0usize }),
        None => Some(0usize),
    }
}

/// What a turn in column `col` makes of the game `a` while it is being
/// played: a refused move leaves all but the notice as it was; otherwise the
/// token of the player to move is dropped, and the game ends on a line of
/// four or a full board, or passes to the other player.
pub open spec fn turn_outcome(a: AppView, col: int, b: AppView) -> bool {
    if col >= COLUMNS || column_full(a.board, col) {
        b == AppView { subtitle: Notice::InvalidMove, ..a }
    } else {
        &&& dropped(a.board, b.board, col, a.current_player)
        &&& b.selected_column == a.selected_column
        &&& if has_four(b.board, Color::Red) || has_four(b.board, Color::Yellow) {
            &&& b.game_state == GameState::Complete
            &&& b.title matches Title::Won(w) && has_four(b.board, w)
            &&& b.subtitle == Notice::PlayAgain
            &&& b.current_player == a.current_player
        } else if top_row_full(b.board) {
            &&& b.game_state == GameState::Complete
            &&& b.title == Title::Draw
            &&& b.subtitle == Notice::PlayAgain
            &&& b.current_player == a.current_player
        } else {
            &&& b.game_state == GameState::Playing
            &&& b.current_player == other(a.current_player)
            &&& b.title == Title::Turn(other(a.current_player))
            &&& b.subtitle == Notice::Blank
        }
    }
}

/// What a command makes of the game `a`. Quitting is accepted in every
/// state; selecting and playing only while the game is played; a new game
/// starts on `Enter` once the game is complete. Any other command changes
/// nothing.
pub open spec fn command_outcome(a: AppView, cmd: Command, b: AppView) -> bool {
    match cmd {
        Command::Quit => b == AppView { game_state: GameState::Exit, ..a },
        Command::Digit(d) => if a.game_state == GameState::Playing && 1 <= d <= COLUMNS {
            b == AppView { selected_column: Some((d - 1) as usize), ..a }
        } else {
            b == a
        },
        Command::Left => if a.game_state == GameState::Playing {
            b == AppView { selected_column: selection_left(a.selected_column), ..a }
        } else {
            b == a
        },
        Command::Right => if a.game_state == GameState::Playing {
            b == AppView { selected_column: selection_right(a.selected_column), ..a }
        } else {
            b == a
        },
        Command::Enter => if a.game_state == GameState::Playing {
            match a.selected_column {
                Some(c) => turn_outcome(a, c as int, b),
                None => b == a,
            }
        } else if a.game_state == GameState::Complete {
            b == initial_view()
        } else {
            b == a
        },
    }
}

/// Turns alternate: a move that is refused keeps the player to move, and a
/// move that is taken without ending the game passes the turn to the other
/// color.
pub proof fn lemma_turns_alternate(a: AppView, col: int, b: AppView)
    requires
        turn_outcome(a, col, b),
    ensures
        (col >= COLUMNS || column_full(a.board, col)) ==> b.current_player == a.current_player,
        (0 <= col < COLUMNS && !column_full(a.board, col) && b.game_state == GameState::Playing)
            ==> b.current_player == other(a.current_player),
{
}

impl App {
    /// The board exists and the selected column, if any, is on it.
    pub open spec fn wf(&self) -> bool {
        &&& valid_grid(self@.board)
        &&& (self@.selected_column matches Some(c) ==> c < COLUMNS)
    }

    /// A fresh game.
    pub fn new() -> (a: App)
        ensures
            a.wf(),
            a@ == initial_view(),
    {
        App {
            board: Board::new(),
            selected_column: None,
            current_player: Color::Red,
            title: Title::Turn(Color::Red),
            subtitle: Notice::Blank,
            game_state: GameState::Playing,
        }
    }

    /// Moves the selection one column to the right.
    pub fn increment_selection(&mut self)
        requires
            old(self).wf(),
        ensures
            final(self).wf(),
            final(self)@ == (AppView {
                selected_column: selection_right(old(self)@.selected_column),
                ..old(self)@
            }),
    {
        match self.selected_column {
            Some(c) => {
                self.selected_column = Some(if c + 1 < COLUMNS { c + 1 } else { COLUMNS - 1 });
            },
            None => {
                self.selected_column = Some(COLUMNS - 1);
            },
        }
    }

    /// Moves the selection one column to the left.
    pub fn decrement_selection(&mut self)
        requires
            old(self).wf(),
        ensures
            final(self).wf(),
            final(self)@ == (AppView {
                selected_column: selection_left(old(self)@.selected_column),
                ..old(self)@
            }),
    {
        match self.selected_column {
            Some(c) => {
                self.selected_column = Some(c.saturating_sub(1));
            },
            None => {
                self.selected_column = Some(0);
            },
        }
    }

    /// Plays the current player's token into `column_idx`, while the game is
    /// being played; in any other state nothing changes.
    pub fn take_turn(&mut self, column_idx: usize)
        requires
            old(self).wf(),
        ensures
            final(self).wf(),
            old(self)@.game_state == GameState::Playing ==> turn_outcome(
                old(self)@,
                column_idx as int,
                final(self)@,
            ),
            old(self)@.game_state != GameState::Playing ==> final(self)@ == old(self)@,
    {
        match self.game_state {
            GameState::Playing => {},
            _ => {
                return;
            },
        }
        let turn_result = self.board.play_turn(column_idx, self.current_player);
        if turn_result.is_err() {
            self.subtitle = Notice::InvalidMove;
            return;
        }
        if let Some(winner) = self.board.get_winner() {
            self.title = Title::Won(winner);
            self.subtitle = Notice::PlayAgain;
            self.game_state = GameState::Complete;
            return;
        }
        if self.board.is_full() {
            self.title = Title::Draw;
            self.subtitle = Notice::PlayAgain;
            self.game_state = GameState::Complete;
            return;
        }
        self.subtitle = Notice::Blank;
        self.current_player = match self.current_player {
            Color::Yellow => Color::Red,
            Color::Red => Color::Yellow,
        };
        self.title = Title::Turn(self.current_player);
    }

    /// Starts a new game once the current one is complete; in any other
    /// state nothing changes.
    pub fn restart(&mut self)
        requires
            old(self).wf(),
        ensures
            final(self).wf(),
            old(self)@.game_state == GameState::Complete ==> final(self)@ == initial_view(),
            old(self)@.game_state != GameState::Complete ==> final(self)@ == old(self)@,
    {
        match self.game_state {
            GameState::Complete => {
                *self = App::new();
            },
            _ => {},
        }
    }

    /// Asks the surrounding application to stop.
    pub fn exit(&mut self)
        requires
            old(self).wf(),
        ensures
            final(self).wf(),
            final(self)@ == (AppView { game_state: GameState::Exit, ..old(self)@ }),
    {
        self.game_state = GameState::Exit;
    }

    /// Applies one command of the player.
    pub fn handle_command(&mut self, cmd: Command)
        requires
            old(self).wf(),
        ensures
            final(self).wf(),
            command_outcome(old(self)@, cmd, final(self)@),
    {
        match (self.game_state, cmd) {
            (_, Command::Quit) => self.exit(),
            (GameState::Playing, Command::Digit(d)) => {
                if 1 <= d && d <= COLUMNS as u32 {
                    self.selected_column = Some((d - 1) as usize);
                }
            },
            (GameState::Playing, Command::Left) => self.decrement_selection(),
            (GameState::Playing, Command::Right) => self.increment_selection(),
            (GameState::Playing, Command::Enter) => {
                if let Some(col_idx) = self.selected_column {
                    self.take_turn(col_idx);
                }
            },
            (GameState::Complete, Command::Enter) => self.restart(),
            _ => {},
        }
    }

    /// The board.
    pub fn board(&self) -> (b: &Board)
        ensures
            b@ == self@.board,
    {
        &self.board
    }

    /// The color expected to move.
    pub fn current_player(&self) -> (c: Color)
        ensures
            c == self@.current_player,
    {
        self.current_player
    }

    /// Where the game stands.
    pub fn game_state(&self) -> (g: GameState)
        ensures
            g == self@.game_state,
    {
        self.game_state
    }

    /// The highlighted column, if any.
    pub fn selected_column(&self) -> (s: Option<usize>)
        ensures
            s == self@.selected_column,
    {
        self.selected_column
    }

    /// The headline.
    pub fn title(&self) -> (t: Title)
        ensures
            t == self@.title,
    {
        self.title
    }

    /// The line under the headline.
    pub fn subtitle(&self) -> (n: Notice)
        ensures
            n == self@.subtitle,
    {
        self.subtitle
    }
}

} // verus!
