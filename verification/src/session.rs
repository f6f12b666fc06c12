//! The pager's session: what each key press and each change of the terminal's
//! size does to the screen.
//!
//! The caller reads the terminal and hands each event to [`Pager::handle`];
//! it draws what [`Pager::draw`] returns and stops when `handle` says so.

use vstd::prelude::*;
use crate::screen::{lemma_operations_keep_wf, Frame, MoveUnit, Screen, ScreenView};

verus! {

/// A key, as far as the pager tells keys apart.
#[derive(Debug, Clone, Copy, PartialEq, Eq)]
pub enum Key {
    Enter,
    Esc,
    Backspace,
    Up,
    Down,
    Char(char),
    /// Any other key.
    Other,
}

/// What the terminal reports.
#[derive(Debug, Clone, Copy, PartialEq, Eq)]
pub enum Event {
    /// A key was pressed.
    Key(Key),
    /// The terminal now has this many columns and rows.
    Resize(usize, usize),
    /// Anything else.
    Other,
}

/// What the pager is asked to do.
#[derive(Debug, Clone, Copy, PartialEq, Eq)]
pub enum Command {
    /// Scroll down.
    Down(MoveUnit),
    /// Scroll up.
    Up(MoveUnit),
    /// Leave the pager.
    Quit,
    /// Start editing a new query; the current one is set aside.
    EditQuery,
    /// Search forward for the query.
    FindNext,
    /// Search backward for the query.
    FindPrev,
    /// Keep the edited query and leave query editing.
    Commit,
    /// Bring back the query that was set aside and leave query editing.
    Cancel,
    /// Remove the last character of the query.
    Erase,
    /// Append a character to the query.
    Type(char),
    /// Adapt to a terminal of this many columns and rows.
    Resize(usize, usize),
    /// Do nothing.
    Nothing,
}

/// What a key asks for while the pager shows text.
pub open spec fn normal_command(key: Key) -> Command {
    match key {
        Key::Enter | Key::Down | Key::Char('j') => Command::Down(MoveUnit::Line),
        Key::Up | Key::Char('k') => Command::Up(MoveUnit::Line),
        Key::Char(' ') | Key::Char('f') | Key::Char('d') => Command::Down(MoveUnit::HalfPage),
        Key::Char('b') | Key::Char('u') => Command::Up(MoveUnit::HalfPage),
        Key::Char('g') => Command::Up(MoveUnit::Entire),
        Key::Char('G') => Command::Down(MoveUnit::Entire),
        Key::Char('q') => Command::Quit,
        Key::Char('/') => Command::EditQuery,
        Key::Char('n') => Command::FindNext,
        Key::Char('N') => Command::FindPrev,
        _ => Command::Nothing,
    }
}

/// What a key asks for while the query is edited.
pub open spec fn query_command(key: Key) -> Command {
    match key {
        Key::Enter => Command::Commit,
        Key::Esc => Command::Cancel,
        Key::Backspace => Command::Erase,
        Key::Char(c) => Command::Type(c),
        _ => Command::Nothing,
    }
}

/// What an event asks for, given whether the query is being edited.
pub open spec fn command_for(query_mode: bool, event: Event) -> Command {
    match event {
        Event::Resize(width, height) => Command::Resize(width, height),
        Event::Key(key) => if query_mode {
            query_command(key)
        } else {
            normal_command(key)
        },
        Event::Other => Command::Nothing,
    }
}

/// Reads an event as a command.
pub fn decode(query_mode: bool, event: Event) -> (command: Command)
    ensures
        command == command_for(query_mode, event),
{
    match event {
        Event::Resize(width, height) => Command::Resize(width, height),
        Event::Other => Command::Nothing,
        Event::Key(key) => if query_mode {
            match key {
                Key::Enter => Command::Commit,
                Key::Esc => Command::Cancel,
                Key::Backspace => Command::Erase,
                Key::Char(c) => Command::Type(c),
                _ => Command::Nothing,
            }
        } else {
            match key {
                Key::Enter | Key::Down => Command::Down(MoveUnit::Line),
                Key::Up => Command::Up(MoveUnit::Line),
                Key::Char(c) => {
                    if c == 'j' {
                        Command::Down(MoveUnit::Line)
                    } else if c == 'k' {
                        Command::Up(MoveUnit::Line)
                    } else if c == ' ' || c == 'f' || c == 'd' {
                        Command::Down(MoveUnit::HalfPage)
                    } else if c == 'b' || c == 'u' {
                        Command::Up(MoveUnit::HalfPage)
                    } else if c == 'g' {
                        Command::Up(MoveUnit::Entire)
                    } else if c == 'G' {
                        Command::Down(MoveUnit::Entire)
                    } else if c == 'q' {
                        Command::Quit
                    } else if c == '/' {
                        Command::EditQuery
                    } else if c == 'n' {
                        Command::FindNext
                    } else if c == 'N' {
                        Command::FindPrev
                    } else {
                        Command::Nothing
                    }
                },
                _ => Command::Nothing,
            }
        },
    }
}

/// The state of a [`Pager`], as contracts speak of it.
pub struct PagerView {
    /// The screen.
    pub screen: ScreenView,
    /// The query that was set aside when query editing began.
    pub saved_query: Option<Seq<char>>,
}

impl PagerView {
    /// The screen is consistent, and while the query is edited the former
    /// query is kept.
    pub open spec fn wf(self) -> bool {
        &&& self.screen.wf()
        &&& self.screen.query_mode ==> self.saved_query is Some
    }

    /// The session after `command`.
    pub open spec fn after(self, command: Command) -> Self {
        match command {
            Command::Down(unit) => PagerView { screen: self.screen.moved_down(unit), ..self },
            Command::Up(unit) => PagerView { screen: self.screen.moved_up(unit), ..self },
            Command::Quit | Command::Nothing => self,
            Command::EditQuery => PagerView {
                screen: ScreenView {
                    query: Seq::empty(),
                    query_mode: true,
                    needs_update: true,
                    ..self.screen
                },
                saved_query: Some(self.screen.query),
            },
            Command::FindNext => PagerView { screen: self.screen.found_next(), ..self },
            Command::FindPrev => PagerView { screen: self.screen.found_prev(), ..self },
            Command::Commit => PagerView {
                screen: ScreenView { query_mode: false, needs_update: true, ..self.screen },
                ..self
            },
            Command::Cancel => PagerView {
                screen: ScreenView {
                    query: match self.saved_query {
                        Some(q) => q,
                        None => self.screen.query,
                    },
                    query_mode: false,
                    needs_update: true,
                    ..self.screen
                },
                saved_query: None,
            },
            Command::Erase => PagerView {
                screen: ScreenView {
                    query: if self.screen.query.len() > 0 {
                        self.screen.query.drop_last()
                    } else {
                        self.screen.query
                    },
                    needs_update: true,
                    ..self.screen
                },
                ..self
            },
            Command::Type(c) => PagerView {
                screen: ScreenView {
                    query: self.screen.query.push(c),
                    needs_update: true,
                    ..self.screen
                },
                ..self
            },
            Command::Resize(width, height) => PagerView {
                screen: self.screen.resized(width as nat, height as nat),
                ..self
            },
        }
    }
}

/// A pager session: the screen, and the query to come back to when query
/// editing is cancelled.
pub struct Pager {
    screen: Screen,
    saved_query: Option<String>,
}

impl View for Pager {
    type V = PagerView;

    closed spec fn view(&self) -> PagerView {
        PagerView {
            screen: self.screen@,
            saved_query: match self.saved_query {
                Some(q) => Some(q@),
                None => None,
            },
        }
    }
}

impl Pager {
    /// The session's state is consistent: see [`PagerView::wf`].
    pub open spec fn wf(&self) -> bool {
        self@.wf()
    }

    /// A session that shows the start of `contents` on a terminal of the given
    /// size.
    pub fn new(width: usize, height: usize, contents: String) -> (pager: Self)
        ensures
            pager@ == (PagerView {
                screen: ScreenView::initial(width as nat, height as nat, contents@),
                saved_query: None,
            }),
            pager.wf(),
    {
        Pager { screen: Screen::new(width, height, contents), saved_query: None }
    }

    /// The screen.
    pub fn screen(&self) -> (screen: &Screen)
        ensures
            screen@ == self@.screen,
    {
        &self.screen
    }

    /// Draws the screen: see [`Screen::draw`].
    pub fn draw(&mut self) -> (frame: Option<Frame>)
        ensures
            !old(self)@.screen.needs_update ==> frame is None && final(self)@ == old(self)@,
            old(self)@.screen.needs_update ==> {
                &&& frame.is_some()
                &&& frame.unwrap()@ == old(self)@.screen.frame()
                &&& final(self)@ == (PagerView {
                    screen: old(self)@.screen.drawn(),
                    ..old(self)@
                })
            },
            old(self).wf() ==> final(self).wf(),
    {
        self.screen.draw()
    }

    /// Carries out `command`. Returns whether the pager is to be left.
    pub fn apply(&mut self, command: Command) -> (quit: bool)
        ensures
            final(self)@ == old(self)@.after(command),
            quit == (command == Command::Quit),
            old(self).wf() ==> final(self).wf(),
    {
        match command {
            Command::Down(unit) => self.screen.down_by(unit),
            Command::Up(unit) => self.screen.up_by(unit),
            Command::Quit => {
                return true;
            },
            Command::Nothing => {},
            Command::EditQuery => {
                let mut former = String::new();
                std::mem::swap(self.screen.get_query_mut(), &mut former);
                self.saved_query = Some(former);
                self.screen.set_query_mode(true);
            },
            Command::FindNext => self.screen.next(),
            Command::FindPrev => self.screen.prev(),
            Command::Commit => self.screen.set_query_mode(false),
            Command::Cancel => {
                match self.saved_query.take() {
                    Some(former) => {
                        *self.screen.get_query_mut() = former;
                    },
                    None => {},
                }
                self.screen.set_query_mode(false);
            },
            Command::Erase => {
                let _ = self.screen.get_query_mut().pop();
            },
            Command::Type(c) => self.screen.get_query_mut().push(c),
            Command::Resize(width, height) => self.screen.update_size(width, height),
        }
        false
    }

    /// Takes an event from the terminal: reads it as a command, given whether
    /// the query is being edited, and carries that out. Returns whether the
    /// pager is to be left.
    pub fn handle(&mut self, event: Event) -> (quit: bool)
        ensures
            final(self)@ == old(self)@.after(command_for(old(self)@.screen.query_mode, event)),
            quit == (command_for(old(self)@.screen.query_mode, event) == Command::Quit),
            old(self).wf() ==> final(self).wf(),
    {
        let command = decode(self.screen.is_query_mode(), event);
        self.apply(command)
    }
}

/// Every command keeps a consistent session consistent: whatever the keys
/// pressed, the scroll offset stays in range and the query set aside is kept
/// for as long as the query is edited.
pub proof fn lemma_commands_keep_wf(s: PagerView, command: Command)
    requires
        s.wf(),
    ensures
        s.after(command).wf(),
{
    match command {
        Command::Down(unit) => lemma_operations_keep_wf(s.screen, 0, unit, 0, 0),
        Command::Up(unit) => lemma_operations_keep_wf(s.screen, 0, unit, 0, 0),
        Command::FindNext | Command::FindPrev => lemma_operations_keep_wf(
            s.screen,
            0,
            MoveUnit::Line,
            0,
            0,
        ),
        Command::Resize(width, height) => lemma_operations_keep_wf(
            s.screen,
            0,
            MoveUnit::Line,
            width as nat,
            height as nat,
        ),
        _ => {},
    }
}

/// Typing and erasing, and a change of the terminal's size, leave the query
/// that was set aside, and query editing, as they are.
pub proof fn lemma_editing_keeps_saved_query(s: PagerView, command: Command)
    requires
        command is Type || command is Erase || command is Resize || command is Nothing,
    ensures
        s.after(command).saved_query == s.saved_query,
        s.after(command).screen.query_mode == s.screen.query_mode,
{
}

/// Cancelling brings back the query that was set aside when editing began,
/// whatever was typed since.
pub proof fn lemma_cancel_restores_query(s: PagerView)
    ensures
        s.after(Command::EditQuery).saved_query == Some(s.screen.query),
        s.after(Command::EditQuery).after(Command::Cancel).screen.query == s.screen.query,
        s.saved_query is Some ==> s.after(Command::Cancel).screen.query == s.saved_query->0,
        !s.after(Command::Cancel).screen.query_mode,
{
}

} // verus!
