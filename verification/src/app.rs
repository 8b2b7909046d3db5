//! The interactive front end's state: what is shown and whether the user has
//! asked to quit. Drawing and input reading live outside the library; they
//! feed key presses and ticks in through these handlers.

use vstd::prelude::*;

verus! {

/// One step of the front end's event loop: a user input or a timer tick.
pub enum AppEvent<I> {
    Input(I),
    Tick,
}

/// The front end's state.
pub struct App<'a> {
    /// The title shown over the interface.
    pub title: &'a str,
    /// Whether the user has asked to quit.
    pub should_quit: bool,
}

impl<'a> App<'a> {
    pub fn new(title: &'a str) -> (app: App<'a>)
        ensures
            app.title@ == title@,
            !app.should_quit,
    {
        App { title, should_quit: false }
    }

    /// Upward navigation; the interface has no selection yet, so the state
    /// is unchanged.
    pub fn on_up(&mut self)
        ensures
            *final(self) == *old(self),
    {
    }

    /// Downward navigation; the state is unchanged.
    pub fn on_down(&mut self)
        ensures
            *final(self) == *old(self),
    {
    }

    /// Rightward navigation; the state is unchanged.
    pub fn on_right(&mut self)
        ensures
            *final(self) == *old(self),
    {
    }

    /// Leftward navigation; the state is unchanged.
    pub fn on_left(&mut self)
        ensures
            *final(self) == *old(self),
    {
    }

    /// A typed character: `q` asks to quit, every other key is ignored.
    pub fn on_key(&mut self, c: char)
        ensures
            final(self).title == old(self).title,
            final(self).should_quit == (c == 'q' || old(self).should_quit),
    {
        match c {
            'q' => {
                self.should_quit = true;
            },
            _ => {},
        }
    }

    /// A timer tick; the reporter owns the periodic work, so the state is
    /// unchanged.
    pub fn on_tick(&mut self)
        ensures
            *final(self) == *old(self),
    {
    }
}

} // verus!
