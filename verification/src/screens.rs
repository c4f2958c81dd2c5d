//! The screens of the game, and the stack that keeps them.
//!
//! The screen on top of the stack is the one in use. A screen answers a key
//! press, or a change of its own state, with a [`Transition`]: another
//! screen goes on top of it, or takes its place, or it leaves the stack.

use vstd::prelude::*;
use crate::level::{block_count, cells_for};
use crate::play::lemma_filter_split;
use crate::play::{Cue, Key, Outcome, PlayMode, PlayState, PlayView};

verus! {

/// The invitation on the start screen changes between shown and hidden
/// after this many milliseconds.
pub const MILLIS_PER_UPDATE: u64 = 500;

/// The screen that opens the game, with an invitation that blinks.
pub struct StartState {
    /// When the invitation last changed, in milliseconds.
    pub last_update: u64,
    /// Whether the invitation is shown.
    pub show_start: bool,
}

/// The screen over a level that is paused.
pub struct PauseState {}

/// The screen that ends a game.
pub struct EndState {
    /// What the screen says.
    pub message: String,
}

/// A screen of the game.
pub enum Screen {
    Start(StartState),
    Pause(PauseState),
    End(EndState),
    Play(PlayState),
}

/// What becomes of the stack of screens.
pub enum Transition {
    /// The screen goes on top of the stack.
    Push(Screen),
    /// The screen takes the place of the one on top.
    Replace(Screen),
    /// The screen on top leaves.
    Pop,
    /// The stack stays as it is.
    Stay,
}

/// A screen, as mathematics sees it.
pub enum ScreenView {
    Start { last_update: u64, show_start: bool },
    Pause,
    End { message: Seq<char> },
    Play(PlayView),
}

/// A transition, as mathematics sees it.
pub enum TransitionView {
    Push(ScreenView),
    Replace(ScreenView),
    Pop,
    Stay,
}

impl View for Screen {
    type V = ScreenView;

    open spec fn view(&self) -> ScreenView {
        match self {
            Screen::Start(s) => ScreenView::Start {
                last_update: s.last_update,
                show_start: s.show_start,
            },
            Screen::Pause(_) => ScreenView::Pause,
            Screen::End(s) => ScreenView::End { message: s.message@ },
            Screen::Play(s) => ScreenView::Play(s@),
        }
    }
}

impl View for Transition {
    type V = TransitionView;

    open spec fn view(&self) -> TransitionView {
        match self {
            Transition::Push(s) => TransitionView::Push(s@),
            Transition::Replace(s) => TransitionView::Replace(s@),
            Transition::Pop => TransitionView::Pop,
            Transition::Stay => TransitionView::Stay,
        }
    }
}

impl PlayView {
    /// A level can follow this one: there is a number for it, and the score
    /// has room for its blocks.
    pub open spec fn can_follow(self) -> bool {
        &&& self.index < u32::MAX
        &&& self.score + cells_for((self.index + 1) as u32).len() <= u32::MAX
    }

    /// The level can play a frame and then give way to the level that
    /// follows, if the frame leaves it won.
    pub open spec fn can_update(self) -> bool {
        self.after_frame().mode == PlayMode::Won ==> self.after_frame().can_follow()
    }
}

impl ScreenView {
    /// The screen with which every game begins, and begins again.
    pub open spec fn first_level() -> ScreenView {
        ScreenView::Play(PlayView::fresh(0, 0))
    }

    /// What a key press on the screen does to the stack: the space key
    /// begins a game on the start screen and on the end screen, takes up
    /// the game again on the pause screen, and pauses a level that is
    /// running.
    pub open spec fn transition(self, key: Key) -> TransitionView {
        if key == Key::Space {
            match self {
                ScreenView::Start { .. } => TransitionView::Replace(Self::first_level()),
                ScreenView::Pause => TransitionView::Pop,
                ScreenView::End { .. } => TransitionView::Replace(Self::first_level()),
                ScreenView::Play(play) => if play.mode == PlayMode::Running {
                    TransitionView::Push(ScreenView::Pause)
                } else {
                    TransitionView::Stay
                },
            }
        } else {
            TransitionView::Stay
        }
    }

    /// What the state of the screen does to the stack: a lost level gives
    /// way to the end of the game, a level that is won to the level that
    /// follows, with the score brought along.
    pub open spec fn state_transition(self) -> TransitionView {
        match self {
            ScreenView::Play(play) => match play.outcome() {
                Some(Outcome::Lost { .. }) => TransitionView::Replace(
                    ScreenView::End { message: "GAME OVER"@ },
                ),
                Some(Outcome::Won { next, score }) => TransitionView::Replace(
                    ScreenView::Play(PlayView::fresh(next, score)),
                ),
                None => TransitionView::Stay,
            },
            _ => TransitionView::Stay,
        }
    }

    /// The screen one frame later, at the time `now`: the start screen's
    /// invitation changes when its time has come, and a level plays a frame.
    pub open spec fn updated(self, now: u64) -> ScreenView {
        match self {
            ScreenView::Start { last_update, show_start } => if now >= last_update && now
                - last_update >= MILLIS_PER_UPDATE {
                ScreenView::Start { last_update: now, show_start: !show_start }
            } else {
                self
            },
            ScreenView::Play(play) => ScreenView::Play(play.after_frame()),
            _ => self,
        }
    }

    /// The sound of the frame.
    pub open spec fn frame_cue(self) -> Cue {
        match self {
            ScreenView::Play(play) => play.frame_cue(),
            _ => Cue::Silent,
        }
    }

    /// The screen after a key press that leaves the stack as it is.
    pub open spec fn after_key(self, key: Key, repeat: bool) -> ScreenView {
        match self {
            ScreenView::Play(play) => ScreenView::Play(play.after_key(key, repeat)),
            _ => self,
        }
    }

    /// Whether the key press asks the game to end: the escape key does, on
    /// every screen but that of a level.
    pub open spec fn quits(self, key: Key) -> bool {
        key == Key::Escape && !(self is Play)
    }
}

impl StartState {
    /// The start screen, opened at the time `now`.
    pub fn new(now: u64) -> (screen: StartState)
        ensures
            screen.last_update == now,
            screen.show_start,
    {
        StartState { last_update: now, show_start: true }
    }

    /// Lets the invitation blink: it changes when [`MILLIS_PER_UPDATE`] have
    /// passed since it last changed.
    pub fn update(&mut self, now: u64)
        ensures
            Screen::Start(*final(self))@ == Screen::Start(*old(self))@.updated(now),
    {
        if now >= self.last_update && now - self.last_update >= MILLIS_PER_UPDATE {
            self.show_start = !self.show_start;
            self.last_update = now;
        }
    }
}

impl PauseState {
    /// The pause screen.
    pub fn new() -> (screen: PauseState)
        ensures
            Screen::Pause(screen)@ == ScreenView::Pause,
    {
        PauseState {  }
    }
}

impl EndState {
    /// The end screen that says `message`.
    pub fn new(message: &str) -> (screen: EndState)
        ensures
            screen.message@ == message@,
    {
        EndState { message: message.to_owned() }
    }
}

impl PlayState {
    /// Whether a level can follow this one.
    pub fn can_follow(&self) -> (ok: bool)
        ensures
            ok == self@.can_follow(),
    {
        if self.level.index == u32::MAX {
            return false;
        }
        let count = block_count(self.level.index + 1);
        self.score as u64 + count as u64 <= 0xffff_ffff
    }

    /// Whether the level can play a frame and then give way to the level
    /// that follows, if the frame leaves it won.
    pub fn can_update(&self) -> (ok: bool)
        requires
            self.wf(),
        ensures
            ok == self@.can_update(),
    {
        if self.mode == PlayMode::Won {
            self.can_follow()
        } else if self.next_frame_wins() {
            proof {
                lemma_filter_split(self@.moved().blocks, self@.moved().ball);
            }
            if self.level.index == u32::MAX {
                return false;
            }
            let count = block_count(self.level.index + 1);
            self.score as u64 + self.level.blocks.len() as u64 + count as u64 <= 0xffff_ffff
        } else {
            true
        }
    }
}

impl Screen {
    /// A screen's level is well formed.
    pub open spec fn wf(&self) -> bool {
        self matches Screen::Play(play) ==> play.wf()
    }

    /// A screen's level can play a frame and then give way to the level
    /// that follows, if the frame leaves it won.
    pub open spec fn can_update(&self) -> bool {
        self matches Screen::Play(play) ==> play@.can_update()
    }

    /// A screen's level can give way to the level that follows, if it is
    /// won.
    pub open spec fn can_settle(&self) -> bool {
        self matches Screen::Play(play) ==> (play.mode == PlayMode::Won ==> play@.can_follow())
    }

    /// Whether the screen is well formed.
    pub fn is_wf(&self) -> (ok: bool)
        ensures
            ok == self.wf(),
    {
        match self {
            Screen::Play(play) => play.is_wf(),
            _ => true,
        }
    }

    /// The screen with which every game begins.
    pub fn first_level() -> (screen: Screen)
        ensures
            screen@ == ScreenView::first_level(),
            screen.wf(),
    {
        Screen::Play(PlayState::new(0, 0))
    }

    /// What a press of `key` on the screen does to the stack.
    pub fn transition(&self, key: Key) -> (tr: Transition)
        ensures
            tr@ == self@.transition(key),
            tr matches Transition::Push(s) ==> s.wf(),
            tr matches Transition::Replace(s) ==> s.wf(),
    {
        match key {
            Key::Space => match self {
                Screen::Start(_) => Transition::Replace(Screen::first_level()),
                Screen::Pause(_) => Transition::Pop,
                Screen::End(_) => Transition::Replace(Screen::first_level()),
                Screen::Play(play) => {
                    if play.mode == PlayMode::Running {
                        Transition::Push(Screen::Pause(PauseState::new()))
                    } else {
                        Transition::Stay
                    }
                },
            },
            _ => Transition::Stay,
        }
    }

    /// What the state of the screen does to the stack.
    pub fn state_transition(&self) -> (tr: Transition)
        requires
            self.can_settle(),
        ensures
            tr@ == self@.state_transition(),
            tr matches Transition::Push(s) ==> s.wf(),
            tr matches Transition::Replace(s) ==> s.wf(),
    {
        match self {
            Screen::Play(play) => match play.outcome() {
                Some(Outcome::Lost { .. }) => Transition::Replace(
                    Screen::End(EndState::new("GAME OVER")),
                ),
                Some(Outcome::Won { next, score }) => Transition::Replace(
                    Screen::Play(PlayState::new(next, score)),
                ),
                None => Transition::Stay,
            },
            _ => Transition::Stay,
        }
    }

    /// Plays one frame on the screen, at the time `now`.
    pub fn update(&mut self, now: u64) -> (cue: Cue)
        requires
            old(self).wf(),
        ensures
            final(self)@ == old(self)@.updated(now),
            cue == old(self)@.frame_cue(),
            final(self).wf(),
    {
        match self {
            Screen::Start(start) => {
                start.update(now);
                Cue::Silent
            },
            Screen::Play(play) => play.advance_frame().cue,
            _ => Cue::Silent,
        }
    }

    /// Hands a key press to the screen, and says whether it asks the game
    /// to end.
    pub fn key_down_event(&mut self, key: Key, repeat: bool) -> (quit: bool)
        requires
            old(self).wf(),
        ensures
            final(self)@ == old(self)@.after_key(key, repeat),
            quit == old(self)@.quits(key),
            final(self).wf(),
    {
        match self {
            Screen::Play(play) => {
                play.key_down_event(key, repeat);
                false
            },
            _ => key == Key::Escape,
        }
    }
}

/// The stack of screens, as mathematics sees it: the screen in use is the
/// last.
pub struct MainView {
    pub screens: Seq<ScreenView>,
}

impl MainView {
    /// The screen in use.
    pub open spec fn top(self) -> ScreenView {
        self.screens.last()
    }

    /// The stack with another screen in place of the one in use.
    pub open spec fn with_top(self, top: ScreenView) -> MainView {
        MainView { screens: self.screens.drop_last().push(top) }
    }

    /// The stack after the transition.
    pub open spec fn applied(self, tr: TransitionView) -> MainView {
        match tr {
            TransitionView::Push(screen) => MainView { screens: self.screens.push(screen) },
            TransitionView::Replace(screen) => self.with_top(screen),
            TransitionView::Pop => MainView { screens: self.screens.drop_last() },
            TransitionView::Stay => self,
        }
    }

    /// The stack after the screen in use has played a frame.
    pub open spec fn ticked(self, now: u64) -> MainView {
        self.with_top(self.top().updated(now))
    }

    /// The stack after the state of the screen in use has had its effect.
    pub open spec fn settled(self) -> MainView {
        self.applied(self.top().state_transition())
    }

    /// The stack one frame later: the screen in use plays a frame, and its
    /// state has its effect on the stack.
    pub open spec fn updated(self, now: u64) -> MainView {
        self.ticked(now).settled()
    }

    /// The stack after a key press: where the key means a transition to the
    /// screen in use, the transition is made; else the screen gets the key.
    pub open spec fn after_key(self, key: Key, repeat: bool) -> MainView {
        match self.top().transition(key) {
            TransitionView::Stay => self.with_top(self.top().after_key(key, repeat)),
            tr => self.applied(tr),
        }
    }

    /// Whether the key press asks the game to end.
    pub open spec fn quits(self, key: Key) -> bool {
        self.top().transition(key) is Stay && self.top().quits(key)
    }
}

/// The game: its screens, the one in use last.
pub struct MainState {
    pub inner_state: Vec<Screen>,
}

impl View for MainState {
    type V = MainView;

    open spec fn view(&self) -> MainView {
        MainView {
            screens: Seq::new(self.inner_state@.len(), |k: int| self.inner_state@[k]@),
        }
    }
}

impl MainState {
    /// There is a screen in use, the pause screen is never the only one,
    /// and every level on the stack is well formed.
    pub open spec fn wf(&self) -> bool {
        &&& self.inner_state@.len() > 0
        &&& !(self.inner_state@[0] is Pause)
        &&& forall|k: int| 0 <= k < self.inner_state@.len() ==> (#[trigger] self.inner_state@[k]).wf()
    }

    /// The level in use, if there is one, can play a frame and then give
    /// way to the level that follows, if the frame leaves it won.
    pub open spec fn spec_can_update(&self) -> bool {
        self.inner_state@.last().can_update()
    }

    /// The level in use, if there is one and it is won, can give way to the
    /// level that follows.
    pub open spec fn spec_can_settle(&self) -> bool {
        self.inner_state@.last().can_settle()
    }

    /// The game as it begins, at the time `now`: on the start screen.
    pub fn new(now: u64) -> (game: MainState)
        ensures
            game@.screens == seq![ScreenView::Start { last_update: now, show_start: true }],
            game.wf(),
    {
        let mut inner_state: Vec<Screen> = Vec::new();
        inner_state.push(Screen::Start(StartState::new(now)));
        MainState { inner_state }
    }

    /// Whether the game is well formed.
    pub fn is_wf(&self) -> (ok: bool)
        ensures
            ok == self.wf(),
    {
        let n = self.inner_state.len();
        if n == 0 {
            return false;
        }
        if let Screen::Pause(_) = &self.inner_state[0] {
            return false;
        }
        let mut k: usize = 0;
        while k < n
            invariant
                k <= n == self.inner_state@.len(),
                forall|m: int| 0 <= m < k ==> (#[trigger] self.inner_state@[m]).wf(),
            decreases n - k,
        {
            if !self.inner_state[k].is_wf() {
                return false;
            }
            k += 1;
        }
        true
    }

    /// Whether [`update`](Self::update) can be called.
    #[verifier::when_used_as_spec(spec_can_update)]
    pub fn can_update(&self) -> (ok: bool)
        requires
            self.wf(),
        ensures
            ok == self.spec_can_update(),
    {
        let n = self.inner_state.len();
        match &self.inner_state[n - 1] {
            Screen::Play(play) => play.can_update(),
            _ => true,
        }
    }

    // Makes the transition.
    fn apply(&mut self, tr: Transition)
        requires
            old(self).wf(),
            tr matches Transition::Push(s) ==> s.wf(),
            tr matches Transition::Replace(s) ==> s.wf() && !(s is Pause),
            tr is Pop ==> old(self).inner_state@.last() is Pause,
        ensures
            final(self)@ == old(self)@.applied(tr@),
            final(self).wf(),
    {
        match tr {
            Transition::Replace(ns) => {
                self.inner_state.pop();
                self.inner_state.push(ns);
            },
            Transition::Pop => {
                self.inner_state.pop();
            },
            Transition::Push(ns) => {
                self.inner_state.push(ns);
            },
            Transition::Stay => {},
        }
        assert(self@.screens =~= old(self)@.applied(tr@).screens);
    }

    /// Lets the screen in use play a frame, at the time `now`, and says
    /// what sound the frame makes.
    pub fn tick(&mut self, now: u64) -> (cue: Cue)
        requires
            old(self).wf(),
        ensures
            final(self)@ == old(self)@.ticked(now),
            cue == old(self)@.top().frame_cue(),
            final(self).wf(),
    {
        let mut top = self.inner_state.pop().unwrap();
        let cue = top.update(now);
        self.inner_state.push(top);
        assert(self@.screens =~= old(self)@.ticked(now).screens);
        cue
    }

    /// Whether [`settle`](Self::settle) can be called.
    #[verifier::when_used_as_spec(spec_can_settle)]
    pub fn can_settle(&self) -> (ok: bool)
        requires
            self.inner_state@.len() > 0,
        ensures
            ok == self.spec_can_settle(),
    {
        let n = self.inner_state.len();
        match &self.inner_state[n - 1] {
            Screen::Play(play) => play.mode != PlayMode::Won || play.can_follow(),
            _ => true,
        }
    }

    /// Lets the state of the screen in use have its effect on the stack.
    pub fn settle(&mut self)
        requires
            old(self).wf(),
            old(self).can_settle(),
        ensures
            final(self)@ == old(self)@.settled(),
            final(self).wf(),
    {
        let n = self.inner_state.len();
        let tr = self.inner_state[n - 1].state_transition();
        self.apply(tr);
    }

    /// Plays one frame, at the time `now`: the screen in use plays it, then
    /// its state has its effect on the stack. Says what sound the frame
    /// makes.
    pub fn update(&mut self, now: u64) -> (cue: Cue)
        requires
            old(self).wf(),
            old(self).can_update(),
        ensures
            final(self)@ == old(self)@.updated(now),
            cue == old(self)@.top().frame_cue(),
            final(self).wf(),
    {
        let cue = self.tick(now);
        assert(self.inner_state@.last()@ == self@.top());
        self.settle();
        cue
    }

    /// Handles a key press, and says whether it asks the game to end.
    pub fn key_down_event(&mut self, key: Key, repeat: bool) -> (quit: bool)
        requires
            old(self).wf(),
        ensures
            final(self)@ == old(self)@.after_key(key, repeat),
            quit == old(self)@.quits(key),
            final(self).wf(),
    {
        let n = self.inner_state.len();
        // a transition comes first
        let tr = self.inner_state[n - 1].transition(key);
        match tr {
            Transition::Stay => {
                // none: the screen gets the key
                let mut top = self.inner_state.pop().unwrap();
                let quit = top.key_down_event(key, repeat);
                self.inner_state.push(top);
                assert(self@.screens =~= old(self)@.after_key(key, repeat).screens);
                quit
            },
            _ => {
                self.apply(tr);
                false
            },
        }
    }
}

} // verus!
