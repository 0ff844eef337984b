//! The action loop of the terminal application: how each action changes
//! the application's state, what the terminal and the background have to
//! do, and which actions follow.
use vstd::prelude::*;
use crate::focus::{Action, ErrorDetail, FocusManager, FocusState, Mode, SubMode};

verus! {

/// Work for the terminal and the background, in the order given.
#[derive(Debug, Clone)]
pub enum LoopEffect {
    /// Forget the keys pressed since the last tick.
    ClearPendingKeys,
    ClearScreen,
    Resize(u16, u16),
    Render,
    /// Log in to CSCS in the background; a failure comes back as an error
    /// action.
    StartLogin,
    /// Store the access token and, where there is one, the refresh token,
    /// then ask for a refresh.
    StoreTokens(String, Option<String>),
    /// Log the full text of an error.
    LogError(String),
}

/// The state of the application loop.
#[derive(Debug, Clone)]
pub struct AppState {
    pub should_quit: bool,
    pub should_suspend: bool,
    pub mode: Mode,
    pub sub_mode: SubMode,
    pub focus: FocusManager,
}

/// What an action does to the loop's flags and modes, the work it hands
/// out, and the action it sends on (before the focus manager sees it).
pub open spec fn action_effects(sub_mode: SubMode, action: Action) -> (Seq<LoopEffect>, Option<Action>) {
    match action {
        Action::Tick => (seq![LoopEffect::ClearPendingKeys], None),
        Action::ClearScreen => (seq![LoopEffect::ClearScreen], None),
        Action::Resize(w, h) => (seq![LoopEffect::Resize(w, h)], None),
        Action::Render => (seq![LoopEffect::Render], None),
        Action::Menu => (
            Seq::empty(),
            Some(
                Action::SubMode(
                    match sub_mode {
                        SubMode::Main => SubMode::Menu,
                        SubMode::Menu => SubMode::Main,
                    },
                ),
            ),
        ),
        Action::Escape => (
            Seq::empty(),
            if sub_mode == SubMode::Menu {
                Some(Action::SubMode(SubMode::Main))
            } else {
                None
            },
        ),
        Action::CSCSLogin => (seq![LoopEffect::StartLogin], None),
        Action::CSCSToken(a, r) => (seq![LoopEffect::StoreTokens(a, r)], None),
        Action::Error(e) => (seq![LoopEffect::LogError(e.full)], None),
        _ => (Seq::empty(), None),
    }
}

impl AppState {
    /// The loop's state at start: no quit or suspend asked for, the main
    /// modes, and the focus on `focused`.
    pub fn new(focused: String) -> (r: AppState)
        ensures
            !r.should_quit,
            !r.should_suspend,
            r.mode == Mode::Main,
            r.sub_mode == SubMode::Main,
            r.focus@ == (FocusState { current: focused@, stack: seq![(focused@, false)], exclusive: false }),
    {
        AppState {
            should_quit: false,
            should_suspend: false,
            mode: Mode::Main,
            sub_mode: SubMode::Main,
            focus: FocusManager::new(focused),
        }
    }

    /// Takes one action: updates the flags and modes, hands out the work to
    /// do, and gives the actions to send on: first the one the action asks
    /// for, then the focus manager's announcement.
    pub fn handle_action(&mut self, action: Action) -> (r: (Vec<LoopEffect>, Vec<Action>))
        ensures
            final(self).should_quit == (old(self).should_quit || action is Quit),
            final(self).should_suspend == (match action {
                Action::Suspend => true,
                Action::Resume => false,
                _ => old(self).should_suspend,
            }),
            final(self).mode == (match action {
                Action::Mode(m) => m,
                _ => old(self).mode,
            }),
            final(self).sub_mode == (match action {
                Action::SubMode(m) => m,
                _ => old(self).sub_mode,
            }),
            r.0@ == action_effects(old(self).sub_mode, action).0,
            ({
                let first = action_effects(old(self).sub_mode, action).1;
                let lead: Seq<Action> = match first {
                    Some(a) => seq![a],
                    None => Seq::empty(),
                };
                &&& r.1@.len() >= lead.len()
                &&& r.1@.subrange(0, lead.len() as int) == lead
            }),
            match action {
                Action::RequestFocus(id, f) => final(self).focus@ == crate::focus::requested(
                    old(self).focus@,
                    id@,
                    f,
                ),
                Action::ReleaseFocus(id) => final(self).focus@ == crate::focus::released(
                    old(self).focus@,
                    id@,
                ),
                _ => final(self).focus@ == old(self).focus@ && r.1@.len() == (if action_effects(
                    old(self).sub_mode,
                    action,
                ).1 is Some {
                    1int
                } else {
                    0int
                }),
            },
    {
        let ghost a0 = action;
        let ghost sub0 = self.sub_mode;
        let focus_next: Option<Action> = match &action {
            Action::RequestFocus(id, f) => self.focus.request_focus(id.clone(), *f),
            Action::ReleaseFocus(id) => self.focus.release_focus(id.clone()),
            _ => None,
        };
        let mut effects: Vec<LoopEffect> = Vec::new();
        let mut follow: Vec<Action> = Vec::new();
        match action {
            Action::Tick => effects.push(LoopEffect::ClearPendingKeys),
            Action::Quit => self.should_quit = true,
            Action::Suspend => self.should_suspend = true,
            Action::Resume => self.should_suspend = false,
            Action::ClearScreen => effects.push(LoopEffect::ClearScreen),
            Action::Resize(w, h) => effects.push(LoopEffect::Resize(w, h)),
            Action::Render => effects.push(LoopEffect::Render),
            Action::Mode(m) => self.mode = m,
            Action::SubMode(m) => self.sub_mode = m,
            Action::Menu => match self.sub_mode {
                SubMode::Main => follow.push(Action::SubMode(SubMode::Menu)),
                SubMode::Menu => follow.push(Action::SubMode(SubMode::Main)),
            },
            Action::Escape => {
                if self.sub_mode == SubMode::Menu {
                    follow.push(Action::SubMode(SubMode::Main));
                }
            },
            Action::CSCSLogin => effects.push(LoopEffect::StartLogin),
            Action::CSCSToken(a, r) => effects.push(LoopEffect::StoreTokens(a, r)),
            Action::Error(e) => effects.push(LoopEffect::LogError(e.full)),
            _ => {},
        }
        proof {
            assert(effects@ =~= action_effects(sub0, a0).0);
        }
        let ghost lead = follow@;
        if let Some(next) = focus_next {
            follow.push(next);
        }
        proof {
            assert(follow@.subrange(0, lead.len() as int) =~= lead);
        }
        (effects, follow)
    }

    /// Which of the components (by id) get the current action: all of them,
    /// unless the focus is exclusive, when only its holder does.
    pub fn receivers(&self, ids: &Vec<String>) -> (r: Vec<bool>)
        ensures
            r@.len() == ids@.len(),
            forall|i: int|
                0 <= i < r@.len() ==> #[trigger] r@[i] == (!self.focus@.exclusive || self.focus@.current
                    == ids@[i]@),
    {
        let mut r: Vec<bool> = Vec::new();
        let mut i: usize = 0;
        while i < ids.len()
            invariant
                i <= ids@.len(),
                r@.len() == i,
                forall|k: int|
                    0 <= k < i ==> #[trigger] r@[k] == (!self.focus@.exclusive || self.focus@.current
                        == ids@[k]@),
            decreases ids.len() - i,
        {
            r.push(self.focus.should_receive_event(ids[i].clone()));
            i = i + 1;
        }
        r
    }
}

/// Opening the menu twice comes back to the main screen: the sub mode the
/// menu action asks for, taken in, makes the next menu action ask for the
/// sub mode there was before.
pub proof fn law_menu_toggles(m: SubMode)
    ensures
        ({
            let next = action_effects(m, Action::Menu).1->0->SubMode_0;
            action_effects(next, Action::Menu).1 == Some(Action::SubMode(m))
        }),
{
}

/// Escape leaves the menu and does nothing on the main screen.
pub proof fn law_escape_leaves_menu(m: SubMode)
    ensures
        m == SubMode::Menu ==> action_effects(m, Action::Escape).1 == Some(Action::SubMode(SubMode::Main)),
        m == SubMode::Main ==> action_effects(m, Action::Escape).1 is None,
{
}

} // verus!
