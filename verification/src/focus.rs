//! Focus handling between UI components: which component holds the input
//! focus, which one had it before, and whether the focus is exclusive.
use vstd::prelude::*;

verus! {

/// How a component holds (or asks for) the input focus.
#[derive(Debug, Clone, Copy, PartialEq, Eq, Structural)]
pub enum Focus {
    Inactive,
    Active,
    Permanent,
    PermanentInactive,
    Exclusive,
}

impl Default for Focus {
    fn default() -> (r: Focus)
        ensures
            r == Focus::Inactive,
    {
        Focus::Inactive
    }
}

impl Focus {
    /// The variant's name, as the UI displays it.
    pub fn name(&self) -> (r: &'static str)
        ensures
            *self == Focus::Inactive ==> r@ == "Inactive"@,
            *self == Focus::Active ==> r@ == "Active"@,
            *self == Focus::Permanent ==> r@ == "Permanent"@,
            *self == Focus::PermanentInactive ==> r@ == "PermanentInactive"@,
            *self == Focus::Exclusive ==> r@ == "Exclusive"@,
    {
        match self {
            Focus::Inactive => "Inactive",
            Focus::Active => "Active",
            Focus::Permanent => "Permanent",
            Focus::PermanentInactive => "PermanentInactive",
            Focus::Exclusive => "Exclusive",
        }
    }
}

/// The application's input mode.
#[derive(Debug, Clone, Copy, PartialEq, Eq, Structural)]
pub enum Mode {
    Main,
}

/// The sub mode inside the main mode: the main screen or the menu.
#[derive(Debug, Clone, Copy, PartialEq, Eq, Structural)]
pub enum SubMode {
    Main,
    Menu,
}

impl Default for Mode {
    fn default() -> (r: Mode)
        ensures
            r == Mode::Main,
    {
        Mode::Main
    }
}

impl Default for SubMode {
    fn default() -> (r: SubMode)
        ensures
            r == SubMode::Main,
    {
        SubMode::Main
    }
}

/// An error as it travels between components: a short message and the full
/// report.
#[derive(Debug, Clone)]
pub struct ErrorDetail {
    pub message: String,
    pub full: String,
}

/// Everything components and the application loop send each other.
#[derive(Debug, Clone)]
pub enum Action {
    Tick,
    Render,
    Resize(u16, u16),
    Suspend,
    Resume,
    Quit,
    ClearScreen,
    Error(ErrorDetail),
    Help,
    Menu,
    MenuUp,
    MenuDown,
    Enter,
    Escape,
    Up,
    Down,
    Mode(Mode),
    SubMode(SubMode),
    RemoteRefresh,
    CSCSLogin,
    CSCSToken(String, Option<String>),
    ClosePopup,
    RequestFocus(String, Focus),
    ReleaseFocus(String),
    FocusChanged(String, Focus),
}

/// `a` announces that the component `id` now has the focus `f`.
pub open spec fn announces(a: Option<Action>, id: Seq<char>, f: Focus) -> bool {
    a matches Some(Action::FocusChanged(c, g)) && c@ == id && g == f
}

/// The abstract state of a focus manager: the focused component, the stack
/// of earlier focus holders (each with its exclusivity) and whether the
/// current focus is exclusive.
pub struct FocusState {
    pub current: Seq<char>,
    pub stack: Seq<(Seq<char>, bool)>,
    pub exclusive: bool,
}

/// Tracks which component holds the focus and restores earlier holders when
/// the focus is released.
#[derive(Debug, Clone)]
pub struct FocusManager {
    current_focus: String,
    previous_focus: Vec<(String, bool)>,
    exclusive: bool,
}

/// The stack of earlier holders, by value.
pub open spec fn stack_view(v: Seq<(String, bool)>) -> Seq<(Seq<char>, bool)> {
    v.map_values(|p: (String, bool)| (p.0@, p.1))
}

impl View for FocusManager {
    type V = FocusState;

    closed spec fn view(&self) -> FocusState {
        FocusState {
            current: self.current_focus@,
            stack: stack_view(self.previous_focus@),
            exclusive: self.exclusive,
        }
    }
}

/// The state after releasing the focus of `id`.
pub open spec fn released(s: FocusState, id: Seq<char>) -> FocusState {
    if s.current != id {
        if s.stack.len() > 0 && s.stack.last().0 == id {
            FocusState { stack: s.stack.drop_last(), ..s }
        } else {
            s
        }
    } else if s.stack.len() > 0 {
        FocusState {
            current: s.stack.last().0,
            stack: s.stack.drop_last(),
            exclusive: s.stack.last().1,
        }
    } else {
        s
    }
}

/// What releasing the focus of `id` announces.
pub open spec fn release_announces(s: FocusState, id: Seq<char>, a: Option<Action>) -> bool {
    if s.current != id {
        announces(a, id, Focus::Inactive)
    } else {
        let t = released(s, id);
        announces(a, t.current, if t.exclusive { Focus::Exclusive } else { Focus::Active })
    }
}

/// The state after `id` asks for the focus `f`.
pub open spec fn requested(s: FocusState, id: Seq<char>, f: Focus) -> FocusState {
    match f {
        Focus::Inactive => if s.current == id { released(s, id) } else { s },
        Focus::Active => if !s.exclusive && s.current != id {
            FocusState { current: id, stack: s.stack.push((s.current, false)), exclusive: false }
        } else {
            s
        },
        Focus::Exclusive => if s.current != id {
            FocusState { current: id, stack: s.stack.push((s.current, s.exclusive)), exclusive: true }
        } else {
            FocusState { exclusive: true, ..s }
        },
        _ => s,
    }
}

/// What asking for the focus `f` for `id` announces.
pub open spec fn request_announces(s: FocusState, id: Seq<char>, f: Focus, a: Option<Action>) -> bool {
    match f {
        Focus::Inactive => if s.current == id {
            release_announces(s, id, a)
        } else {
            announces(a, id, Focus::Inactive)
        },
        Focus::Active => if !s.exclusive && s.current != id {
            announces(a, id, Focus::Active)
        } else {
            a is None
        },
        Focus::Permanent => if s.exclusive {
            announces(a, id, Focus::PermanentInactive)
        } else {
            announces(a, id, Focus::Permanent)
        },
        Focus::PermanentInactive => announces(a, id, Focus::PermanentInactive),
        Focus::Exclusive => announces(a, id, Focus::Exclusive),
    }
}

impl FocusManager {
    pub closed spec fn spec_current(&self) -> Seq<char> {
        self.current_focus@
    }

    proof fn lemma_stack_view_len(v: Seq<(String, bool)>)
        ensures
            stack_view(v).len() == v.len(),
            forall|i: int| 0 <= i < v.len() ==> #[trigger] stack_view(v)[i] == (v[i].0@, v[i].1),
    {
    }

    /// A manager whose focus is on `initial_focus`, which is also the bottom
    /// of the stack of earlier holders.
    pub fn new(initial_focus: String) -> (r: FocusManager)
        ensures
            r@.current == initial_focus@,
            r@.stack == seq![(initial_focus@, false)],
            !r@.exclusive,
    {
        let mut previous_focus = Vec::new();
        previous_focus.push((initial_focus.clone(), false));
        let r = FocusManager { current_focus: initial_focus, previous_focus, exclusive: false };
        proof {
            assert(stack_view(r.previous_focus@) =~= seq![(r.current_focus@, false)]);
        }
        r
    }

    /// `component_id` asks for the focus `focus`; returns the announcement of
    /// the resulting focus change, if any.
    pub fn request_focus(&mut self, component_id: String, focus: Focus) -> (r: Option<Action>)
        ensures
            final(self)@ == requested(old(self)@, component_id@, focus),
            request_announces(old(self)@, component_id@, focus, r),
    {
        match (focus, self.exclusive) {
            (Focus::Inactive, _) => {
                if self.current_focus == component_id {
                    self.release_focus(component_id)
                } else {
                    Some(Action::FocusChanged(component_id, Focus::Inactive))
                }
            },
            (Focus::Active, true) => None,
            (Focus::Active, false) => {
                if self.current_focus != component_id {
                    let ghost old_stack = self.previous_focus@;
                    let cur = self.current_focus.clone();
                    self.previous_focus.push((cur, self.exclusive));
                    proof {
                        assert(stack_view(self.previous_focus@) =~= stack_view(old_stack).push(
                            (old(self)@.current, false),
                        ));
                    }
                    self.current_focus = component_id;
                    Some(Action::FocusChanged(self.current_focus.clone(), Focus::Active))
                } else {
                    None
                }
            },
            (Focus::Permanent, true) | (Focus::PermanentInactive, _) => {
                Some(Action::FocusChanged(component_id, Focus::PermanentInactive))
            },
            (Focus::Permanent, false) => Some(Action::FocusChanged(component_id, Focus::Permanent)),
            (Focus::Exclusive, _) => {
                if self.current_focus != component_id {
                    let ghost old_stack = self.previous_focus@;
                    let cur = self.current_focus.clone();
                    self.previous_focus.push((cur, self.exclusive));
                    proof {
                        assert(stack_view(self.previous_focus@) =~= stack_view(old_stack).push(
                            (old(self)@.current, old(self)@.exclusive),
                        ));
                    }
                    self.current_focus = component_id;
                }
                self.exclusive = true;
                Some(Action::FocusChanged(self.current_focus.clone(), Focus::Exclusive))
            },
        }
    }

    /// `component_id` gives up the focus; the previous holder gets it back.
    pub fn release_focus(&mut self, component_id: String) -> (r: Option<Action>)
        ensures
            final(self)@ == released(old(self)@, component_id@),
            release_announces(old(self)@, component_id@, r),
    {
        let ghost old_stack = self.previous_focus@;
        proof {
            Self::lemma_stack_view_len(old_stack);
        }
        if self.current_focus != component_id {
            let n = self.previous_focus.len();
            if n > 0 && self.previous_focus[n - 1].0 == component_id {
                self.previous_focus.pop();
                proof {
                    assert(stack_view(self.previous_focus@) =~= stack_view(old_stack).drop_last());
                }
            }
            return Some(Action::FocusChanged(component_id, Focus::Inactive));
        }
        match self.previous_focus.pop() {
            Some((id, exclusive)) => {
                proof {
                    assert(stack_view(self.previous_focus@) =~= stack_view(old_stack).drop_last());
                }
                self.current_focus = id;
                self.exclusive = exclusive;
            },
            None => {},
        }
        if self.exclusive {
            Some(Action::FocusChanged(self.current_focus.clone(), Focus::Exclusive))
        } else {
            Some(Action::FocusChanged(self.current_focus.clone(), Focus::Active))
        }
    }

    /// Applies a focus request or release carried by `action`; any other
    /// action leaves the manager as it is.
    pub fn update(&mut self, action: Action) -> (r: Option<Action>)
        ensures
            action matches Action::RequestFocus(id, f) ==> final(self)@ == requested(
                old(self)@,
                id@,
                f,
            ) && request_announces(old(self)@, id@, f, r),
            action matches Action::ReleaseFocus(id) ==> final(self)@ == released(old(self)@, id@)
                && release_announces(old(self)@, id@, r),
            !(action is RequestFocus || action is ReleaseFocus) ==> final(self)@ == old(self)@ && r
                is None,
    {
        match action {
            Action::RequestFocus(component_id, focus) => self.request_focus(component_id, focus),
            Action::ReleaseFocus(component_id) => self.release_focus(component_id),
            _ => None,
        }
    }

    /// Whether `component_id` gets input events: every component does,
    /// unless the focus is exclusive, when only its holder does.
    pub fn should_receive_event(&self, component_id: String) -> (r: bool)
        ensures
            r == (!self@.exclusive || self@.current == component_id@),
    {
        if self.exclusive {
            self.current_focus == component_id
        } else {
            true
        }
    }
}

/// A component that takes the focus from another, non-exclusive holder and
/// then releases it hands the focus back: the manager returns to the state
/// it had before the request, and the release announces the earlier holder
/// as active again.
pub proof fn law_active_request_then_release_restores(s: FocusState, id: Seq<char>)
    requires
        !s.exclusive,
        s.current != id,
    ensures
        released(requested(s, id, Focus::Active), id) == s,
        forall|a: Option<Action>|
            release_announces(requested(s, id, Focus::Active), id, a) ==> announces(
                a,
                s.current,
                Focus::Active,
            ),
{
    assert(s.stack.push((s.current, false)).drop_last() =~= s.stack);
}

/// Taking the focus exclusively and releasing it restores the earlier holder
/// together with its own exclusivity.
pub proof fn law_exclusive_request_then_release_restores(s: FocusState, id: Seq<char>)
    requires
        s.current != id,
    ensures
        released(requested(s, id, Focus::Exclusive), id) == s,
{
    assert(s.stack.push((s.current, s.exclusive)).drop_last() =~= s.stack);
}

/// While a component holds the focus exclusively, it is the only one that
/// receives events.
pub proof fn law_exclusive_focus_isolates(s: FocusState, id: Seq<char>, other: Seq<char>)
    requires
        other != id,
    ensures
        requested(s, id, Focus::Exclusive).exclusive,
        requested(s, id, Focus::Exclusive).current == id,
        !(!requested(s, id, Focus::Exclusive).exclusive || requested(s, id, Focus::Exclusive).current
            == other),
{
}

/// A component that does not hold the focus cannot move it by releasing.
pub proof fn law_release_by_non_holder_keeps_holder(s: FocusState, id: Seq<char>)
    requires
        s.current != id,
    ensures
        released(s, id).current == s.current,
        released(s, id).exclusive == s.exclusive,
{
}

/// How a footer component with id `own_id` and focus `own` reacts when
/// `component_id` announces the focus `focus`.
pub fn footer_focus_update(own_id: &String, own: Focus, component_id: &String, focus: Focus) -> (r:
    Focus)
    ensures
        component_id@ == own_id@ ==> r == focus,
        component_id@ != own_id@ ==> r == (match (focus, own) {
            (Focus::Active, Focus::Active) => Focus::Inactive,
            (Focus::Active, Focus::PermanentInactive) => Focus::Permanent,
            (Focus::Active, Focus::Exclusive) => Focus::Inactive,
            (Focus::Exclusive, Focus::Active) => Focus::Inactive,
            (Focus::Exclusive, Focus::Permanent) => Focus::PermanentInactive,
            (Focus::Exclusive, Focus::Exclusive) => Focus::Inactive,
            _ => own,
        }),
{
    if *component_id == *own_id {
        focus
    } else {
        match (focus, own) {
            (Focus::Active, Focus::Active) => Focus::Inactive,
            (Focus::Active, Focus::PermanentInactive) => Focus::Permanent,
            (Focus::Active, Focus::Exclusive) => Focus::Inactive,
            (Focus::Exclusive, Focus::Active) => Focus::Inactive,
            (Focus::Exclusive, Focus::Permanent) => Focus::PermanentInactive,
            (Focus::Exclusive, Focus::Exclusive) => Focus::Inactive,
            _ => own,
        }
    }
}

} // verus!
