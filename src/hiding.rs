//! Hiding: a toggle on the rising edge of the hide control, allowed at a desk.
use vstd::prelude::*;

verus! {

/// Whether the player hides, may hide where they stand, and holds the hide
/// control down.
#[derive(Clone, Copy, Debug, PartialEq, Eq, Structural)]
pub struct PlayerHidden {
    pub hidden: bool,
    pub can_hide: bool,
    pub pressed: bool,
}

impl PlayerHidden {
    /// Visible, away from any desk, control released.
    pub fn new() -> (r: Self)
        ensures
            !r.hidden && !r.can_hide && !r.pressed,
    {
        PlayerHidden { hidden: false, can_hide: false, pressed: false }
    }
}

/// Prompt shown about hiding.
#[derive(Clone, Copy, Debug, PartialEq, Eq, Structural)]
pub enum HidePrompt {
    /// The player hides: press again to come out.
    StopHiding,
    /// The player stands at a desk and may hide.
    StartHiding,
    /// Nothing to say.
    Nothing,
}

/// The message of each prompt.
pub open spec fn prompt_text(p: HidePrompt) -> Seq<char> {
    match p {
        HidePrompt::StopHiding => "Rappuyez sur 'P' pour ne plus vous cacher"@,
        HidePrompt::StartHiding => "Appuyez sur 'P' pour vous cacher"@,
        HidePrompt::Nothing => ""@,
    }
}

impl HidePrompt {
    /// The message shown for this prompt.
    pub fn text(&self) -> (r: String)
        ensures
            r@ == prompt_text(*self),
    {
        match self {
            HidePrompt::StopHiding => "Rappuyez sur 'P' pour ne plus vous cacher".to_owned(),
            HidePrompt::StartHiding => "Appuyez sur 'P' pour vous cacher".to_owned(),
            HidePrompt::Nothing => "".to_owned(),
        }
    }
}

/// The prompt for state `s`.
pub open spec fn prompt_for(s: PlayerHidden) -> HidePrompt {
    if s.hidden {
        HidePrompt::StopHiding
    } else if s.can_hide {
        HidePrompt::StartHiding
    } else {
        HidePrompt::Nothing
    }
}

/// The state after one tick in which the hide control reads `down` (`None`:
/// the control is not bound). A press toggles `hidden` once, and only where
/// the player may hide or already hides; a release re-arms the control.
pub open spec fn hide_step(s: PlayerHidden, down: Option<bool>) -> PlayerHidden {
    match down {
        Some(true) => if s.pressed {
            s
        } else {
            PlayerHidden {
                hidden: if s.can_hide || s.hidden {
                    !s.hidden
                } else {
                    s.hidden
                },
                pressed: true,
                ..s
            }
        },
        Some(false) => PlayerHidden { pressed: false, ..s },
        None => s,
    }
}

/// What the hiding system shows: the prompt, and whether the player's light
/// is on (it goes out while hiding).
#[derive(Clone, Copy, Debug, PartialEq, Eq, Structural)]
pub struct HideView {
    pub prompt: HidePrompt,
    pub light_on: bool,
}

/// Runs the hiding state machine once per tick.
#[derive(Debug)]
pub struct HidingSystem;

impl HidingSystem {
    /// Shows the prompt for the state as it stands, applies the hide control
    /// `down`, then lights the player unless they now hide.
    pub fn run(&mut self, state: &mut PlayerHidden, down: Option<bool>) -> (r: HideView)
        ensures
            *final(state) == hide_step(*old(state), down),
            r.prompt == prompt_for(*old(state)),
            r.light_on == !final(state).hidden,
    {
        let prompt = if state.hidden {
            HidePrompt::StopHiding
        } else if state.can_hide {
            HidePrompt::StartHiding
        } else {
            HidePrompt::Nothing
        };
        if let Some(pressed) = down {
            if pressed && !state.pressed {
                state.pressed = true;
                if state.can_hide || state.hidden {
                    state.hidden = !state.hidden;
                }
            }
            if !pressed && state.pressed {
                state.pressed = false;
            }
        }
        HideView { prompt, light_on: !state.hidden }
    }
}

/// A press toggles hiding exactly once, however many ticks it is held: the
/// first tick of the press toggles, and a second tick with the control still
/// down changes nothing.
pub proof fn lemma_one_toggle_per_press(s: PlayerHidden)
    requires
        !s.pressed,
        s.can_hide || s.hidden,
    ensures
        hide_step(s, Some(true)).hidden == !s.hidden,
        hide_step(hide_step(s, Some(true)), Some(true)) == hide_step(s, Some(true)),
        hide_step(hide_step(s, Some(true)), Some(true)).hidden == !s.hidden,
{
}

/// While the control is held, further ticks leave the state as it is.
pub proof fn lemma_held_control_is_idle(s: PlayerHidden)
    requires
        s.pressed,
    ensures
        hide_step(s, Some(true)) == s,
{
}

} // verus!
