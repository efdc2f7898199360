//! Player inputs and their pressed/released states, with left and right
//! suppressing each other so that the latest of the two takes precedence.

use vstd::prelude::*;

verus! {

/// A player input.
#[derive(Copy, Clone, Debug, PartialEq, Eq, Hash, Structural)]
pub enum Input {
    Left,
    Right,
    SoftDrop,
    HardDrop,
    RotateCw,
    RotateCcw,
    Rotate180,
    SwapHold,
    Reset,
    ShowHideUi,
}

/// Number of inputs.
pub const N_INPUTS: usize = 10;

impl Input {
    /// Position of the input in declaration order.
    pub open spec fn position(self) -> int {
        match self {
            Input::Left => 0,
            Input::Right => 1,
            Input::SoftDrop => 2,
            Input::HardDrop => 3,
            Input::RotateCw => 4,
            Input::RotateCcw => 5,
            Input::Rotate180 => 6,
            Input::SwapHold => 7,
            Input::Reset => 8,
            Input::ShowHideUi => 9,
        }
    }

    /// All inputs, in declaration order.
    pub open spec fn all() -> Seq<Input> {
        seq![
            Input::Left,
            Input::Right,
            Input::SoftDrop,
            Input::HardDrop,
            Input::RotateCw,
            Input::RotateCcw,
            Input::Rotate180,
            Input::SwapHold,
            Input::Reset,
            Input::ShowHideUi,
        ]
    }

    pub fn index(&self) -> (r: usize)
        ensures
            r == self.position(),
            r < N_INPUTS,
    {
        match self {
            Input::Left => 0,
            Input::Right => 1,
            Input::SoftDrop => 2,
            Input::HardDrop => 3,
            Input::RotateCw => 4,
            Input::RotateCcw => 5,
            Input::Rotate180 => 6,
            Input::SwapHold => 7,
            Input::Reset => 8,
            Input::ShowHideUi => 9,
        }
    }

    /// All inputs, in declaration order.
    pub fn iter() -> (r: Vec<Input>)
        ensures
            r@ == Input::all(),
    {
        vec![
            Input::Left,
            Input::Right,
            Input::SoftDrop,
            Input::HardDrop,
            Input::RotateCw,
            Input::RotateCcw,
            Input::Rotate180,
            Input::SwapHold,
            Input::Reset,
            Input::ShowHideUi,
        ]
    }
}

/// The state of an input.
#[derive(Copy, Clone, Debug, PartialEq, Eq, Structural)]
pub enum InputState {
    Released,
    Pressed,
    /// Held, but overridden by the other input of its pair (left and right).
    Suppressed,
}

impl InputState {
    pub fn is_pressed(&self) -> (r: bool)
        ensures
            r == (*self == InputState::Pressed),
    {
        *self == InputState::Pressed
    }

    /// Pressed or suppressed.
    pub fn is_held(&self) -> (r: bool)
        ensures
            r == (*self != InputState::Released),
    {
        *self != InputState::Released
    }
}

/// The other input of the left/right pair, if `input` is left or right.
pub open spec fn lr_partner(input: Input) -> Option<Input> {
    match input {
        Input::Left => Some(Input::Right),
        Input::Right => Some(Input::Left),
        _ => None,
    }
}

/// States after pressing `input`: a pressed partner (left or right) becomes
/// suppressed, and `input` becomes pressed.
pub open spec fn pressed_states(m: Map<Input, InputState>, input: Input) -> Map<Input, InputState> {
    let m1 = match lr_partner(input) {
        Some(other) => if m[other] == InputState::Pressed {
            m.insert(other, InputState::Suppressed)
        } else {
            m
        },
        None => m,
    };
    m1.insert(input, InputState::Pressed)
}

/// States after releasing `input`: a suppressed partner (left or right) is
/// pressed again, and `input` becomes released.
pub open spec fn released_states(m: Map<Input, InputState>, input: Input) -> Map<Input, InputState> {
    let m1 = match lr_partner(input) {
        Some(other) => if m[other] == InputState::Suppressed {
            pressed_states(m, other)
        } else {
            m
        },
        None => m,
    };
    m1.insert(input, InputState::Released)
}

/// Every input released.
pub open spec fn all_released() -> Map<Input, InputState> {
    Map::new(|input: Input| true, |input: Input| InputState::Released)
}

/// Left and right are never both pressed.
pub open spec fn lr_exclusive(m: Map<Input, InputState>) -> bool {
    !(m[Input::Left] == InputState::Pressed && m[Input::Right] == InputState::Pressed)
}

/// States of all the inputs.
pub struct InputStates {
    states: Vec<InputState>,
}

impl InputStates {
    /// A state is kept for every input.
    pub closed spec fn wf(&self) -> bool {
        self.states.len() == N_INPUTS
    }
}

impl View for InputStates {
    type V = Map<Input, InputState>;

    closed spec fn view(&self) -> Map<Input, InputState> {
        Map::new(|input: Input| true, |input: Input| self.states@[input.position()])
    }
}

impl InputStates {
    /// Every input released.
    pub fn new() -> (r: InputStates)
        ensures
            r.wf(),
            forall|input: Input| #[trigger] r@[input] == InputState::Released,
            r@.dom() == Set::<Input>::full(),
            r@ == all_released(),
    {
        let mut states: Vec<InputState> = Vec::new();
        let mut i: usize = 0;
        while i < N_INPUTS
            invariant
                i <= N_INPUTS,
                states@.len() == i,
                forall|j: int| 0 <= j < i ==> #[trigger] states@[j] == InputState::Released,
            decreases N_INPUTS - i,
        {
            states.push(InputState::Released);
            i += 1;
        }
        let r = InputStates { states };
        assert(r@.dom() =~= Set::<Input>::full());
        assert(r@ =~= all_released());
        r
    }

    pub fn get_state(&self, input: &Input) -> (r: InputState)
        requires
            self.wf(),
        ensures
            r == self@[*input],
    {
        self.states[input.index()]
    }

    /// Set the state of `input`, returning its previous state.
    fn set_state(&mut self, input: &Input, state: InputState) -> (r: InputState)
        requires
            old(self).wf(),
        ensures
            final(self).wf(),
            r == old(self)@[*input],
            final(self)@ == old(self)@.insert(*input, state),
    {
        let i = input.index();
        let previous = self.states[i];
        self.states.set(i, state);
        assert forall|k: Input| #[trigger] self@[k] == old(self)@.insert(*input, state)[k] by {
            if k != *input {
                assert(k.position() != input.position());
            }
        }
        assert(self@ =~= old(self)@.insert(*input, state));
        previous
    }

    /// Press `input`, suppressing the other of left and right if it is
    /// pressed; returns the previous state of `input`.
    pub fn set_pressed(&mut self, input: &Input) -> (r: InputState)
        requires
            old(self).wf(),
        ensures
            final(self).wf(),
            r == old(self)@[*input],
            final(self)@ == pressed_states(old(self)@, *input),
    {
        // if left or right, suppress the other if it is pressed
        if let Some(ref other) = Self::other_in_lr_pair(input) {
            if self.get_state(other) == InputState::Pressed {
                self.set_suppressed(other);
            }
        }
        self.set_state(input, InputState::Pressed)
    }

    /// Release `input`, pressing the other of left and right again if it was
    /// suppressed.
    pub fn set_released(&mut self, input: &Input)
        requires
            old(self).wf(),
        ensures
            final(self).wf(),
            final(self)@ == released_states(old(self)@, *input),
    {
        // if left or right, unsuppress the other
        if let Some(ref other) = Self::other_in_lr_pair(input) {
            if self.get_state(other) == InputState::Suppressed {
                self.set_pressed(other);
            }
        }
        self.set_state(input, InputState::Released);
    }

    /// Suppressed inputs stop repeating until set to pressed or released.
    fn set_suppressed(&mut self, input: &Input)
        requires
            old(self).wf(),
        ensures
            final(self).wf(),
            final(self)@ == old(self)@.insert(*input, InputState::Suppressed),
    {
        self.set_state(input, InputState::Suppressed);
    }

    /// The other input if the given input is left or right.
    fn other_in_lr_pair(input: &Input) -> (r: Option<Input>)
        ensures
            r == lr_partner(*input),
    {
        match input {
            Input::Left => Some(Input::Right),
            Input::Right => Some(Input::Left),
            _ => None,
        }
    }
}

/// Pressing and releasing keep left and right from being pressed together;
/// pressing left or right leaves the other unpressed; releasing one of them
/// makes a suppressed other pressed again.
pub proof fn lemma_left_right_exclusive(m: Map<Input, InputState>, input: Input)
    requires
        lr_exclusive(m),
    ensures
        lr_exclusive(pressed_states(m, input)),
        lr_exclusive(released_states(m, input)),
        match lr_partner(input) {
            Some(other) => {
                &&& pressed_states(m, input)[other] != InputState::Pressed
                &&& m[other] == InputState::Suppressed ==> released_states(m, input)[other] == InputState::Pressed
            },
            None => true,
        },
{
}

} // verus!
