use vstd::prelude::*;

verus! {

/// The state of one cell of the grid.
#[derive(Debug, Clone, Copy, PartialEq, Eq, Structural)]
pub enum CellState {
    Dead,
    Alive,
}

impl CellState {
    /// `true` for `Alive`, `false` for `Dead`.
    pub open spec fn is_alive_spec(self) -> bool {
        self == CellState::Alive
    }

    /// What the cell adds to a neighbour count: 1 if alive, else 0.
    pub open spec fn count_spec(self) -> nat {
        if self.is_alive_spec() {
            1
        } else {
            0
        }
    }

    /// The state that stands for a boolean.
    pub open spec fn from_bool_spec(b: bool) -> CellState {
        if b {
            CellState::Alive
        } else {
            CellState::Dead
        }
    }

    /// The state that stands for a small integer: 1 is alive, anything else dead.
    pub open spec fn from_u8_spec(v: u8) -> CellState {
        if v == 1 {
            CellState::Alive
        } else {
            CellState::Dead
        }
    }

    /// The glyph that draws the cell.
    pub open spec fn glyph_spec(self) -> char {
        if self.is_alive_spec() {
            '*'
        } else {
            ' '
        }
    }

    pub fn from_bool(b: bool) -> (r: CellState)
        ensures
            r == CellState::from_bool_spec(b),
    {
        if b {
            CellState::Alive
        } else {
            CellState::Dead
        }
    }

    pub fn to_bool(self) -> (r: bool)
        ensures
            r == self.is_alive_spec(),
    {
        match self {
            CellState::Alive => true,
            CellState::Dead => false,
        }
    }

    pub fn from_u8(v: u8) -> (r: CellState)
        ensures
            r == CellState::from_u8_spec(v),
    {
        match v {
            1 => CellState::Alive,
            _ => CellState::Dead,
        }
    }

    pub fn to_count(self) -> (r: u8)
        ensures
            r as nat == self.count_spec(),
    {
        match self {
            CellState::Dead => 0,
            CellState::Alive => 1,
        }
    }

    /// The glyph as a one-character string.
    pub fn glyph_str(self) -> (r: &'static str)
        ensures
            r@ == seq![self.glyph_spec()],
    {
        proof {
            reveal_strlit("*");
            reveal_strlit(" ");
        }
        match self {
            CellState::Alive => "*",
            CellState::Dead => " ",
        }
    }

    pub fn glyph(self) -> (r: char)
        ensures
            r == self.glyph_spec(),
    {
        match self {
            CellState::Alive => '*',
            CellState::Dead => ' ',
        }
    }
}

impl From<bool> for CellState {
    fn from(b: bool) -> (r: CellState) {
        CellState::from_bool(b)
    }
}

impl vstd::std_specs::convert::FromSpecImpl<bool> for CellState {
    open spec fn obeys_from_spec() -> bool {
        true
    }

    open spec fn from_spec(b: bool) -> CellState {
        CellState::from_bool_spec(b)
    }
}

impl From<u8> for CellState {
    fn from(v: u8) -> (r: CellState) {
        CellState::from_u8(v)
    }
}

impl vstd::std_specs::convert::FromSpecImpl<u8> for CellState {
    open spec fn obeys_from_spec() -> bool {
        true
    }

    open spec fn from_spec(v: u8) -> CellState {
        CellState::from_u8_spec(v)
    }
}

} // verus!
