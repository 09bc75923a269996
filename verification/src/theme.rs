//! Colors in the packed byte order of the presentation surface, and the
//! fixed five-color theme the views draw with.

use vstd::prelude::*;

verus! {

/// One color, stored as the four bytes `[blue, green, red, alpha]`, the
/// packed channel order the presentation surface blits directly.
#[derive(Clone, Copy, PartialEq, Eq, Structural, Debug)]
pub struct Bgra {
    pub blue: u8,
    pub green: u8,
    pub red: u8,
    pub alpha: u8,
}

impl Bgra {
    /// Builds a color from its red, green, blue and alpha channels.
    pub fn from_rgba(red: u8, green: u8, blue: u8, alpha: u8) -> (c: Bgra)
        ensures
            c.red == red,
            c.green == green,
            c.blue == blue,
            c.alpha == alpha,
    {
        Bgra { blue, green, red, alpha }
    }

    pub open spec fn spec_r(self) -> u8 {
        self.red
    }

    pub open spec fn spec_g(self) -> u8 {
        self.green
    }

    pub open spec fn spec_b(self) -> u8 {
        self.blue
    }

    pub open spec fn spec_a(self) -> u8 {
        self.alpha
    }

    #[verifier::when_used_as_spec(spec_r)]
    pub fn r(self) -> (v: u8)
        ensures
            v == self.spec_r(),
    {
        self.red
    }

    #[verifier::when_used_as_spec(spec_g)]
    pub fn g(self) -> (v: u8)
        ensures
            v == self.spec_g(),
    {
        self.green
    }

    #[verifier::when_used_as_spec(spec_b)]
    pub fn b(self) -> (v: u8)
        ensures
            v == self.spec_b(),
    {
        self.blue
    }

    #[verifier::when_used_as_spec(spec_a)]
    pub fn a(self) -> (v: u8)
        ensures
            v == self.spec_a(),
    {
        self.alpha
    }
}

/// The five colors every view draws with; immutable once constructed.
#[derive(Clone, Copy, PartialEq, Eq, Structural, Debug)]
pub struct Theme {
    pub background: Bgra,
    pub frame: Bgra,
    pub primary: Bgra,
    pub secondary: Bgra,
    pub highlight: Bgra,
}

impl Theme {
    /// The built-in theme.
    pub fn default() -> (t: Theme)
        ensures
            t.background == (Bgra { blue: 37, green: 24, red: 24, alpha: 242 }),
            t.frame == (Bgra { blue: 46, green: 30, red: 30, alpha: 42 }),
            t.primary == (Bgra { blue: 172, green: 160, red: 235, alpha: 242 }),
            t.secondary == (Bgra { blue: 231, green: 194, red: 245, alpha: 242 }),
            t.highlight == (Bgra { blue: 168, green: 139, red: 243, alpha: 242 }),
    {
        Theme {
            background: Bgra::from_rgba(24, 24, 37, 242),
            frame: Bgra::from_rgba(30, 30, 46, 42),
            primary: Bgra::from_rgba(235, 160, 172, 242),
            secondary: Bgra::from_rgba(245, 194, 231, 242),
            highlight: Bgra::from_rgba(243, 139, 168, 242),
        }
    }
}

} // verus!
