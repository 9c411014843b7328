//! The names of the twelve commands.

use vstd::prelude::*;

verus! {

/// The twelve system timing check commands, in the order in which the
/// dispatcher tries them.
#[derive(Clone, Copy, Debug, PartialEq, Eq)]
pub enum Command {
    Setup,
    Hold,
    Setuphold,
    Recovery,
    Removal,
    Recrem,
    Skew,
    Timeskew,
    Fullskew,
    Period,
    Width,
    Nocharge,
}

impl Command {
    /// The keyword that opens the command, byte for byte.
    pub open spec fn spec_keyword(self) -> Seq<u8> {
        match self {
            Command::Setup => seq!['$' as u8, 's' as u8, 'e' as u8, 't' as u8, 'u' as u8, 'p' as u8],
            Command::Hold => seq!['$' as u8, 'h' as u8, 'o' as u8, 'l' as u8, 'd' as u8],
            Command::Setuphold => seq![
                '$' as u8, 's' as u8, 'e' as u8, 't' as u8, 'u' as u8, 'p' as u8,
                'h' as u8, 'o' as u8, 'l' as u8, 'd' as u8,
            ],
            Command::Recovery => seq![
                '$' as u8, 'r' as u8, 'e' as u8, 'c' as u8, 'o' as u8, 'v' as u8,
                'e' as u8, 'r' as u8, 'y' as u8,
            ],
            Command::Removal => seq![
                '$' as u8, 'r' as u8, 'e' as u8, 'm' as u8, 'o' as u8, 'v' as u8,
                'a' as u8, 'l' as u8,
            ],
            Command::Recrem => seq![
                '$' as u8, 'r' as u8, 'e' as u8, 'c' as u8, 'r' as u8, 'e' as u8, 'm' as u8,
            ],
            Command::Skew => seq!['$' as u8, 's' as u8, 'k' as u8, 'e' as u8, 'w' as u8],
            Command::Timeskew => seq![
                '$' as u8, 't' as u8, 'i' as u8, 'm' as u8, 'e' as u8, 's' as u8,
                'k' as u8, 'e' as u8, 'w' as u8,
            ],
            Command::Fullskew => seq![
                '$' as u8, 'f' as u8, 'u' as u8, 'l' as u8, 'l' as u8, 's' as u8,
                'k' as u8, 'e' as u8, 'w' as u8,
            ],
            Command::Period => seq![
                '$' as u8, 'p' as u8, 'e' as u8, 'r' as u8, 'i' as u8, 'o' as u8, 'd' as u8,
            ],
            Command::Width => seq!['$' as u8, 'w' as u8, 'i' as u8, 'd' as u8, 't' as u8, 'h' as u8],
            Command::Nocharge => seq![
                '$' as u8, 'n' as u8, 'o' as u8, 'c' as u8, 'h' as u8, 'a' as u8,
                'r' as u8, 'g' as u8, 'e' as u8,
            ],
        }
    }

    /// The number of arguments that the command requires.
    pub open spec fn spec_positional_arguments(self) -> nat {
        match self {
            Command::Period => 2,
            Command::Setup | Command::Hold | Command::Recovery | Command::Removal | Command::Skew
            | Command::Timeskew | Command::Width => 3,
            Command::Setuphold | Command::Recrem | Command::Fullskew | Command::Nocharge => 4,
        }
    }

    /// The number of optional arguments that may follow the required ones.
    pub open spec fn spec_optional_arguments(self) -> nat {
        match self {
            Command::Setuphold | Command::Recrem => 5,
            Command::Timeskew | Command::Fullskew => 3,
            _ => 1,
        }
    }

    /// The number of arguments that the command requires.
    pub fn positional_arguments(self) -> (r: usize)
        ensures
            r == self.spec_positional_arguments(),
    {
        match self {
            Command::Period => 2,
            Command::Setup | Command::Hold | Command::Recovery | Command::Removal | Command::Skew
            | Command::Timeskew | Command::Width => 3,
            Command::Setuphold | Command::Recrem | Command::Fullskew | Command::Nocharge => 4,
        }
    }

    /// The number of optional arguments that may follow the required ones.
    pub fn optional_arguments(self) -> (r: usize)
        ensures
            r == self.spec_optional_arguments(),
    {
        match self {
            Command::Setuphold | Command::Recrem => 5,
            Command::Timeskew | Command::Fullskew => 3,
            _ => 1,
        }
    }

    /// The keyword that opens the command.
    pub fn keyword(self) -> (r: &'static [u8])
        ensures
            r@ == self.spec_keyword(),
    {
        match self {
            Command::Setup => {
                let a: &'static [u8; 6] = &['$' as u8, 's' as u8, 'e' as u8, 't' as u8, 'u' as u8, 'p' as u8];
                a.as_slice()
            },
            Command::Hold => {
                let a: &'static [u8; 5] = &['$' as u8, 'h' as u8, 'o' as u8, 'l' as u8, 'd' as u8];
                a.as_slice()
            },
            Command::Setuphold => {
                let a: &'static [u8; 10] = &[
                    '$' as u8, 's' as u8, 'e' as u8, 't' as u8, 'u' as u8, 'p' as u8,
                    'h' as u8, 'o' as u8, 'l' as u8, 'd' as u8,
                ];
                a.as_slice()
            },
            Command::Recovery => {
                let a: &'static [u8; 9] = &[
                    '$' as u8, 'r' as u8, 'e' as u8, 'c' as u8, 'o' as u8, 'v' as u8,
                    'e' as u8, 'r' as u8, 'y' as u8,
                ];
                a.as_slice()
            },
            Command::Removal => {
                let a: &'static [u8; 8] = &[
                    '$' as u8, 'r' as u8, 'e' as u8, 'm' as u8, 'o' as u8, 'v' as u8,
                    'a' as u8, 'l' as u8,
                ];
                a.as_slice()
            },
            Command::Recrem => {
                let a: &'static [u8; 7] = &[
                    '$' as u8, 'r' as u8, 'e' as u8, 'c' as u8, 'r' as u8, 'e' as u8, 'm' as u8,
                ];
                a.as_slice()
            },
            Command::Skew => {
                let a: &'static [u8; 5] = &['$' as u8, 's' as u8, 'k' as u8, 'e' as u8, 'w' as u8];
                a.as_slice()
            },
            Command::Timeskew => {
                let a: &'static [u8; 9] = &[
                    '$' as u8, 't' as u8, 'i' as u8, 'm' as u8, 'e' as u8, 's' as u8,
                    'k' as u8, 'e' as u8, 'w' as u8,
                ];
                a.as_slice()
            },
            Command::Fullskew => {
                let a: &'static [u8; 9] = &[
                    '$' as u8, 'f' as u8, 'u' as u8, 'l' as u8, 'l' as u8, 's' as u8,
                    'k' as u8, 'e' as u8, 'w' as u8,
                ];
                a.as_slice()
            },
            Command::Period => {
                let a: &'static [u8; 7] = &[
                    '$' as u8, 'p' as u8, 'e' as u8, 'r' as u8, 'i' as u8, 'o' as u8, 'd' as u8,
                ];
                a.as_slice()
            },
            Command::Width => {
                let a: &'static [u8; 6] = &['$' as u8, 'w' as u8, 'i' as u8, 'd' as u8, 't' as u8, 'h' as u8];
                a.as_slice()
            },
            Command::Nocharge => {
                let a: &'static [u8; 9] = &[
                    '$' as u8, 'n' as u8, 'o' as u8, 'c' as u8, 'h' as u8, 'a' as u8,
                    'r' as u8, 'g' as u8, 'e' as u8,
                ];
                a.as_slice()
            },
        }
    }
}

} // verus!
