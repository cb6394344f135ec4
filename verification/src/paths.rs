//! Where files live, relative to directories that the environment supplies.

use vstd::prelude::*;
use crate::text::texts;

verus! {

/// A directory that only the running process knows.
#[derive(Clone, Copy, Debug, PartialEq, Eq, Structural)]
pub enum Base {
    /// The value of `XDG_CONFIG_HOME`.
    XdgConfigHome,
    /// The value of `HOME`.
    Home,
    /// The value of `LINK_P2P_LOCALEDIR`.
    LocaleOverride,
    /// The directory that holds the running binary.
    ExeDir,
    /// The directory that the build wrote its output to.
    BuildDir,
    /// The working directory.
    CurrentDir,
}

/// A path: a base directory and the components under it.
#[derive(Debug)]
pub struct Location {
    pub base: Base,
    pub parts: Vec<String>,
}

impl Location {
    /// The components as texts.
    pub open spec fn names(&self) -> Seq<Seq<char>> {
        texts(self.parts@)
    }

    /// `base` itself.
    pub fn at(base: Base) -> (r: Location)
        ensures
            r.base == base,
            r.names() == Seq::<Seq<char>>::empty(),
    {
        let r = Location { base, parts: Vec::new() };
        proof {
            assert(r.names() =~= Seq::<Seq<char>>::empty());
        }
        r
    }

    /// The path with one more component.
    pub fn join(self, part: &str) -> (r: Location)
        ensures
            r.base == self.base,
            r.names() == self.names().push(part@),
    {
        let Location { base, parts } = self;
        let mut parts = parts;
        let ghost before = parts@;
        parts.push(part.to_owned());
        let r = Location { base, parts };
        proof {
            assert(r.names() =~= texts(before).push(part@));
        }
        r
    }
}

} // verus!
