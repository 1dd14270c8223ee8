use vstd::prelude::*;

verus! {

/// Severity of a record, from the most to the least severe.
#[derive(Clone, Copy, Debug, PartialEq, Eq, Structural)]
pub enum Level {
    Error,
    Warn,
    Info,
    Debug,
    Trace,
}

impl Level {
    /// Position in the severity order: 1 for `Error` up to 5 for `Trace`.
    pub open spec fn rank(self) -> nat {
        match self {
            Level::Error => 1,
            Level::Warn => 2,
            Level::Info => 3,
            Level::Debug => 4,
            Level::Trace => 5,
        }
    }

    /// The upper-case name that a record's tag shows.
    pub open spec fn name(self) -> Seq<char> {
        match self {
            Level::Error => seq!['E', 'R', 'R', 'O', 'R'],
            Level::Warn => seq!['W', 'A', 'R', 'N'],
            Level::Info => seq!['I', 'N', 'F', 'O'],
            Level::Debug => seq!['D', 'E', 'B', 'U', 'G'],
            Level::Trace => seq!['T', 'R', 'A', 'C', 'E'],
        }
    }

    /// Whether `self` is at most as verbose as `max`, i.e. a record of this
    /// level passes a filter set to `max`.
    pub fn at_most(self, max: Level) -> (r: bool)
        ensures
            r == (self.rank() <= max.rank()),
    {
        self.index() <= max.index()
    }

    fn index(self) -> (r: u8)
        ensures
            r as nat == self.rank(),
    {
        match self {
            Level::Error => 1,
            Level::Warn => 2,
            Level::Info => 3,
            Level::Debug => 4,
            Level::Trace => 5,
        }
    }

    /// The level's name, as the logging facade spells it.
    pub fn as_str(self) -> (r: &'static str)
        ensures
            r@ == self.name(),
    {
        facade_name(self)
    }
}

/// Relies on log::Level::as_str: each level's upper-case name
/// ("ERROR", "WARN", "INFO", "DEBUG", "TRACE").
#[verifier::external_body]
fn facade_name(level: Level) -> (r: &'static str)
    ensures
        r@ == level.name(),
{
    let l = match level {
        Level::Error => log::Level::Error,
        Level::Warn => log::Level::Warn,
        Level::Info => log::Level::Info,
        Level::Debug => log::Level::Debug,
        Level::Trace => log::Level::Trace,
    };
    l.as_str()
}

} // verus!
