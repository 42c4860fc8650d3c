//! The closed set of scanning strategies and the one-time choice among them.

use vstd::prelude::*;

verus! {

/// A scanning strategy. Every strategy meets the same contract; they differ
/// only in how many bytes they skip at once.
#[derive(Clone, Copy, Debug, PartialEq, Eq, Structural)]
pub enum Kernel {
    /// One byte at a time.
    Scalar,
    /// Windows of 16 bytes, as a fixed-width vector unit holds them.
    Wide16,
    /// Windows of 32 bytes, as a wide vector unit holds them.
    Wide32,
}

impl Kernel {
    /// The number of bytes this strategy examines per step.
    pub open spec fn spec_window(self) -> usize {
        match self {
            Kernel::Scalar => 1,
            Kernel::Wide16 => 16,
            Kernel::Wide32 => 32,
        }
    }

    /// The number of bytes this strategy examines per step.
    pub fn window(&self) -> (w: usize)
        ensures
            w == self.spec_window(),
            w >= 1,
    {
        match self {
            Kernel::Scalar => 1,
            Kernel::Wide16 => 16,
            Kernel::Wide32 => 32,
        }
    }
}

/// The processor family the library runs on, as far as strategy choice goes.
#[derive(Clone, Copy, Debug, PartialEq, Eq, Structural)]
pub enum Platform {
    /// A family whose wide vector extension must be probed for at run time.
    X86,
    /// A family whose fixed-width vector unit is always present.
    Aarch64,
    /// Any other family: only the byte-at-a-time strategy is used.
    Other,
}

/// The strategy chosen for `platform`, where `has_wide` is what the run-time
/// probe for the wide vector extension found.
pub open spec fn spec_select_kernel(platform: Platform, has_wide: bool) -> Kernel {
    match platform {
        Platform::X86 => if has_wide { Kernel::Wide32 } else { Kernel::Scalar },
        Platform::Aarch64 => Kernel::Wide16,
        Platform::Other => Kernel::Scalar,
    }
}

/// Chooses the strategy for `platform`, given the result of the probe for the
/// wide vector extension (which only matters where it is optional).
pub fn select_kernel(platform: Platform, has_wide: bool) -> (k: Kernel)
    ensures
        k == spec_select_kernel(platform, has_wide),
{
    match platform {
        Platform::X86 => if has_wide { Kernel::Wide32 } else { Kernel::Scalar },
        Platform::Aarch64 => Kernel::Wide16,
        Platform::Other => Kernel::Scalar,
    }
}

/// A write-once cell that remembers the chosen strategy: the first resolution
/// stores the choice, and every later one returns it without choosing again.
pub struct Dispatcher {
    resolved: Option<Kernel>,
}

impl Dispatcher {
    /// The strategy stored so far, if any.
    pub closed spec fn spec_resolved(&self) -> Option<Kernel> {
        self.resolved
    }

    /// A cell with no strategy chosen yet.
    pub fn new() -> (d: Dispatcher)
        ensures
            d.spec_resolved() == None::<Kernel>,
    {
        Dispatcher { resolved: None }
    }

    /// The strategy stored so far, if any.
    pub fn resolved(&self) -> (r: Option<Kernel>)
        ensures
            r == self.spec_resolved(),
    {
        self.resolved
    }

    /// Returns the stored strategy; on the first call, chooses it from
    /// `platform` and `has_wide` and stores it for good.
    pub fn resolve(&mut self, platform: Platform, has_wide: bool) -> (k: Kernel)
        ensures
            old(self).spec_resolved() is Some ==> k == old(self).spec_resolved()->Some_0,
            old(self).spec_resolved() is None ==> k == spec_select_kernel(platform, has_wide),
            final(self).spec_resolved() == Some(k),
    {
        match self.resolved {
            Some(k) => k,
            None => {
                let k = select_kernel(platform, has_wide);
                self.resolved = Some(k);
                k
            },
        }
    }
}

} // verus!
