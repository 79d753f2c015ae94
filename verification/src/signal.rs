use vstd::prelude::*;

verus! {

/// Cooperative cancellation flag, handed explicitly to every component
/// that has to poll it.
#[derive(Clone, Copy, Debug)]
pub struct Interrupt {
    pub raised: bool,
}

impl Interrupt {
    /// A flag that has not been raised.
    pub fn new() -> (flag: Interrupt)
        ensures
            !flag.raised,
    {
        Interrupt { raised: false }
    }
}

/// Whether cancellation has been requested.
pub fn is_interrupted(flag: &Interrupt) -> (raised: bool)
    ensures
        raised == flag.raised,
{
    flag.raised
}

/// Lowers the flag.
pub fn clear(flag: &mut Interrupt)
    ensures
        !final(flag).raised,
{
    flag.raised = false;
}

/// Raises the flag.
pub fn set(flag: &mut Interrupt)
    ensures
        final(flag).raised,
{
    flag.raised = true;
}

} // verus!
