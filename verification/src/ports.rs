//! Choosing the port to listen on. Probing a port means binding it, which
//! the caller does; what to do next is decided here.

use crate::options::{ConfigError, ConfigErrorView};
use crate::util::{PORT_SCAN_HIGHEST, PORT_SCAN_LOWEST};
use vstd::prelude::*;

verus! {

/// What the caller does next.
#[derive(Debug, Clone, Copy, PartialEq, Eq, Structural)]
pub enum PortStep {
    /// Try to bind this port, release it, and report whether it was free.
    Probe(u16),
    /// Listen on this port.
    Listen(u16),
    /// Every port of the scan range is taken.
    NoFreePort,
}

/// The first step: a configured port is used as it is, without a probe;
/// without one the scan starts at the lowest port of the range.
pub open spec fn first_step(explicit: Option<u16>) -> PortStep {
    match explicit {
        Some(port) => PortStep::Listen(port),
        None => PortStep::Probe(PORT_SCAN_LOWEST),
    }
}

/// The step after a probe: a free port is the one to listen on; after a
/// taken one the next port is probed, until the range is used up.
pub open spec fn next_step(probed: u16, free: bool) -> PortStep {
    if free {
        PortStep::Listen(probed)
    } else if probed < PORT_SCAN_HIGHEST {
        PortStep::Probe((probed + 1) as u16)
    } else {
        PortStep::NoFreePort
    }
}

/// Begins the choice of a port.
pub fn begin(explicit: Option<u16>) -> (step: PortStep)
    ensures
        step == first_step(explicit),
{
    match explicit {
        Some(port) => PortStep::Listen(port),
        None => PortStep::Probe(PORT_SCAN_LOWEST),
    }
}

/// Continues the choice of a port after `probed` was found free or taken.
pub fn after_probe(probed: u16, free: bool) -> (step: PortStep)
    ensures
        step == next_step(probed, free),
{
    if free {
        PortStep::Listen(probed)
    } else if probed < PORT_SCAN_HIGHEST {
        PortStep::Probe(probed + 1)
    } else {
        PortStep::NoFreePort
    }
}

/// What a step settles: nothing while a probe is due, else the port to
/// listen on or the error that no port is free.
pub fn settled(step: PortStep) -> (end: Option<Result<u16, ConfigError>>)
    ensures
        match end {
            None => step is Probe,
            Some(Ok(port)) => step == PortStep::Listen(port),
            Some(Err(e)) => step == PortStep::NoFreePort && e@ == ConfigErrorView::NoFreePort,
        },
{
    match step {
        PortStep::Probe(_) => None,
        PortStep::Listen(port) => Some(Ok(port)),
        PortStep::NoFreePort => Some(Err(ConfigError::NoFreePort)),
    }
}

/// How many probes can still follow a step.
pub open spec fn probes_left(step: PortStep) -> nat {
    match step {
        PortStep::Probe(port) => if port <= PORT_SCAN_HIGHEST {
            (PORT_SCAN_HIGHEST - port + 1) as nat
        } else {
            1
        },
        _ => 0,
    }
}

/// Where the steps end when exactly the ports in `free` can be bound: the
/// port to listen on, or `None` if there is none.
pub open spec fn outcome(step: PortStep, free: Set<u16>) -> Option<u16>
    decreases probes_left(step),
{
    match step {
        PortStep::Probe(port) => outcome(next_step(port, free.contains(port)), free),
        PortStep::Listen(port) => Some(port),
        PortStep::NoFreePort => None,
    }
}

/// The port that is chosen when exactly the ports in `free` can be bound.
pub open spec fn chosen(explicit: Option<u16>, free: Set<u16>) -> Option<u16> {
    outcome(first_step(explicit), free)
}

/// Whether `port` is free and no port of the range from `from` up to it is.
pub open spec fn first_free_from(from: u16, port: u16, free: Set<u16>) -> bool {
    &&& from <= port <= PORT_SCAN_HIGHEST
    &&& free.contains(port)
    &&& forall|q: u16| from <= q < port ==> !free.contains(q)
}

/// A scan that probes `from` next ends at the first free port from there
/// on, and without a port exactly if none up to the end of the range is free.
pub proof fn lemma_scan_from(from: u16, free: Set<u16>)
    requires
        from <= PORT_SCAN_HIGHEST,
    ensures
        match outcome(PortStep::Probe(from), free) {
            Some(port) => first_free_from(from, port, free),
            None => forall|q: u16| from <= q <= PORT_SCAN_HIGHEST ==> !free.contains(q),
        },
    decreases PORT_SCAN_HIGHEST - from,
{
    reveal_with_fuel(outcome, 3);
    if !free.contains(from) && from < PORT_SCAN_HIGHEST {
        lemma_scan_from((from + 1) as u16, free);
        assert(outcome(PortStep::Probe(from), free) == outcome(
            PortStep::Probe((from + 1) as u16),
            free,
        ));
    }
}

/// Without a configured port the first free port of the scan range is
/// chosen, so never a taken one; none is chosen exactly if the whole range
/// is taken.
pub proof fn lemma_scan_picks_first_free(free: Set<u16>)
    ensures
        match chosen(None, free) {
            Some(port) => first_free_from(PORT_SCAN_LOWEST, port, free),
            None => forall|q: u16|
                PORT_SCAN_LOWEST <= q <= PORT_SCAN_HIGHEST ==> !free.contains(q),
        },
{
    lemma_scan_from(PORT_SCAN_LOWEST, free);
}

/// A configured port is chosen whatever is free: nothing is probed and no
/// other port takes its place.
pub proof fn lemma_explicit_port_is_kept(port: u16, free: Set<u16>)
    ensures
        chosen(Some(port), free) == Some(port),
{
}

} // verus!
