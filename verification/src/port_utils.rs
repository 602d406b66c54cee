//! Finding free TCP ports in a bounded range.
//!
//! The scan is decided here; whether a port is free is asked of a probe that
//! the caller supplies (it binds a local socket and lets it go at once). The
//! port is therefore not reserved: between the probe and its real use another
//! process may take it.

use vstd::prelude::*;

verus! {

/// How many ports one scan tries at most.
pub const PORT_SCAN_WIDTH: u32 = 100;

/// One past the last port that a scan from `start` tries.
pub open spec fn scan_limit(start: u16) -> int {
    if start + PORT_SCAN_WIDTH <= 65536 {
        start + PORT_SCAN_WIDTH
    } else {
        65536
    }
}

/// `found` records a scan of the ports in `[start, upto)`: it lists, in
/// rising order, ports of that range that the probe reported free, and every
/// other port of the range was reported busy.
pub open spec fn scan_record<F: Fn(u16) -> bool>(
    probe: F,
    start: u16,
    found: Seq<u16>,
    upto: int,
) -> bool {
    &&& forall|i: int|
        0 <= i < found.len() ==> start <= #[trigger] found[i] < upto && call_ensures(
            probe,
            (found[i],),
            true,
        )
    &&& forall|i: int, j: int| 0 <= i < j < found.len() ==> found[i] < found[j]
    &&& forall|q: u16|
        start <= q < upto && !found.contains(q) ==> #[trigger] call_ensures(probe, (q,), false)
}

/// One past the last port that a scan probed which stopped on finding the
/// last of `found`; the start itself where it probed nothing.
pub open spec fn scanned_upto(start: u16, found: Seq<u16>) -> int {
    if found.len() == 0 {
        start as int
    } else {
        found.last() + 1
    }
}

/// What a scan for one port answers: a port of the range that was reported
/// free, with every port of the range before it reported busy, or nothing
/// when every port of the range was reported busy.
pub open spec fn scan_answer<F: Fn(u16) -> bool>(probe: F, start: u16, r: Option<u16>) -> bool {
    match r {
        Some(port) => {
            &&& start <= port < scan_limit(start)
            &&& call_ensures(probe, (port,), true)
            &&& forall|q: u16| start <= q < port ==> #[trigger] call_ensures(probe, (q,), false)
        },
        None => forall|q: u16|
            start <= q < scan_limit(start) ==> #[trigger] call_ensures(probe, (q,), false),
    }
}

/// The first port at or after `starting_port`, among at most 100, that the
/// probe reports free; `None` when it reports all of them busy.
pub fn find_available_port<F: Fn(u16) -> bool>(starting_port: u16, probe: F) -> (r: Option<u16>)
    requires
        forall|p: u16| starting_port <= p < scan_limit(starting_port) ==> call_requires(probe, (p,)),
    ensures
        scan_answer(probe, starting_port, r),
{
    let start: u32 = starting_port as u32;
    let limit: u32 = if start + PORT_SCAN_WIDTH <= 65536 {
        start + PORT_SCAN_WIDTH
    } else {
        65536
    };
    let mut current: u32 = start;
    while current < limit
        invariant
            start == starting_port,
            limit == scan_limit(starting_port),
            start <= current <= limit <= 65536,
            forall|p: u16|
                starting_port <= p < scan_limit(starting_port) ==> call_requires(probe, (p,)),
            forall|q: u16| starting_port <= q < current ==> #[trigger] call_ensures(
                probe,
                (q,),
                false,
            ),
        decreases limit - current,
    {
        let port: u16 = current as u16;
        if probe(port) {
            return Some(port);
        }
        current += 1;
    }
    None
}

/// Where the probe tells of each port whether it is among the free ones, the
/// scan answers with the first free port at or after its start, and with
/// nothing exactly when all its candidates are occupied.
pub proof fn lemma_scan_finds_first_free<F: Fn(u16) -> bool>(
    probe: F,
    free: Set<u16>,
    start: u16,
    r: Option<u16>,
)
    requires
        forall|p: u16, b: bool| call_ensures(probe, (p,), b) ==> b == free.contains(p),
        scan_answer(probe, start, r),
    ensures
        match r {
            Some(port) => {
                &&& start <= port < scan_limit(start)
                &&& free.contains(port)
                &&& forall|q: u16| start <= q < port ==> !free.contains(q)
            },
            None => forall|q: u16| start <= q < scan_limit(start) ==> !free.contains(q),
        },
{
    match r {
        Some(port) => {
            assert forall|q: u16| start <= q < port implies !free.contains(q) by {
                assert(call_ensures(probe, (q,), false));
            }
        },
        None => {
            assert forall|q: u16| start <= q < scan_limit(start) implies !free.contains(q) by {
                assert(call_ensures(probe, (q,), false));
            }
        },
    }
}

/// The first `count` free ports found by one scan from `starting_port` over
/// at most 100 ports, in rising order; `None` when the scan finds fewer.
///
/// The scan stops as soon as it has `count` ports, so ports after the last
/// one returned are not probed.
pub fn find_available_ports<F: Fn(u16) -> bool>(count: usize, starting_port: u16, probe: F) -> (r:
    Option<Vec<u16>>)
    requires
        forall|p: u16| starting_port <= p < scan_limit(starting_port) ==> call_requires(probe, (p,)),
    ensures
        match r {
            Some(ports) => {
                &&& ports.len() == count
                &&& scanned_upto(starting_port, ports@) <= scan_limit(starting_port)
                &&& scan_record(probe, starting_port, ports@, scanned_upto(starting_port, ports@))
            },
            None => exists|found: Seq<u16>|
                found.len() < count && #[trigger] scan_record(
                    probe,
                    starting_port,
                    found,
                    scan_limit(starting_port),
                ),
        },
{
    let start: u32 = starting_port as u32;
    let limit: u32 = if start + PORT_SCAN_WIDTH <= 65536 {
        start + PORT_SCAN_WIDTH
    } else {
        65536
    };
    let mut ports: Vec<u16> = Vec::new();
    let mut current: u32 = start;
    while ports.len() < count && current < limit
        invariant
            start == starting_port,
            limit == scan_limit(starting_port),
            start <= current <= limit <= 65536,
            ports.len() <= count,
            forall|p: u16|
                starting_port <= p < scan_limit(starting_port) ==> call_requires(probe, (p,)),
            scan_record(probe, starting_port, ports@, current as int),
        decreases limit - current,
    {
        let port: u16 = current as u16;
        let ghost before = ports@;
        if probe(port) {
            ports.push(port);
            proof {
                assert forall|q: u16|
                    starting_port <= q < current + 1 && !ports@.contains(q) implies #[trigger] call_ensures(
                    probe,
                    (q,),
                    false,
                ) by {
                    if before.contains(q) {
                        let i = choose|i: int| 0 <= i < before.len() && before[i] == q;
                        assert(ports@[i] == q);
                    }
                    assert(ports@[before.len() as int] == port);
                }
            }
        } else {
            proof {
                assert forall|q: u16|
                    starting_port <= q < current + 1 && !ports@.contains(q) implies #[trigger] call_ensures(
                    probe,
                    (q,),
                    false,
                ) by {}
            }
        }
        current += 1;
    }
    if ports.len() == count {
        proof {
            let found = ports@;
            let upto: int = scanned_upto(starting_port, found);
            if count > 0 {
                assert(starting_port <= found[found.len() - 1] < current);
                assert forall|i: int| 0 <= i < found.len() implies #[trigger] found[i] < upto by {
                    if i < found.len() - 1 {
                        assert(found[i] < found[found.len() - 1]);
                    }
                }
            }
            assert(scan_record(probe, starting_port, found, upto));
            assert(starting_port <= upto <= scan_limit(starting_port));
        }
        Some(ports)
    } else {
        proof {
            assert(scan_record(probe, starting_port, ports@, scan_limit(starting_port)));
        }
        None
    }
}

} // verus!
