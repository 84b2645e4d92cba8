use vstd::prelude::*;

verus! {

/// Identity of a device execution queue: the address of the queue's handle.
/// Clones of one queue share their handle, so they have one identity; two
/// queues of one device have two.
#[derive(Clone, Copy, Debug, PartialEq, Eq, Structural)]
pub struct QueueId {
    pub raw: usize,
}

/// Memory location: the host, or the execution queue of a device.
#[derive(Clone, Copy, Debug, PartialEq, Eq, Structural)]
pub enum Location {
    Host,
    Device(QueueId),
}

impl Location {
    /// Whether two queue identities name one execution queue.
    pub fn eq_queue(aq: &QueueId, bq: &QueueId) -> (r: bool)
        ensures
            r == (aq.raw == bq.raw),
    {
        aq.raw == bq.raw
    }
}

/// Two device locations are one location exactly when they were made from
/// one queue, and the host is never a device location.
pub proof fn location_equality(a: QueueId, b: QueueId)
    ensures
        (Location::Device(a) == Location::Device(b)) <==> (a.raw == b.raw),
        Location::Host != Location::Device(a),
        Location::Host == Location::Host,
{
}

/// How the content of one buffer reaches another.
#[derive(Clone, Copy, Debug, PartialEq, Eq, Structural)]
pub enum CopyRoute {
    /// Both buffers are on the host: a direct memory copy.
    Memory,
    /// Both buffers belong to one device queue: a copy enqueued on it, with
    /// no trip through the host.
    InQueue,
    /// From the host to a device: a write of the host content, converted to
    /// the device representation.
    Upload,
    /// From a device to the host: a read converted to the host
    /// representation.
    Download,
    /// Between two different device queues: a read into a host-side staging
    /// buffer, then a write from it.
    Staged,
}

/// The route of a copy from a buffer at `src` to a buffer at `dst`.
pub open spec fn route_of(dst: Location, src: Location) -> CopyRoute {
    match (dst, src) {
        (Location::Host, Location::Host) => CopyRoute::Memory,
        (Location::Host, Location::Device(_)) => CopyRoute::Download,
        (Location::Device(_), Location::Host) => CopyRoute::Upload,
        (Location::Device(d), Location::Device(s)) => if d.raw == s.raw {
            CopyRoute::InQueue
        } else {
            CopyRoute::Staged
        },
    }
}

/// Chooses how to copy from a buffer at `src` to a buffer at `dst`.
pub fn copy_route(dst: &Location, src: &Location) -> (r: CopyRoute)
    ensures
        r == route_of(*dst, *src),
{
    match (dst, src) {
        (Location::Host, Location::Host) => CopyRoute::Memory,
        (Location::Host, Location::Device(_)) => CopyRoute::Download,
        (Location::Device(_), Location::Host) => CopyRoute::Upload,
        (Location::Device(d), Location::Device(s)) => {
            if Location::eq_queue(d, s) {
                CopyRoute::InQueue
            } else {
                CopyRoute::Staged
            }
        },
    }
}

} // verus!
