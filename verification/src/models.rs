//! The records that travel through the pipeline.

use vstd::prelude::*;

verus! {

/// Transport tag carried by a packet descriptor.
#[derive(Clone, Copy, Debug, PartialEq, Eq, Structural)]
pub enum Protocol {
    Tcp,
    Udp,
    Icmp,
}

impl Protocol {
    /// The tag as it is conventionally written.
    pub open spec fn spec_name(self) -> Seq<char> {
        match self {
            Protocol::Tcp => "TCP"@,
            Protocol::Udp => "UDP"@,
            Protocol::Icmp => "ICMP"@,
        }
    }

    /// The tag as it is conventionally written.
    pub fn name(&self) -> (text: &'static str)
        ensures
            text@ == self.spec_name(),
    {
        match self {
            Protocol::Tcp => "TCP",
            Protocol::Udp => "UDP",
            Protocol::Icmp => "ICMP",
        }
    }

    /// The tag that is written this way, if there is one.
    pub open spec fn spec_from_name(text: Seq<char>) -> Option<Protocol> {
        if text == "TCP"@ {
            Some(Protocol::Tcp)
        } else if text == "UDP"@ {
            Some(Protocol::Udp)
        } else if text == "ICMP"@ {
            Some(Protocol::Icmp)
        } else {
            None
        }
    }

    /// The tag that is written this way, if there is one.
    pub fn from_name(text: &str) -> (tag: Option<Protocol>)
        ensures
            tag == Protocol::spec_from_name(text@),
    {
        let given = text.to_owned();
        if given == "TCP".to_owned() {
            Some(Protocol::Tcp)
        } else if given == "UDP".to_owned() {
            Some(Protocol::Udp)
        } else if given == "ICMP".to_owned() {
            Some(Protocol::Icmp)
        } else {
            None
        }
    }

    /// Reading a tag back from its name gives the tag.
    pub proof fn lemma_name_round_trip(self)
        ensures
            Protocol::spec_from_name(self.spec_name()) == Some(self),
    {
        reveal_strlit("TCP");
        reveal_strlit("UDP");
        reveal_strlit("ICMP");
        assert("TCP"@[0] != "UDP"@[0] && "TCP"@.len() != "ICMP"@.len());
    }
}

/// A point of the scene, in whole world units.
#[derive(Clone, Copy, Debug, PartialEq, Eq, Structural)]
pub struct Position {
    pub x: i32,
    pub y: i32,
    pub z: i32,
}

/// One simulated network packet.
///
/// `timestamp` counts nanoseconds.
#[derive(Clone, Debug, PartialEq, Eq)]
pub struct PacketData {
    pub timestamp: u128,
    pub src_addr: String,
    pub dst_addr: String,
    pub size: usize,
    pub protocol: Protocol,
    pub anomalous: bool,
}

/// What a packet descriptor says, with its addresses as character sequences.
pub struct PacketView {
    pub timestamp: nat,
    pub src_addr: Seq<char>,
    pub dst_addr: Seq<char>,
    pub size: nat,
    pub protocol: Protocol,
    pub anomalous: bool,
}

impl View for PacketData {
    type V = PacketView;

    open spec fn view(&self) -> PacketView {
        PacketView {
            timestamp: self.timestamp as nat,
            src_addr: self.src_addr@,
            dst_addr: self.dst_addr@,
            size: self.size as nat,
            protocol: self.protocol,
            anomalous: self.anomalous,
        }
    }
}

/// A network device: its address and where it stands in the scene.
#[derive(Clone, Debug, PartialEq, Eq)]
pub struct Device {
    pub address: String,
    pub position: Position,
}

/// Packet descriptors waiting to be shown, oldest first.
#[derive(Debug)]
pub struct PacketQueue {
    pub packets: Vec<PacketData>,
}

impl View for PacketQueue {
    type V = Seq<PacketData>;

    open spec fn view(&self) -> Seq<PacketData> {
        self.packets@
    }
}

/// The queue after one more descriptor has been handed in.
pub open spec fn after_enqueue(queue: Seq<PacketData>, packet: PacketData) -> Seq<PacketData> {
    queue.push(packet)
}

/// The descriptor that the next removal yields.
pub open spec fn latest(queue: Seq<PacketData>) -> Option<PacketData> {
    if queue.len() == 0 {
        None
    } else {
        Some(queue.last())
    }
}

/// The queue after one removal.
pub open spec fn after_dequeue(queue: Seq<PacketData>) -> Seq<PacketData> {
    if queue.len() == 0 {
        queue
    } else {
        queue.drop_last()
    }
}

impl PacketQueue {
    /// A queue with nothing in it.
    pub fn new() -> (queue: Self)
        ensures
            queue@ == Seq::<PacketData>::empty(),
    {
        PacketQueue { packets: Vec::new() }
    }

    /// How many descriptors are waiting.
    pub fn len(&self) -> (n: usize)
        ensures
            n == self@.len(),
    {
        self.packets.len()
    }

    /// Whether no descriptor is waiting.
    pub fn is_empty(&self) -> (empty: bool)
        ensures
            empty == (self@.len() == 0),
    {
        self.packets.len() == 0
    }

    /// Hands a descriptor in. It becomes the next one to be removed.
    pub fn enqueue(&mut self, packet: PacketData)
        ensures
            final(self)@ == after_enqueue(old(self)@, packet),
    {
        self.packets.push(packet);
    }

    /// Removes the descriptor that was handed in last, if there is one.
    pub fn dequeue_latest(&mut self) -> (packet: Option<PacketData>)
        ensures
            packet == latest(old(self)@),
            final(self)@ == after_dequeue(old(self)@),
    {
        self.packets.pop()
    }
}

impl Default for PacketQueue {
    fn default() -> (queue: Self)
        ensures
            queue@ == Seq::<PacketData>::empty(),
    {
        PacketQueue::new()
    }
}

/// What is handed in last comes out first, and the queue underneath is as it
/// was before.
pub proof fn lemma_dequeue_undoes_enqueue(queue: Seq<PacketData>, packet: PacketData)
    ensures
        latest(after_enqueue(queue, packet)) == Some(packet),
        after_dequeue(after_enqueue(queue, packet)) == queue,
{
    assert(queue.push(packet).drop_last() =~= queue);
}

/// The queue after `count` removals in a row.
pub open spec fn after_dequeues(queue: Seq<PacketData>, count: nat) -> Seq<PacketData>
    decreases count,
{
    if count == 0 {
        queue
    } else {
        after_dequeues(after_dequeue(queue), (count - 1) as nat)
    }
}

/// Removals return the descriptors in the reverse of the order in which they
/// were handed in: after `count` removals the queue holds its first
/// `len - count` descriptors, and the next removal yields the last of these.
pub proof fn lemma_dequeues_lifo(queue: Seq<PacketData>, count: nat)
    requires
        count < queue.len(),
    ensures
        after_dequeues(queue, count) == queue.take(queue.len() - count),
        latest(after_dequeues(queue, count)) == Some(queue[queue.len() - count - 1]),
    decreases count,
{
    if count == 0 {
        assert(queue.take(queue.len() as int) =~= queue);
    } else {
        lemma_dequeues_lifo(queue.drop_last(), (count - 1) as nat);
        assert(queue.drop_last().take(queue.len() - count) =~= queue.take(queue.len() - count));
    }
}

/// Removing from an empty queue yields nothing and changes nothing.
pub proof fn lemma_dequeue_empty(queue: Seq<PacketData>)
    requires
        queue.len() == 0,
    ensures
        latest(queue) == None::<PacketData>,
        after_dequeue(queue) == queue,
{
}

} // verus!
