//! The device registry, the spawn half of the packet lifecycle, and the
//! discrete part of the camera controller.
//!
//! The scene host moves what was spawned and turns the plans made here into
//! transforms; nothing in this module depends on how it does so.

use vstd::prelude::*;
use vstd::hash_map::StringHashMap;
use crate::models::{after_dequeue, latest, Device, PacketData, PacketQueue, Position};

verus! {

/// Where each known address stands in the scene.
pub struct DeviceMap {
    pub devices: StringHashMap<Position>,
}

impl View for DeviceMap {
    type V = Map<Seq<char>, Position>;

    open spec fn view(&self) -> Map<Seq<char>, Position> {
        self.devices@
    }
}

/// The registry that results from registering `devices` from first to last:
/// where an address occurs more than once, the later device replaces the
/// earlier one.
pub open spec fn registry_of(devices: Seq<Device>) -> Map<Seq<char>, Position>
    decreases devices.len(),
{
    if devices.len() == 0 {
        Map::empty()
    } else {
        registry_of(devices.drop_last()).insert(
            devices.last().address@,
            devices.last().position,
        )
    }
}

/// No two devices of the list share an address.
pub open spec fn distinct_addresses(devices: Seq<Device>) -> bool {
    forall|i: int, j: int|
        0 <= i < j < devices.len() ==> devices[i].address@ != devices[j].address@
}

/// The registry knows exactly the addresses of the devices it was built from.
pub proof fn lemma_registry_domain(devices: Seq<Device>, address: Seq<char>)
    ensures
        registry_of(devices).contains_key(address) <==> exists|i: int|
            0 <= i < devices.len() && devices[i].address@ == address,
    decreases devices.len(),
{
    if devices.len() > 0 {
        let front = devices.drop_last();
        lemma_registry_domain(front, address);
        if registry_of(devices).contains_key(address) {
            if devices.last().address@ == address {
                assert(devices[devices.len() - 1].address@ == address);
            } else {
                let i = choose|i: int| 0 <= i < front.len() && front[i].address@ == address;
                assert(devices[i].address@ == address);
            }
        }
        if exists|i: int| 0 <= i < devices.len() && devices[i].address@ == address {
            let i = choose|i: int| 0 <= i < devices.len() && devices[i].address@ == address;
            if i < devices.len() - 1 {
                assert(front[i].address@ == address);
            }
        }
    }
}

/// Among devices with distinct addresses, each address resolves to the
/// position of its own device.
pub proof fn lemma_registry_lookup(devices: Seq<Device>, i: int)
    requires
        distinct_addresses(devices),
        0 <= i < devices.len(),
    ensures
        registry_of(devices).contains_key(devices[i].address@),
        registry_of(devices)[devices[i].address@] == devices[i].position,
    decreases devices.len(),
{
    if i < devices.len() - 1 {
        let front = devices.drop_last();
        assert(distinct_addresses(front)) by {
            assert forall|a: int, b: int| 0 <= a < b < front.len() implies front[a].address@
                != front[b].address@ by {
                assert(devices[a].address@ != devices[b].address@);
            }
        }
        lemma_registry_lookup(front, i);
        assert(devices[i].address@ != devices[devices.len() - 1].address@);
    }
}

impl DeviceMap {
    /// A registry that knows no address.
    pub fn new() -> (registry: Self)
        ensures
            registry@ == Map::<Seq<char>, Position>::empty(),
    {
        DeviceMap { devices: StringHashMap::new() }
    }

    /// Records where a device stands, replacing what was known of its address.
    pub fn register(&mut self, device: &Device)
        ensures
            final(self)@ == old(self)@.insert(device.address@, device.position),
    {
        self.devices.insert(device.address.clone(), device.position);
    }

    /// Builds the registry of a list of devices.
    pub fn from_devices(devices: &Vec<Device>) -> (registry: Self)
        ensures
            registry@ == registry_of(devices@),
    {
        let mut registry = DeviceMap::new();
        let mut i: usize = 0;
        while i < devices.len()
            invariant
                i <= devices.len(),
                registry@ == registry_of(devices@.take(i as int)),
            decreases devices.len() - i,
        {
            registry.register(&devices[i]);
            proof {
                assert(devices@.take(i + 1).drop_last() =~= devices@.take(i as int));
            }
            i += 1;
        }
        proof {
            assert(devices@.take(devices.len() as int) =~= devices@);
        }
        registry
    }

    /// The position of the device with this address, if the address is known.
    pub fn resolve(&self, address: &str) -> (position: Option<Position>)
        ensures
            position == lookup(self@, address@),
    {
        match self.devices.get(address) {
            Some(found) => Some(*found),
            None => None,
        }
    }
}

impl Default for DeviceMap {
    fn default() -> (registry: Self)
        ensures
            registry@ == Map::<Seq<char>, Position>::empty(),
    {
        DeviceMap::new()
    }
}

/// What the registry says of an address.
pub open spec fn lookup(registry: Map<Seq<char>, Position>, address: Seq<char>) -> Option<
    Position,
> {
    if registry.contains_key(address) {
        Some(registry[address])
    } else {
        None
    }
}

/// Addresses and positions of the reference network, in registration order.
pub open spec fn reference_layout() -> Seq<(Seq<char>, Position)> {
    seq![
        ("192.168.1.1"@, Position { x: (-10) as i32, y: 0, z: 0 }),
        ("192.168.1.2"@, Position { x: 10, y: 0, z: 0 }),
        ("192.168.1.3"@, Position { x: 0, y: 0, z: (-10) as i32 }),
        ("192.168.1.4"@, Position { x: 0, y: 0, z: 10 }),
    ]
}

/// A list of devices that holds exactly the given addresses and positions.
pub open spec fn laid_out_as(devices: Seq<Device>, layout: Seq<(Seq<char>, Position)>) -> bool {
    &&& devices.len() == layout.len()
    &&& forall|i: int|
        0 <= i < devices.len() ==> (#[trigger] devices[i].address@, devices[i].position)
            == layout[i]
}

/// The addresses of the reference network differ from one another, so each
/// resolves to the position of its own device.
pub proof fn lemma_reference_addresses_distinct(devices: Seq<Device>)
    requires
        laid_out_as(devices, reference_layout()),
    ensures
        distinct_addresses(devices),
{
    reveal_strlit("192.168.1.1");
    reveal_strlit("192.168.1.2");
    reveal_strlit("192.168.1.3");
    reveal_strlit("192.168.1.4");
    let layout = reference_layout();
    assert forall|i: int, j: int| 0 <= i < j < devices.len() implies devices[i].address@
        != devices[j].address@ by {
        assert((devices[i].address@, devices[i].position) == layout[i]);
        assert((devices[j].address@, devices[j].position) == layout[j]);
        assert(layout[i].0[10] != layout[j].0[10]);
    }
}

/// The four devices of the reference network.
pub fn reference_devices() -> (devices: Vec<Device>)
    ensures
        laid_out_as(devices@, reference_layout()),
{
    let mut devices: Vec<Device> = Vec::new();
    devices.push(
        Device { address: "192.168.1.1".to_owned(), position: Position { x: -10, y: 0, z: 0 } },
    );
    devices.push(
        Device { address: "192.168.1.2".to_owned(), position: Position { x: 10, y: 0, z: 0 } },
    );
    devices.push(
        Device { address: "192.168.1.3".to_owned(), position: Position { x: 0, y: 0, z: -10 } },
    );
    devices.push(
        Device { address: "192.168.1.4".to_owned(), position: Position { x: 0, y: 0, z: 10 } },
    );
    devices
}

/// How a spawned packet is coloured.
#[derive(Clone, Copy, Debug, PartialEq, Eq, Structural)]
pub enum Tint {
    /// Ordinary traffic.
    Nominal,
    /// Traffic that the classifier flagged.
    Alert,
}

/// Flagged packets are shown in the alert colour, all others in the nominal one.
pub open spec fn tint_of(anomalous: bool) -> Tint {
    if anomalous {
        Tint::Alert
    } else {
        Tint::Nominal
    }
}

/// The colour class of a packet with the given flag.
pub fn tint_for(anomalous: bool) -> (tint: Tint)
    ensures
        tint == tint_of(anomalous),
{
    if anomalous {
        Tint::Alert
    } else {
        Tint::Nominal
    }
}

/// Everything the scene host needs to create the entity of one packet: the
/// entity starts at `origin` and faces `target`.
#[derive(Debug, PartialEq, Eq)]
pub struct SpawnPlan {
    pub packet: PacketData,
    pub origin: Position,
    pub target: Position,
    pub tint: Tint,
}

/// The vector from one position to another.
pub open spec fn displacement(from: Position, to: Position) -> (int, int, int) {
    (to.x - from.x, to.y - from.y, to.z - from.z)
}

impl SpawnPlan {
    /// The vector from `origin` to `target`. Its direction is the one in which
    /// the entity travels; its length carries no meaning.
    pub fn heading(&self) -> (vector: (i64, i64, i64))
        ensures
            (vector.0 as int, vector.1 as int, vector.2 as int) == displacement(
                self.origin,
                self.target,
            ),
    {
        (
            self.target.x as i64 - self.origin.x as i64,
            self.target.y as i64 - self.origin.y as i64,
            self.target.z as i64 - self.origin.z as i64,
        )
    }

    /// Whether the packet has nowhere to go: its heading is the zero vector.
    /// The zero vector has no direction, so no rotation can be derived from
    /// it; such an entity is created all the same, in the orientation that the
    /// scene gives by default.
    pub fn is_degenerate(&self) -> (degenerate: bool)
        ensures
            degenerate == (displacement(self.origin, self.target) == (0int, 0int, 0int)),
    {
        self.origin.x == self.target.x && self.origin.y == self.target.y && self.origin.z
            == self.target.z
    }
}

/// The plan for a packet: there is one exactly when the registry knows both of
/// its addresses.
pub open spec fn spawn_of(packet: PacketData, registry: Map<Seq<char>, Position>) -> Option<
    SpawnPlan,
> {
    if registry.contains_key(packet.src_addr@) && registry.contains_key(packet.dst_addr@) {
        Some(
            SpawnPlan {
                packet,
                origin: registry[packet.src_addr@],
                target: registry[packet.dst_addr@],
                tint: tint_of(packet.anomalous),
            },
        )
    } else {
        None
    }
}

/// Resolves both addresses of a packet. A packet with an unknown address is
/// dropped.
pub fn resolve_spawn(packet: PacketData, registry: &DeviceMap) -> (plan: Option<SpawnPlan>)
    ensures
        plan == spawn_of(packet, registry@),
{
    let origin = registry.resolve(packet.src_addr.as_str());
    let target = registry.resolve(packet.dst_addr.as_str());
    match (origin, target) {
        (Some(origin), Some(target)) => {
            let tint = tint_for(packet.anomalous);
            Some(SpawnPlan { packet, origin, target, tint })
        },
        _ => None,
    }
}

/// The spawn phase of one frame: takes at most one descriptor off the queue,
/// the latest, and plans its entity. However long the queue is, the others
/// stay where they are.
pub fn plan_spawn(queue: &mut PacketQueue, registry: &DeviceMap) -> (plan: Option<SpawnPlan>)
    ensures
        final(queue)@ == after_dequeue(old(queue)@),
        plan == match latest(old(queue)@) {
            Some(packet) => spawn_of(packet, registry@),
            None => None,
        },
{
    match queue.dequeue_latest() {
        Some(packet) => resolve_spawn(packet, registry),
        None => None,
    }
}

/// A packet whose source and destination are the same address is planned with
/// a zero heading.
pub proof fn lemma_same_address_zero_heading(
    packet: PacketData,
    registry: Map<Seq<char>, Position>,
)
    requires
        packet.src_addr@ == packet.dst_addr@,
        spawn_of(packet, registry) is Some,
    ensures
        displacement(
            spawn_of(packet, registry).unwrap().origin,
            spawn_of(packet, registry).unwrap().target,
        ) == (0int, 0int, 0int),
{
}

/// Every plan starts and ends at registered positions of its own packet's
/// addresses.
pub proof fn lemma_plan_endpoints_registered(
    packet: PacketData,
    registry: Map<Seq<char>, Position>,
)
    requires
        spawn_of(packet, registry) is Some,
    ensures
        lookup(registry, packet.src_addr@) == Some(spawn_of(packet, registry).unwrap().origin),
        lookup(registry, packet.dst_addr@) == Some(spawn_of(packet, registry).unwrap().target),
        spawn_of(packet, registry).unwrap().packet == packet,
{
}

/// The directional keys that are held down during a frame.
#[derive(Clone, Copy, Debug, PartialEq, Eq, Structural)]
pub struct KeyState {
    pub forward: bool,
    pub back: bool,
    pub left: bool,
    pub right: bool,
}

/// Movement along the camera's own X and Z axes, in whole steps.
#[derive(Clone, Copy, Debug, PartialEq, Eq, Structural)]
pub struct Axes {
    pub x: i8,
    pub z: i8,
}

/// One step for a key that is down, none for one that is up.
pub open spec fn step(pressed: bool) -> int {
    if pressed {
        1
    } else {
        0
    }
}

/// Each key adds one step along its axis: `right` and `back` count up, `left`
/// and `forward` count down. Opposite keys cancel.
pub open spec fn axes_of(keys: KeyState) -> (int, int) {
    (step(keys.right) - step(keys.left), step(keys.back) - step(keys.forward))
}

/// The movement that the held keys ask for.
pub fn key_axes(keys: &KeyState) -> (axes: Axes)
    ensures
        (axes.x as int, axes.z as int) == axes_of(*keys),
{
    let mut x: i8 = 0;
    let mut z: i8 = 0;
    if keys.forward {
        z -= 1;
    }
    if keys.back {
        z += 1;
    }
    if keys.left {
        x -= 1;
    }
    if keys.right {
        x += 1;
    }
    Axes { x, z }
}

/// Of the pointer motions of one frame only the last one counts.
pub open spec fn last_of<T>(events: Seq<T>) -> Option<T> {
    if events.len() == 0 {
        None
    } else {
        Some(events.last())
    }
}

/// The pointer motion that sets the camera's rotation for this frame, if the
/// pointer moved at all.
pub fn effective_motion<T>(events: &Vec<T>) -> (chosen: Option<&T>)
    ensures
        chosen == match last_of(events@) {
            Some(event) => Some(&event),
            None => None,
        },
{
    if events.len() == 0 {
        None
    } else {
        Some(&events[events.len() - 1])
    }
}

} // verus!
