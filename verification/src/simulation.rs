//! The traffic generator: at most one packet per interval, drawn at random
//! from a fixed list of devices.

use vstd::prelude::*;
use rand::rngs::{OsRng, StdRng};
use rand::seq::SliceRandom;
use rand::{Rng, SeedableRng};
use std::time::Instant;
use crate::anomaly_detection::{classify_size, detect_anomaly, is_anomalous};
use crate::models::{after_enqueue, Device, PacketData, PacketQueue, PacketView, Protocol};
use crate::visualization::{laid_out_as, reference_devices, reference_layout};

verus! {

/// The random source of the generator. Its state is not visible to proofs.
#[verifier::external_type_specification]
#[verifier::external_body]
pub struct ExStdRng(rand::rngs::StdRng);

/// A reading of the monotonic clock. Proofs see nothing inside it.
#[verifier::external_type_specification]
#[verifier::external_body]
pub struct ExInstant(std::time::Instant);

/// `Instant::now` reads the monotonic clock. Nothing is claimed of the reading.
pub assume_specification[ Instant::now ]() -> Instant;

/// `Instant::elapsed` measures the time since the reading was taken. Nothing
/// is claimed of the measure.
pub assume_specification[ Instant::elapsed ](reading: &Instant) -> core::time::Duration;

/// `Duration::as_nanos` gives a duration in whole nanoseconds. Nothing is
/// claimed of the number.
pub assume_specification[ core::time::Duration::as_nanos ](span: &core::time::Duration) -> u128;

/// `StdRng::from_rng` over `OsRng` seeds a generator from the operating
/// system, and fails where the system has no entropy to give. Nothing is
/// claimed of the outcome.
#[verifier::external_body]
fn os_seeded_rng() -> Option<StdRng> {
    StdRng::from_rng(OsRng).ok()
}

/// `SliceRandom::choose` on a slice: nothing for an empty slice, else one of
/// its elements. Which one is left open.
#[verifier::external_body]
fn pick<'a, T>(items: &'a Vec<T>, rng: &mut StdRng) -> (chosen: Option<&'a T>)
    ensures
        items@.len() == 0 ==> chosen is None,
        items@.len() > 0 ==> chosen is Some && items@.contains(*chosen.unwrap()),
{
    items.choose(rng)
}

/// `Rng::gen_range` on a half-open range of sizes: a number of the range.
/// Which one is left open. On an empty range the call panics.
#[verifier::external_body]
fn draw_in_range(rng: &mut StdRng, low: usize, high: usize) -> (drawn: usize)
    requires
        low < high,
    ensures
        low <= drawn < high,
{
    rng.gen_range(low..high)
}

/// Shortest time between two emissions, in nanoseconds.
pub const EMIT_INTERVAL_NANOS: u128 = 500_000_000;

/// Smallest packet size that is generated.
pub const MIN_PACKET_SIZE: usize = 100;

/// Packet sizes stay below this bound.
pub const PACKET_SIZE_BOUND: usize = 1500;

/// A packet is due once a full interval has passed since the last emission.
pub open spec fn emission_due(last_emit: nat, now: nat) -> bool {
    now >= last_emit + EMIT_INTERVAL_NANOS
}

/// The time of the last emission after a tick at `now`: it moves only when the
/// tick emits.
pub open spec fn next_last_emit(last_emit: nat, now: nat) -> nat {
    if emission_due(last_emit, now) {
        now
    } else {
        last_emit
    }
}

/// Some device of the list has this address.
pub open spec fn known_address(devices: Seq<Device>, address: Seq<char>) -> bool {
    exists|i: int| #![trigger devices[i]] 0 <= i < devices.len() && devices[i].address@ == address
}

/// What holds of every generated packet: both addresses belong to devices of
/// the list, the size lies in the generated range, and the flag follows the
/// size.
pub open spec fn drawn_from(devices: Seq<Device>, packet: PacketView) -> bool {
    &&& known_address(devices, packet.src_addr)
    &&& known_address(devices, packet.dst_addr)
    &&& MIN_PACKET_SIZE <= packet.size < PACKET_SIZE_BOUND
    &&& packet.anomalous == is_anomalous(packet.size)
}

/// Whether a full interval lies between the last emission and `now`. A clock
/// reading before the last emission counts as no time passed.
pub fn interval_elapsed(last_emit: u128, now: u128) -> (due: bool)
    ensures
        due == emission_due(last_emit as nat, now as nat),
{
    now >= last_emit && now - last_emit >= EMIT_INTERVAL_NANOS
}

/// Puts a packet together from what was drawn for it. The flag is set by the
/// size rule.
pub fn assemble_packet(
    timestamp: u128,
    src: &Device,
    dst: &Device,
    size: usize,
    protocol: Protocol,
) -> (packet: PacketData)
    ensures
        packet@ == (PacketView {
            timestamp: timestamp as nat,
            src_addr: src.address@,
            dst_addr: dst.address@,
            size: size as nat,
            protocol,
            anomalous: is_anomalous(size as nat),
        }),
{
    PacketData {
        timestamp,
        src_addr: src.address.clone(),
        dst_addr: dst.address.clone(),
        size,
        protocol,
        anomalous: classify_size(size),
    }
}

/// The three protocol tags, in the order in which they are drawn from.
pub fn protocol_choices() -> (tags: Vec<Protocol>)
    ensures
        tags@ == seq![Protocol::Tcp, Protocol::Udp, Protocol::Icmp],
{
    vec![Protocol::Tcp, Protocol::Udp, Protocol::Icmp]
}

/// The generator. It measures time in nanoseconds since it was made.
pub struct TrafficSimulator {
    devices: Vec<Device>,
    rng: StdRng,
    started: Instant,
    last_emit: u128,
}

/// What a generator is to its callers. The state of its random source and
/// the moment at which its clock started are not part of it.
pub struct SimulatorView {
    /// The devices between which packets travel.
    pub devices: Seq<Device>,
    /// When the last packet was emitted; zero until the first one.
    pub last_emit: nat,
}

impl View for TrafficSimulator {
    type V = SimulatorView;

    closed spec fn view(&self) -> SimulatorView {
        SimulatorView { devices: self.devices@, last_emit: self.last_emit as nat }
    }
}

impl TrafficSimulator {
    /// The generator has devices to draw from. Every generator that this
    /// module hands out is well formed, and every operation keeps it so.
    pub open spec fn wf(&self) -> bool {
        self@.devices.len() > 0
    }

    /// A generator over the reference network, seeded by the operating
    /// system. `None` where the system has no entropy to give.
    pub fn new() -> (made: Option<Self>)
        ensures
            made matches Some(simulator) ==> simulator.wf() && simulator@.last_emit == 0
                && laid_out_as(simulator@.devices, reference_layout()),
    {
        match os_seeded_rng() {
            Some(rng) => Some(TrafficSimulator::with_rng(rng)),
            None => None,
        }
    }

    /// A generator over the reference network that draws from the given
    /// random source.
    pub fn with_rng(rng: StdRng) -> (simulator: Self)
        ensures
            simulator.wf(),
            simulator@.last_emit == 0,
            laid_out_as(simulator@.devices, reference_layout()),
    {
        TrafficSimulator { devices: reference_devices(), rng, started: Instant::now(), last_emit: 0 }
    }

    /// The devices between which packets travel.
    pub fn devices(&self) -> (devices: &Vec<Device>)
        ensures
            devices@ == self@.devices,
    {
        &self.devices
    }

    /// When the last packet was emitted, on the generator's clock; zero
    /// until the first one.
    pub fn last_emit(&self) -> (nanos: u128)
        ensures
            nanos == self@.last_emit,
    {
        self.last_emit
    }

    /// Nanoseconds on the generator's clock.
    pub fn clock_nanos(&self) -> u128 {
        self.started.elapsed().as_nanos()
    }

    /// One tick at the given clock reading: emits a packet exactly when a
    /// full interval has passed since the last emission, and only then moves
    /// the time of the last emission and draws from the random source.
    ///
    /// Source and destination are drawn independently, so they may be the
    /// same device. The packet's timestamp is the time that its making took:
    /// from `now` to the moment at which it is put together.
    pub fn generate_packet_at(&mut self, now: u128) -> (packet: Option<PacketData>)
        requires
            old(self).wf(),
        ensures
            final(self).wf(),
            final(self)@.devices == old(self)@.devices,
            final(self)@.last_emit == next_last_emit(old(self)@.last_emit, now as nat),
            packet is Some <==> emission_due(old(self)@.last_emit, now as nat),
            packet matches Some(p) ==> drawn_from(old(self)@.devices, p@),
    {
        if !interval_elapsed(self.last_emit, now) {
            return None;
        }
        self.last_emit = now;
        let src = pick(&self.devices, &mut self.rng).unwrap();
        let dst = pick(&self.devices, &mut self.rng).unwrap();
        let size = draw_in_range(&mut self.rng, MIN_PACKET_SIZE, PACKET_SIZE_BOUND);
        let protocols = protocol_choices();
        let protocol = *pick(&protocols, &mut self.rng).unwrap();
        let read = self.clock_nanos();
        let timestamp = if read >= now {
            read - now
        } else {
            0
        };
        Some(assemble_packet(timestamp, src, dst, size, protocol))
    }

    /// One tick at the current time. Whether it emits shows in the time of the
    /// last emission, which moves by a full interval or more, or not at all.
    pub fn generate_packet(&mut self) -> (packet: Option<PacketData>)
        requires
            old(self).wf(),
        ensures
            final(self).wf(),
            final(self)@.devices == old(self)@.devices,
            match packet {
                Some(p) => emission_due(old(self)@.last_emit, final(self)@.last_emit)
                    && drawn_from(old(self)@.devices, p@),
                None => final(self)@.last_emit == old(self)@.last_emit,
            },
    {
        let now = self.clock_nanos();
        self.generate_packet_at(now)
    }
}

/// One tick of the simulation at the given clock reading: when the generator
/// emits, the packet is classified and handed to the queue.
pub fn simulation_step_at(simulator: &mut TrafficSimulator, queue: &mut PacketQueue, now: u128)
    requires
        old(simulator).wf(),
    ensures
        final(simulator).wf(),
        final(simulator)@.devices == old(simulator)@.devices,
        final(simulator)@.last_emit == next_last_emit(old(simulator)@.last_emit, now as nat),
        !emission_due(old(simulator)@.last_emit, now as nat) ==> final(queue)@ == old(queue)@,
        emission_due(old(simulator)@.last_emit, now as nat) ==> {
            &&& final(queue)@.len() == old(queue)@.len() + 1
            &&& final(queue)@ == after_enqueue(old(queue)@, final(queue)@.last())
            &&& drawn_from(old(simulator)@.devices, final(queue)@.last()@)
        },
{
    match simulator.generate_packet_at(now) {
        Some(mut packet) => {
            packet.anomalous = detect_anomaly(&packet);
            queue.enqueue(packet);
        },
        None => {},
    }
}

/// One tick of the simulation at the current time. The queue grows by one
/// packet when the generator emits, which shows in the time of its last
/// emission, and is left alone otherwise.
pub fn simulation_step(simulator: &mut TrafficSimulator, queue: &mut PacketQueue)
    requires
        old(simulator).wf(),
    ensures
        final(simulator).wf(),
        final(simulator)@.devices == old(simulator)@.devices,
        final(simulator)@.last_emit == old(simulator)@.last_emit ==> final(queue)@ == old(
            queue,
        )@,
        final(simulator)@.last_emit != old(simulator)@.last_emit ==> {
            &&& emission_due(old(simulator)@.last_emit, final(simulator)@.last_emit)
            &&& final(queue)@.len() == old(queue)@.len() + 1
            &&& final(queue)@ == after_enqueue(old(queue)@, final(queue)@.last())
            &&& drawn_from(old(simulator)@.devices, final(queue)@.last()@)
        },
{
    let now = simulator.clock_nanos();
    simulation_step_at(simulator, queue, now);
}

/// The clock readings, among those of a run of ticks, at which a packet is
/// emitted. `last_emit` is the time of the last emission before the run.
pub open spec fn emissions(last_emit: nat, ticks: Seq<nat>) -> Seq<nat>
    decreases ticks.len(),
{
    if ticks.len() == 0 {
        Seq::empty()
    } else {
        let first = if emission_due(last_emit, ticks[0]) {
            seq![ticks[0]]
        } else {
            Seq::empty()
        };
        first + emissions(next_last_emit(last_emit, ticks[0]), ticks.drop_first())
    }
}

/// The time of the last emission after a run of ticks.
pub open spec fn last_emit_after(last_emit: nat, ticks: Seq<nat>) -> nat
    decreases ticks.len(),
{
    if ticks.len() == 0 {
        last_emit
    } else {
        last_emit_after(next_last_emit(last_emit, ticks[0]), ticks.drop_first())
    }
}

/// Whatever the ticks of a run are, and in whatever order the clock hands
/// them out, every emission comes a full interval after the one before it,
/// and the first a full interval after the last emission before the run. So no
/// stretch of time shorter than the interval sees two packets.
pub proof fn lemma_emissions_spaced(last_emit: nat, ticks: Seq<nat>)
    ensures
        forall|i: int|
            0 <= i < emissions(last_emit, ticks).len() ==> #[trigger] emissions(last_emit, ticks)[i]
                >= last_emit + EMIT_INTERVAL_NANOS,
        forall|i: int, j: int|
            0 <= i < j < emissions(last_emit, ticks).len() ==> #[trigger] emissions(
                last_emit,
                ticks,
            )[j] >= #[trigger] emissions(last_emit, ticks)[i] + EMIT_INTERVAL_NANOS,
    decreases ticks.len(),
{
    if ticks.len() > 0 {
        let next = next_last_emit(last_emit, ticks[0]);
        let rest = emissions(next, ticks.drop_first());
        lemma_emissions_spaced(next, ticks.drop_first());
        let all = emissions(last_emit, ticks);
        if emission_due(last_emit, ticks[0]) {
            assert(all =~= seq![ticks[0]] + rest);
            assert forall|i: int| 0 <= i < all.len() implies #[trigger] all[i] >= last_emit
                + EMIT_INTERVAL_NANOS by {
                if i > 0 {
                    assert(all[i] == rest[i - 1]);
                }
            }
            assert forall|i: int, j: int| 0 <= i < j < all.len() implies #[trigger] all[j]
                >= #[trigger] all[i] + EMIT_INTERVAL_NANOS by {
                assert(all[j] == rest[j - 1]);
                if i > 0 {
                    assert(all[i] == rest[i - 1]);
                }
            }
        } else {
            assert(all =~= rest);
        }
    }
}

/// While no tick of a run comes a full interval after the last emission, the
/// run emits nothing and the time of the last emission stays.
pub proof fn lemma_quiet_within_interval(last_emit: nat, ticks: Seq<nat>)
    requires
        forall|k: int| 0 <= k < ticks.len() ==> ticks[k] < last_emit + EMIT_INTERVAL_NANOS,
    ensures
        emissions(last_emit, ticks).len() == 0,
        last_emit_after(last_emit, ticks) == last_emit,
    decreases ticks.len(),
{
    if ticks.len() > 0 {
        assert(!emission_due(last_emit, ticks[0]));
        assert forall|k: int| 0 <= k < ticks.drop_first().len() implies ticks.drop_first()[k]
            < last_emit + EMIT_INTERVAL_NANOS by {
            assert(ticks.drop_first()[k] == ticks[k + 1]);
        }
        lemma_quiet_within_interval(last_emit, ticks.drop_first());
    }
}

/// The first tick that comes a full interval after the last emission does
/// emit.
pub proof fn lemma_emits_once_interval_elapsed(last_emit: nat, quiet: Seq<nat>, now: nat)
    requires
        forall|k: int| 0 <= k < quiet.len() ==> quiet[k] < last_emit + EMIT_INTERVAL_NANOS,
        now >= last_emit + EMIT_INTERVAL_NANOS,
    ensures
        emissions(last_emit, quiet.push(now)) == seq![now],
        last_emit_after(last_emit, quiet.push(now)) == now,
    decreases quiet.len(),
{
    let ticks = quiet.push(now);
    if quiet.len() == 0 {
        assert(ticks.drop_first() =~= Seq::<nat>::empty());
        assert(emissions(now, ticks.drop_first()) =~= Seq::<nat>::empty());
        assert(emissions(last_emit, ticks) =~= seq![now]);
        assert(last_emit_after(now, ticks.drop_first()) == now);
    } else {
        assert(ticks[0] == quiet[0]);
        assert(!emission_due(last_emit, ticks[0]));
        assert(ticks.drop_first() =~= quiet.drop_first().push(now));
        assert forall|k: int| 0 <= k < quiet.drop_first().len() implies quiet.drop_first()[k]
            < last_emit + EMIT_INTERVAL_NANOS by {
            assert(quiet.drop_first()[k] == quiet[k + 1]);
        }
        lemma_emits_once_interval_elapsed(last_emit, quiet.drop_first(), now);
        assert(emissions(last_emit, ticks) =~= emissions(last_emit, ticks.drop_first()));
        assert(last_emit_after(last_emit, ticks) == last_emit_after(
            last_emit,
            ticks.drop_first(),
        ));
    }
}

} // verus!
