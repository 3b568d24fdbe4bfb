use rand::rngs::StdRng;
use rand::SeedableRng;
use std::time::{Duration, Instant};
use traffic_vis::models::{Device, PacketData, PacketQueue, Position, Protocol};
use traffic_vis::simulation::{
    assemble_packet, interval_elapsed, protocol_choices, simulation_step, simulation_step_at,
    TrafficSimulator, EMIT_INTERVAL_NANOS, MIN_PACKET_SIZE, PACKET_SIZE_BOUND,
};
use traffic_vis::visualization::reference_devices;

const HALF_SECOND: u128 = 500_000_000;

fn seeded(seed: u64) -> TrafficSimulator {
    TrafficSimulator::with_rng(StdRng::seed_from_u64(seed))
}

fn is_reference_address(address: &str) -> bool {
    matches!(address, "192.168.1.1" | "192.168.1.2" | "192.168.1.3" | "192.168.1.4")
}

fn check_generated(packet: &PacketData) {
    assert!(is_reference_address(&packet.src_addr));
    assert!(is_reference_address(&packet.dst_addr));
    assert!(packet.size >= 100);
    assert!(packet.size < 1500);
    assert_eq!(packet.anomalous, packet.size > 1400);
}

fn wait_until(simulator: &TrafficSimulator, nanos: u128) {
    let begun = Instant::now();
    while simulator.clock_nanos() < nanos {
        assert!(begun.elapsed() < Duration::from_secs(10));
        std::hint::spin_loop();
    }
}

#[test]
fn generator_constants() {
    assert_eq!(EMIT_INTERVAL_NANOS, 500_000_000);
    assert_eq!(MIN_PACKET_SIZE, 100);
    assert_eq!(PACKET_SIZE_BOUND, 1500);
    assert_eq!(protocol_choices(), vec![Protocol::Tcp, Protocol::Udp, Protocol::Icmp]);
}

#[test]
fn interval_elapses_after_exactly_half_a_second() {
    assert!(!interval_elapsed(0, 0));
    assert!(!interval_elapsed(0, HALF_SECOND - 1));
    assert!(interval_elapsed(0, HALF_SECOND));
    assert!(interval_elapsed(0, HALF_SECOND + 1));
    assert!(!interval_elapsed(1_000, HALF_SECOND + 999));
    assert!(interval_elapsed(1_000, HALF_SECOND + 1_000));
}

#[test]
fn clock_before_last_emission_counts_as_no_time() {
    assert!(!interval_elapsed(HALF_SECOND, 0));
    assert!(!interval_elapsed(u128::MAX, 0));
    assert!(!interval_elapsed(u128::MAX, u128::MAX));
    assert!(interval_elapsed(0, u128::MAX));
    assert!(interval_elapsed(u128::MAX - HALF_SECOND, u128::MAX));
    assert!(!interval_elapsed(u128::MAX - HALF_SECOND + 1, u128::MAX));
}

#[test]
fn assembled_packet_carries_what_was_drawn() {
    let src = Device { address: "10.0.0.1".to_string(), position: Position { x: 1, y: 2, z: 3 } };
    let dst = Device { address: "10.0.0.2".to_string(), position: Position { x: 4, y: 5, z: 6 } };
    assert_eq!(
        assemble_packet(42, &src, &dst, 1401, Protocol::Icmp),
        PacketData {
            timestamp: 42,
            src_addr: "10.0.0.1".to_string(),
            dst_addr: "10.0.0.2".to_string(),
            size: 1401,
            protocol: Protocol::Icmp,
            anomalous: true,
        }
    );
    assert_eq!(
        assemble_packet(0, &dst, &dst, 1400, Protocol::Udp),
        PacketData {
            timestamp: 0,
            src_addr: "10.0.0.2".to_string(),
            dst_addr: "10.0.0.2".to_string(),
            size: 1400,
            protocol: Protocol::Udp,
            anomalous: false,
        }
    );
}

#[test]
fn new_generator_starts_over_the_reference_network() {
    let simulator = TrafficSimulator::new().unwrap();
    assert_eq!(simulator.devices(), &reference_devices());
    assert_eq!(simulator.last_emit(), 0);
}

#[test]
fn seeded_generator_starts_over_the_reference_network() {
    let simulator = seeded(1);
    assert_eq!(simulator.devices(), &reference_devices());
    assert_eq!(simulator.last_emit(), 0);
}

#[test]
fn no_packet_before_the_first_interval_has_passed() {
    let mut simulator = seeded(2);
    assert_eq!(simulator.generate_packet_at(0), None);
    assert_eq!(simulator.generate_packet_at(1), None);
    assert_eq!(simulator.generate_packet_at(HALF_SECOND - 1), None);
    assert_eq!(simulator.last_emit(), 0);
}

#[test]
fn one_packet_per_interval() {
    let mut simulator = seeded(3);
    let first = simulator.generate_packet_at(HALF_SECOND).unwrap();
    check_generated(&first);
    assert_eq!(simulator.last_emit(), HALF_SECOND);

    assert_eq!(simulator.generate_packet_at(HALF_SECOND), None);
    assert_eq!(simulator.generate_packet_at(HALF_SECOND + 1), None);
    assert_eq!(simulator.generate_packet_at(2 * HALF_SECOND - 1), None);
    assert_eq!(simulator.last_emit(), HALF_SECOND);

    let second = simulator.generate_packet_at(2 * HALF_SECOND).unwrap();
    check_generated(&second);
    assert_eq!(simulator.last_emit(), 2 * HALF_SECOND);
}

#[test]
fn interval_counts_from_the_emission_not_from_a_grid() {
    let mut simulator = seeded(4);
    assert!(simulator.generate_packet_at(HALF_SECOND + 123).is_some());
    assert_eq!(simulator.generate_packet_at(2 * HALF_SECOND), None);
    assert_eq!(simulator.generate_packet_at(2 * HALF_SECOND + 122), None);
    assert!(simulator.generate_packet_at(2 * HALF_SECOND + 123).is_some());
    assert_eq!(simulator.last_emit(), 2 * HALF_SECOND + 123);
}

#[test]
fn a_long_pause_yields_a_single_packet() {
    let mut simulator = seeded(5);
    assert!(simulator.generate_packet_at(20 * HALF_SECOND).is_some());
    assert_eq!(simulator.generate_packet_at(20 * HALF_SECOND + 1), None);
    assert_eq!(simulator.last_emit(), 20 * HALF_SECOND);
}

#[test]
fn a_clock_that_steps_back_emits_nothing() {
    let mut simulator = seeded(6);
    assert!(simulator.generate_packet_at(4 * HALF_SECOND).is_some());
    assert_eq!(simulator.generate_packet_at(0), None);
    assert_eq!(simulator.generate_packet_at(HALF_SECOND), None);
    assert_eq!(simulator.last_emit(), 4 * HALF_SECOND);
    assert!(simulator.generate_packet_at(5 * HALF_SECOND).is_some());
}

#[test]
fn devices_stay_as_they_are() {
    let mut simulator = seeded(7);
    let mut now: u128 = 0;
    while now < 50 * HALF_SECOND {
        simulator.generate_packet_at(now);
        now += HALF_SECOND / 3;
    }
    assert_eq!(simulator.devices(), &reference_devices());
}

#[test]
fn every_generated_packet_is_well_formed() {
    let mut simulator = seeded(8);
    let mut tick: u128 = 1;
    while tick <= 2000 {
        let packet = simulator.generate_packet_at(tick * HALF_SECOND).unwrap();
        check_generated(&packet);
        tick += 1;
    }
}

#[test]
fn draws_cover_devices_sizes_and_protocols() {
    let mut simulator = seeded(9);
    let mut sources = std::collections::BTreeSet::new();
    let mut destinations = std::collections::BTreeSet::new();
    let mut sizes = std::collections::BTreeSet::new();
    let mut protocols = Vec::new();
    let mut same_endpoints = 0;
    let mut flagged = 0;
    let mut tick: u128 = 1;
    while tick <= 2000 {
        let packet = simulator.generate_packet_at(tick * HALF_SECOND).unwrap();
        if packet.src_addr == packet.dst_addr {
            same_endpoints += 1;
        }
        if packet.anomalous {
            flagged += 1;
        }
        if !protocols.contains(&packet.protocol) {
            protocols.push(packet.protocol);
        }
        sources.insert(packet.src_addr);
        destinations.insert(packet.dst_addr);
        sizes.insert(packet.size);
        tick += 1;
    }
    assert_eq!(sources.len(), 4);
    assert_eq!(destinations.len(), 4);
    assert_eq!(protocols.len(), 3);
    assert!(sizes.len() > 100);
    assert!(*sizes.iter().next().unwrap() < 200);
    assert!(*sizes.iter().next_back().unwrap() > 1400);
    assert!(same_endpoints > 0);
    assert!(flagged > 0);
    assert!(flagged < 2000);
}

#[test]
fn same_seed_same_packets() {
    let mut left = seeded(10);
    let mut right = seeded(10);
    let mut tick: u128 = 1;
    while tick <= 50 {
        let a = left.generate_packet_at(tick * HALF_SECOND).unwrap();
        let b = right.generate_packet_at(tick * HALF_SECOND).unwrap();
        assert_eq!(a.src_addr, b.src_addr);
        assert_eq!(a.dst_addr, b.dst_addr);
        assert_eq!(a.size, b.size);
        assert_eq!(a.protocol, b.protocol);
        assert_eq!(a.anomalous, b.anomalous);
        tick += 1;
    }
}

#[test]
fn a_skipped_tick_draws_nothing() {
    let mut busy = seeded(11);
    let mut idle = seeded(11);
    let mut tick: u128 = 0;
    while tick < 100 {
        assert_eq!(busy.generate_packet_at(tick), None);
        tick += 1;
    }
    let a = busy.generate_packet_at(HALF_SECOND).unwrap();
    let b = idle.generate_packet_at(HALF_SECOND).unwrap();
    assert_eq!((a.src_addr, a.dst_addr, a.size, a.protocol), (b.src_addr, b.dst_addr, b.size, b.protocol));
}

#[test]
fn timestamp_is_zero_when_the_tick_lies_ahead_of_the_clock() {
    let mut simulator = seeded(12);
    let packet = simulator.generate_packet_at(u128::MAX).unwrap();
    assert_eq!(packet.timestamp, 0);
    assert_eq!(simulator.last_emit(), u128::MAX);
    assert_eq!(simulator.generate_packet_at(u128::MAX), None);
}

#[test]
fn clock_does_not_run_backwards() {
    let simulator = seeded(13);
    let mut last = simulator.clock_nanos();
    let mut reads = 0;
    while reads < 1000 {
        let now = simulator.clock_nanos();
        assert!(now >= last);
        last = now;
        reads += 1;
    }
}

#[test]
fn wall_clock_ticks_emit_once_per_half_second() {
    let mut simulator = seeded(14);
    assert_eq!(simulator.generate_packet(), None);
    assert_eq!(simulator.last_emit(), 0);

    wait_until(&simulator, HALF_SECOND);
    let first = simulator.generate_packet().unwrap();
    check_generated(&first);
    let emitted_at = simulator.last_emit();
    assert!(emitted_at >= HALF_SECOND);
    assert!(first.timestamp < 5 * HALF_SECOND);

    let mut calls = 0;
    while calls < 100 && simulator.clock_nanos() < emitted_at + HALF_SECOND / 2 {
        assert_eq!(simulator.generate_packet(), None);
        calls += 1;
    }
    assert_eq!(simulator.last_emit(), emitted_at);

    wait_until(&simulator, emitted_at + HALF_SECOND);
    assert!(simulator.generate_packet().is_some());
    assert!(simulator.last_emit() >= emitted_at + HALF_SECOND);
}

#[test]
fn step_hands_an_emitted_packet_to_the_queue() {
    let mut simulator = seeded(15);
    let mut queue = PacketQueue::new();
    simulation_step_at(&mut simulator, &mut queue, HALF_SECOND - 1);
    assert!(queue.is_empty());
    assert_eq!(simulator.last_emit(), 0);

    simulation_step_at(&mut simulator, &mut queue, HALF_SECOND);
    assert_eq!(queue.len(), 1);
    check_generated(&queue.packets[0]);
    assert_eq!(simulator.last_emit(), HALF_SECOND);

    simulation_step_at(&mut simulator, &mut queue, HALF_SECOND + 10);
    assert_eq!(queue.len(), 1);
}

#[test]
fn step_appends_behind_what_is_queued() {
    let mut simulator = seeded(16);
    let mut reference = seeded(16);
    let mut queue = PacketQueue::new();
    let waiting = PacketData {
        timestamp: 1,
        src_addr: "x".to_string(),
        dst_addr: "y".to_string(),
        size: 5,
        protocol: Protocol::Udp,
        anomalous: true,
    };
    queue.enqueue(waiting.clone());
    simulation_step_at(&mut simulator, &mut queue, 3 * HALF_SECOND);
    assert_eq!(queue.len(), 2);
    assert_eq!(queue.packets[0], waiting);
    let expected = reference.generate_packet_at(3 * HALF_SECOND).unwrap();
    assert_eq!(queue.packets[1].src_addr, expected.src_addr);
    assert_eq!(queue.packets[1].dst_addr, expected.dst_addr);
    assert_eq!(queue.packets[1].size, expected.size);
    assert_eq!(queue.packets[1].protocol, expected.protocol);
    assert_eq!(queue.packets[1].anomalous, expected.size > 1400);
}

#[test]
fn steps_queue_one_packet_per_interval() {
    let mut simulator = seeded(17);
    let mut queue = PacketQueue::new();
    let mut now: u128 = 0;
    while now <= 10 * HALF_SECOND {
        simulation_step_at(&mut simulator, &mut queue, now);
        now += HALF_SECOND / 10;
    }
    assert_eq!(queue.len(), 10);
    for packet in queue.packets.iter() {
        check_generated(packet);
    }
}

#[test]
fn wall_clock_step_right_after_start_queues_nothing() {
    let mut simulator = seeded(18);
    let mut queue = PacketQueue::new();
    simulation_step(&mut simulator, &mut queue);
    assert!(queue.is_empty());
    wait_until(&simulator, HALF_SECOND);
    simulation_step(&mut simulator, &mut queue);
    assert_eq!(queue.len(), 1);
    check_generated(&queue.packets[0]);
    simulation_step(&mut simulator, &mut queue);
    assert_eq!(queue.len(), 1);
}
