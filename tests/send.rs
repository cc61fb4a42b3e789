use place_ipv6::{
    build_batch, build_packets, encode, make_icmpv6_packet, may_send, order_batch, Color, DrawCommand,
    EncodingProfile, EthernetInfo, PacketConfig, Pos, SizeTag,
};

fn commands(n: u16) -> Vec<DrawCommand> {
    (0..n)
        .map(|i| DrawCommand { pos: Pos::new(i, i + 1), color: Color::new(i as u8, 0, 0), size: SizeTag::SinglePixel })
        .collect()
}

fn config() -> PacketConfig {
    PacketConfig {
        profile: EncodingProfile::SizeFlag,
        ethernet_info: Some(EthernetInfo::new([1; 6], [2; 6])),
        src_ip: [0xfe80, 0, 0, 0, 0, 0, 0, 1],
    }
}

#[test]
fn pacing_without_rate_always_sends() {
    assert!(may_send(None, 0, 1_000_000));
}

#[test]
fn pacing_follows_elapsed_budget() {
    assert!(may_send(Some(50), 0, 0));
    assert!(!may_send(Some(50), 0, 1));
    assert!(!may_send(Some(50), 19, 1));
    assert!(may_send(Some(50), 20, 1));
    assert!(!may_send(Some(50), 1979, 99));
    assert!(may_send(Some(50), 1980, 99));
    assert!(may_send(Some(u32::MAX), u64::MAX, u64::MAX));
}

#[test]
fn paced_batch_spreads_over_time() {
    // Simulated clock in milliseconds: when does each of 100 frames go out at 50/s?
    let mut send_times = Vec::new();
    let mut now: u64 = 0;
    for sent in 0..100u64 {
        while !may_send(Some(50), now, sent) {
            now += 1;
        }
        send_times.push(now);
    }
    assert_eq!(*send_times.last().unwrap(), 1980);
    for start in 0..2000u64 {
        let in_window = send_times.iter().filter(|&&t| t >= start && t < start + 1000).count();
        assert!(in_window <= 51);
    }
}

#[test]
fn paced_batch_takes_wall_clock_time() {
    let started = std::time::Instant::now();
    let mut sent: u64 = 0;
    while sent < 100 {
        let elapsed = started.elapsed().as_millis() as u64;
        if may_send(Some(50), elapsed, sent) {
            sent += 1;
        }
    }
    assert!(started.elapsed().as_millis() >= 1980);
}

#[test]
fn packets_follow_commands() {
    let cmds = commands(5);
    let cfg = config();
    let packets = build_packets(&cfg, &cmds);
    assert_eq!(packets.len(), 5);
    for (c, p) in cmds.iter().zip(packets.iter()) {
        let dest = encode(cfg.profile, c.pos, c.color, c.size);
        assert_eq!(p, &make_icmpv6_packet(cfg.ethernet_info, cfg.src_ip, dest));
        assert_eq!(p.len(), 62);
    }
}

#[test]
fn quiet_order_is_unchanged() {
    let cmds = commands(50);
    assert_eq!(order_batch(false, cmds.clone()), cmds);
    assert_eq!(build_batch(&config(), false, cmds.clone()), build_packets(&config(), &cmds));
}

#[test]
fn noisy_order_is_a_permutation() {
    let cmds = commands(200);
    let shuffled = order_batch(true, cmds.clone());
    assert_eq!(shuffled.len(), cmds.len());
    let mut xs: Vec<u16> = shuffled.iter().map(|c| c.pos.x).collect();
    xs.sort();
    assert_eq!(xs, (0..200).collect::<Vec<u16>>());
    assert_ne!(shuffled, cmds);
    let mut a = build_batch(&config(), true, cmds.clone());
    let mut b = build_packets(&config(), &cmds);
    a.sort();
    b.sort();
    assert_eq!(a, b);
}
