use flowtable::cidr::network_prefix;
use flowtable::flow::{Action, Flow, NetworkPrefix, Packet, ValidationError};
use flowtable::table::FlowTable;
use ipnet::Ipv4Net;

fn rule(src: (u32, u8), src_port: u16, dst: (u32, u8), dst_port: u16, action: Action) -> Flow {
    Flow {
        src: NetworkPrefix { addr: src.0, prefix_len: src.1 },
        src_port,
        dst: NetworkPrefix { addr: dst.0, prefix_len: dst.1 },
        dst_port,
        action,
    }
}

#[test]
fn source_prefix_longer_than_32_is_refused() {
    let mut table = FlowTable::new();
    let bad = rule((1, 33), 0, (2, 32), 0, Action::Deny);
    assert_eq!(table.add_flow(bad), Err(ValidationError::SourcePrefixLen(33)));
    let bad = rule((1, 255), 0, (2, 40), 0, Action::Deny);
    assert_eq!(table.add_flow(bad), Err(ValidationError::SourcePrefixLen(255)));
}

#[test]
fn destination_prefix_longer_than_32_is_refused() {
    let mut table = FlowTable::new();
    let bad = rule((1, 32), 0, (2, 33), 0, Action::Deny);
    assert_eq!(table.add_flow(bad), Err(ValidationError::DestinationPrefixLen(33)));
}

#[test]
fn refused_rule_leaves_the_table_as_it_was() {
    let mut table = FlowTable::new();
    let good = rule((0x0a00_0000, 8), 0, (0x0b00_0000, 8), 0, Action::Allow("kept".into()));
    assert_eq!(table.add_flow(good), Ok(()));
    let bad = rule((0x0a00_0000, 8), 0, (0x0b00_0000, 99), 0, Action::Deny);
    assert!(table.add_flow(bad).is_err());
    let bad = rule((0x0a00_0000, 77), 0, (0x0b00_0000, 8), 0, Action::Deny);
    assert!(table.add_flow(bad).is_err());
    let packet = Packet { src_ip: 0x0a01_0203, dst_ip: 0x0b01_0203, src_port: 5, dst_port: 6 };
    assert_eq!(table.match_flow(packet), Some(Action::Allow("kept".into())));
    assert_eq!(table.lookup_exact(0x0a00_0000, 0, 0x0b00_0000, 0), Some(&Action::Allow("kept".into())));
}

#[test]
fn addresses_are_masked_on_insertion() {
    let mut table = FlowTable::new();
    let unmasked = rule((0x0a01_0203, 8), 0, (0x0b04_0506, 16), 0, Action::Deny);
    assert_eq!(table.add_flow(unmasked), Ok(()));
    assert_eq!(table.lookup_exact(0x0a00_0000, 0, 0x0b04_0000, 0), Some(&Action::Deny));
    assert_eq!(table.lookup_exact(0x0a01_0203, 0, 0x0b04_0506, 0), None);
    let packet = Packet { src_ip: 0x0aff_ffff, dst_ip: 0x0b04_ffff, src_port: 1, dst_port: 1 };
    assert_eq!(table.match_flow(packet), Some(Action::Deny));
}

#[test]
fn exact_lookup_needs_every_part_of_the_key() {
    let mut table = FlowTable::new();
    assert_eq!(table.add_flow(rule((1, 32), 2, (3, 32), 4, Action::Deny)), Ok(()));
    assert_eq!(table.lookup_exact(1, 2, 3, 4), Some(&Action::Deny));
    assert_eq!(table.lookup_exact(3, 2, 1, 4), None);
    assert_eq!(table.lookup_exact(1, 4, 3, 2), None);
    assert_eq!(table.lookup_exact(1, 2, 3, 5), None);
    assert_eq!(table.lookup_exact(1, 2, 0x0001_0003, 4), None);
    assert_eq!(table.lookup_exact(0x0001_0001, 2, 3, 4), None);
    assert_eq!(table.lookup_exact(1, 2, 0, 3), None);
}

#[test]
fn prefix_lengths_0_and_32_are_accepted() {
    let mut table = FlowTable::new();
    assert_eq!(table.add_flow(rule((0xffff_ffff, 0), 0, (0xffff_ffff, 32), 0, Action::Deny)), Ok(()));
    let packet = Packet { src_ip: 12, dst_ip: 0xffff_ffff, src_port: 1, dst_port: 1 };
    assert_eq!(table.match_flow(packet), Some(Action::Deny));
    let packet = Packet { src_ip: 12, dst_ip: 0xffff_fffe, src_port: 1, dst_port: 1 };
    assert_eq!(table.match_flow(packet), None);
}

#[test]
fn rule_from_networks_keeps_address_and_length() {
    let src: Ipv4Net = "1.0.0.0/25".parse().unwrap();
    let dst: Ipv4Net = "192.168.12.34/16".parse().unwrap();
    let flow = Flow::new(src, 7, dst, 9, Action::Allow("x".into()));
    assert_eq!(flow.src, NetworkPrefix { addr: 0x0100_0000, prefix_len: 25 });
    assert_eq!(flow.dst, NetworkPrefix { addr: 0xc0a8_0c22, prefix_len: 16 });
    assert_eq!(flow.src_port, 7);
    assert_eq!(flow.dst_port, 9);
    assert_eq!(flow.action, Action::Allow("x".into()));
}

#[test]
fn network_prefix_reads_address_and_length() {
    let net: Ipv4Net = "10.1.2.3/20".parse().unwrap();
    assert_eq!(network_prefix(&net), NetworkPrefix { addr: 0x0a01_0203, prefix_len: 20 });
    let net: Ipv4Net = "0.0.0.0/0".parse().unwrap();
    assert_eq!(network_prefix(&net), NetworkPrefix { addr: 0, prefix_len: 0 });
    let net: Ipv4Net = "255.255.255.255/32".parse().unwrap();
    assert_eq!(network_prefix(&net), NetworkPrefix { addr: u32::MAX, prefix_len: 32 });
}

#[test]
fn packet_from_octets() {
    let packet = Packet::new([1, 2, 3, 4], 80, [5, 6, 7, 8], 443);
    assert_eq!(
        packet,
        Packet { src_ip: 0x0102_0304, dst_ip: 0x0506_0708, src_port: 80, dst_port: 443 }
    );
}

#[test]
fn clones_are_equal() {
    let flow = rule((1, 2), 3, (4, 5), 6, Action::Allow("label".into()));
    assert_eq!(flow.clone(), flow);
    assert_eq!(Action::Deny.clone(), Action::Deny);
    assert_ne!(Action::Allow("a".into()), Action::Allow("b".into()));
}

#[test]
fn rule_count_counts_keys_not_insertions() {
    let mut table = FlowTable::new();
    assert_eq!(table.rule_count(), 0);
    assert_eq!(table.add_flow(rule((0x0a00_0000, 8), 0, (0x0b00_0000, 8), 0, Action::Deny)), Ok(()));
    assert_eq!(table.rule_count(), 1);
    let again = rule((0x0a00_0000, 8), 0, (0x0b00_0000, 8), 0, Action::Allow("second".into()));
    assert_eq!(table.add_flow(again), Ok(()));
    assert_eq!(table.rule_count(), 1);
    let same_after_masking = rule((0x0a12_3456, 8), 0, (0x0bff_ffff, 8), 0, Action::Deny);
    assert_eq!(table.add_flow(same_after_masking), Ok(()));
    assert_eq!(table.rule_count(), 1);
    assert_eq!(table.add_flow(rule((0x0a00_0000, 8), 1, (0x0b00_0000, 8), 0, Action::Deny)), Ok(()));
    assert_eq!(table.rule_count(), 2);
    assert!(table.add_flow(rule((0x0c00_0000, 40), 1, (0x0b00_0000, 8), 0, Action::Deny)).is_err());
    assert_eq!(table.rule_count(), 2);
}

#[test]
fn upsert_shows_only_the_second_action() {
    let mut table = FlowTable::new();
    let first = rule((0x0a00_0000, 8), 22, (0x0b00_0000, 8), 0, Action::Allow("first".into()));
    let second = rule((0x0a00_0000, 8), 22, (0x0b00_0000, 8), 0, Action::Allow("second".into()));
    assert_eq!(table.add_flow(first), Ok(()));
    assert_eq!(table.add_flow(second), Ok(()));
    let packet = Packet { src_ip: 0x0a00_0001, dst_ip: 0x0b00_0001, src_port: 22, dst_port: 9 };
    assert_eq!(table.match_flow(packet), Some(Action::Allow("second".into())));
    assert_eq!(table.rule_count(), 1);
}

#[test]
fn catch_all_takes_over_the_key_of_a_rule_at_address_zero() {
    let mut table = FlowTable::new();
    let specific = rule((0, 24), 0, (0, 24), 0, Action::Deny);
    let catch_all = rule((0, 0), 0, (0, 0), 0, Action::Allow("any".into()));
    assert_eq!(table.add_flow(specific), Ok(()));
    assert_eq!(table.add_flow(catch_all), Ok(()));
    assert_eq!(table.rule_count(), 1);
    let inside = Packet { src_ip: 5, dst_ip: 7, src_port: 1, dst_port: 1 };
    assert_eq!(table.match_flow(inside), Some(Action::Allow("any".into())));
}

#[test]
fn validation_judges_the_source_prefix_first() {
    assert_eq!(rule((1, 32), 0, (2, 0), 0, Action::Deny).validate(), Ok(()));
    assert_eq!(
        rule((1, 33), 0, (2, 0), 0, Action::Deny).validate(),
        Err(ValidationError::SourcePrefixLen(33))
    );
    assert_eq!(
        rule((1, 32), 0, (2, 200), 0, Action::Deny).validate(),
        Err(ValidationError::DestinationPrefixLen(200))
    );
    assert_eq!(
        rule((1, 34), 0, (2, 35), 0, Action::Deny).validate(),
        Err(ValidationError::SourcePrefixLen(34))
    );
}

#[test]
fn masks_agree_with_the_netmasks_of_networks() {
    for len in 0u8..=32 {
        let net = Ipv4Net::new(0x0a01_0203u32.into(), len).unwrap();
        assert_eq!(flowtable::mask::prefix_mask(len), u32::from(net.netmask()));
        assert_eq!(
            network_prefix(&net).addr & flowtable::mask::prefix_mask(len),
            u32::from(net.network())
        );
    }
}
