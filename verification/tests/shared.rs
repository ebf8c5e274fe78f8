use flowtable::flow::{Action, Flow, NetworkPrefix, Packet};
use flowtable::shared::SharedTable;
use flowtable::table::FlowTable;

fn sample() -> FlowTable {
    let mut table = FlowTable::new();
    let flow = Flow {
        src: NetworkPrefix { addr: 0x0a00_0000, prefix_len: 8 },
        src_port: 0,
        dst: NetworkPrefix { addr: 0x0b00_0000, prefix_len: 8 },
        dst_port: 443,
        action: Action::Allow("tls".into()),
    };
    assert_eq!(table.add_flow(flow), Ok(()));
    table
}

fn packets() -> Vec<Packet> {
    vec![
        Packet { src_ip: 0x0a01_0101, dst_ip: 0x0b01_0101, src_port: 1000, dst_port: 443 },
        Packet { src_ip: 0x0a01_0101, dst_ip: 0x0b01_0101, src_port: 1000, dst_port: 80 },
        Packet { src_ip: 0x0c01_0101, dst_ip: 0x0b01_0101, src_port: 1000, dst_port: 443 },
    ]
}

#[test]
fn frozen_table_answers_as_the_table_did() {
    let table = sample();
    let before: Vec<Option<Action>> = packets().into_iter().map(|p| table.match_flow(p)).collect();
    let shared = table.freeze();
    let after: Vec<Option<Action>> = packets().into_iter().map(|p| shared.classify(p)).collect();
    assert_eq!(before, after);
    assert_eq!(after, vec![Some(Action::Allow("tls".into())), None, None]);
}

#[test]
fn every_handle_gives_the_same_answer() {
    let shared = sample().freeze();
    let copy = shared.clone();
    for packet in packets() {
        assert_eq!(shared.classify(packet), copy.classify(packet));
    }
    drop(shared);
    assert_eq!(copy.classify(packets()[0]), Some(Action::Allow("tls".into())));
}

fn usable_across_threads<T: Send + Sync + 'static>(_: &T) {}

#[test]
fn handle_can_cross_threads_and_many_readers_agree() {
    let shared: SharedTable = sample().freeze();
    usable_across_threads(&shared);
    let expected: Vec<Option<Action>> = packets().into_iter().map(|p| shared.classify(p)).collect();
    let handles: Vec<SharedTable> = (0..8).map(|_| shared.clone()).collect();
    for _ in 0..100 {
        for handle in &handles {
            let seen: Vec<Option<Action>> =
                packets().into_iter().map(|p| handle.classify(p)).collect();
            assert_eq!(seen, expected);
        }
    }
}
