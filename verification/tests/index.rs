use flowtable::index::{get_net_port, PrefixIndex};

const TEN: u32 = 0x0a00_0000;

#[test]
fn empty_index_finds_nothing() {
    let idx = PrefixIndex::new();
    assert_eq!(get_net_port(TEN + 1, 80, &idx), None);
    assert_eq!(get_net_port(0, 0, &idx), None);
}

#[test]
fn lookup_returns_masked_address_length_and_port() {
    let mut idx = PrefixIndex::new();
    idx.insert(24, TEN, 80);
    assert_eq!(get_net_port(TEN + 77, 80, &idx), Some((TEN, 24, 80)));
    assert_eq!(get_net_port(TEN + 255, 80, &idx), Some((TEN, 24, 80)));
    assert_eq!(get_net_port(TEN + 256, 80, &idx), None);
    assert_eq!(get_net_port(TEN + 77, 81, &idx), None);
    assert_eq!(get_net_port(TEN + 77, 0, &idx), None);
}

#[test]
fn lookup_prefers_the_longest_prefix() {
    let mut idx = PrefixIndex::new();
    idx.insert(0, 0, 0);
    idx.insert(8, TEN, 0);
    idx.insert(16, TEN + 0x0001_0000, 0);
    idx.insert(32, TEN + 0x0001_0203, 0);
    assert_eq!(get_net_port(TEN + 0x0001_0203, 0, &idx), Some((TEN + 0x0001_0203, 32, 0)));
    assert_eq!(get_net_port(TEN + 0x0001_0204, 0, &idx), Some((TEN + 0x0001_0000, 16, 0)));
    assert_eq!(get_net_port(TEN + 0x0002_0000, 0, &idx), Some((TEN, 8, 0)));
    assert_eq!(get_net_port(0x0b00_0000, 0, &idx), Some((0, 0, 0)));
}

#[test]
fn insertion_order_does_not_change_the_answer() {
    let mut up = PrefixIndex::new();
    up.insert(0, 0, 7);
    up.insert(12, TEN, 7);
    up.insert(30, TEN + 4, 7);
    let mut down = PrefixIndex::new();
    down.insert(30, TEN + 4, 7);
    down.insert(12, TEN, 7);
    down.insert(0, 0, 7);
    for ip in [TEN + 5, TEN + 8, TEN + 0x000f_ffff, TEN + 0x0010_0000, 1] {
        assert_eq!(get_net_port(ip, 7, &up), get_net_port(ip, 7, &down));
    }
    assert_eq!(get_net_port(TEN + 5, 7, &up), Some((TEN + 4, 30, 7)));
    assert_eq!(get_net_port(TEN + 8, 7, &up), Some((TEN, 12, 7)));
    assert_eq!(get_net_port(TEN + 0x0010_0000, 7, &up), Some((0, 0, 7)));
}

#[test]
fn inserting_twice_is_inserting_once() {
    let mut idx = PrefixIndex::new();
    idx.insert(24, TEN, 80);
    idx.insert(24, TEN, 80);
    assert_eq!(get_net_port(TEN + 1, 80, &idx), Some((TEN, 24, 80)));
    assert_eq!(get_net_port(TEN + 1, 81, &idx), None);
}

#[test]
fn same_address_at_two_lengths_keeps_both() {
    let mut idx = PrefixIndex::new();
    idx.insert(8, TEN, 0);
    idx.insert(16, TEN, 0);
    assert_eq!(get_net_port(TEN + 9, 0, &idx), Some((TEN, 16, 0)));
    assert_eq!(get_net_port(TEN + 0x0001_0000, 0, &idx), Some((TEN, 8, 0)));
}

#[test]
fn ports_are_looked_up_exactly() {
    let mut idx = PrefixIndex::new();
    idx.insert(24, TEN, 0);
    idx.insert(16, TEN, 443);
    assert_eq!(get_net_port(TEN + 3, 443, &idx), Some((TEN, 16, 443)));
    assert_eq!(get_net_port(TEN + 3, 0, &idx), Some((TEN, 24, 0)));
    assert_eq!(get_net_port(TEN + 3, 65_535, &idx), None);
}

#[test]
fn an_unmasked_entry_is_never_found() {
    let mut idx = PrefixIndex::new();
    idx.insert(24, TEN + 9, 0);
    assert_eq!(get_net_port(TEN + 9, 0, &idx), None);
}

#[test]
fn host_entries_and_the_catch_all_entry() {
    let mut idx = PrefixIndex::new();
    idx.insert(32, u32::MAX, 1);
    idx.insert(0, 0, 1);
    assert_eq!(get_net_port(u32::MAX, 1, &idx), Some((u32::MAX, 32, 1)));
    assert_eq!(get_net_port(u32::MAX - 1, 1, &idx), Some((0, 0, 1)));
}
