use zomkill::chain::{displace, PointerChain, SlotLayout, SlotTable};

#[test]
fn displace_adds_within_the_address_space() {
    assert_eq!(displace(0x1000, 0x868), 0x1868);
    assert_eq!(displace(0, 0), 0);
    assert_eq!(displace(0x0075_5E0C, 0), 0x0075_5E0C);
}

#[test]
fn displace_wraps_at_the_top() {
    assert_eq!(displace(0xFFFF_FFFF, 1), 0);
    assert_eq!(displace(0xFFFF_FFF0, 0x20), 0x10);
    assert_eq!(displace(0xFFFF_FFFF, 0xFFFF_FFFF), 0xFFFF_FFFE);
}

#[test]
fn chain_keeps_base_and_offsets() {
    let chain = PointerChain::new(0x0075_5E0C, vec![0x868, 0x5578]);
    assert_eq!(chain.base_address, 0x0075_5E0C);
    assert_eq!(chain.offsets, vec![0x868, 0x5578]);
    assert_eq!(chain.depth(), 2);
    assert_eq!(PointerChain::new(7, vec![]).depth(), 0);
}

#[test]
fn chain_duplicate_is_equal_and_leaves_the_original() {
    let chain = PointerChain::new(0x10, vec![1, 2, 3]);
    let copy = chain.duplicate();
    assert_eq!(copy.base_address, 0x10);
    assert_eq!(copy.offsets, vec![1, 2, 3]);
    assert_eq!(chain.offsets, vec![1, 2, 3]);
}

#[test]
fn slot_addresses_follow_the_formula() {
    let table = SlotTable::new(PointerChain::new(0, vec![]), 10, 0x50, 0x70);
    let base = 0x2000_0000u32;
    let list = table.slot_addresses(base);
    assert_eq!(list.len(), 10);
    for i in 0..10u32 {
        assert_eq!(list[i as usize], base + 0x70 + i * 0x50);
        assert_eq!(table.slot_address(base, i), base + 0x70 + i * 0x50);
    }
    assert_eq!(list[0], 0x2000_0070);
    assert_eq!(list[9], 0x2000_0340);
}

#[test]
fn slot_addresses_of_an_empty_table() {
    let table = SlotTable::new(PointerChain::new(0, vec![]), 0, 0x50, 0x70);
    assert!(table.slot_addresses(0x1234).is_empty());
}

#[test]
fn slot_addresses_wrap_like_any_address() {
    let layout = SlotLayout { slot_count: 3, slot_stride: 0x8000_0000, slot_base_offset: 0x10 };
    assert_eq!(layout.addresses(0xFFFF_FFF8), vec![0x8, 0x8000_0008, 0x8]);
    assert_eq!(layout.slot_address(0xFFFF_FFFF, 0xFFFF_FFFF), {
        let wide = 0xFFFF_FFFFu64 + 0x10 + 0xFFFF_FFFFu64 * 0x8000_0000u64;
        (wide % 0x1_0000_0000) as u32
    });
}

#[test]
fn table_layout_and_duplicate() {
    let table = SlotTable::new(PointerChain::new(0x40, vec![4, 8]), 10, 0x50, 0x70);
    assert_eq!(
        table.layout(),
        SlotLayout { slot_count: 10, slot_stride: 0x50, slot_base_offset: 0x70 }
    );
    let copy = table.duplicate();
    assert_eq!(copy.chain.base_address, 0x40);
    assert_eq!(copy.chain.offsets, vec![4, 8]);
    assert_eq!(copy.layout(), table.layout());
}
