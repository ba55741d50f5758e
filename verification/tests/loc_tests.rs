use ztar_rod::loc::{is_vaddr, Dma, Location};

#[test]
fn vaddr_has_top_byte_80() {
    assert!(is_vaddr(0x8024_0000));
    assert!(!is_vaddr(0x0024_0000));
    assert!(!is_vaddr(0x8124_0000));
}

#[test]
fn dma_translates_vaddr_to_rom_location() {
    let dma = Dma::new(0x1000, 0x2000, 0x8024_0000);
    let loc = dma.loc_at_vaddr(0x8024_0010);
    assert_eq!(loc, Location { base: 0x1000, offset: 0x10 });
    assert_eq!(dma.len(), 0x1000);
    assert_eq!(loc.add_offset(4).absolute(), Some(0x1014));
}
