use stormlight_mod::bridge::{pack_ptr_len, unpack_ptr_len};

#[test]
fn ptr_len_round_trips_through_the_packed_u64() {
    let samples: [u32; 8] = [0, 1, 2, 255, 65_536, 0x7fff_ffff, 0xdead_beef, u32::MAX];
    for &ptr in &samples {
        for &len in &samples {
            assert_eq!(unpack_ptr_len(pack_ptr_len(ptr, len)), (ptr, len));
        }
    }
}

#[test]
fn packing_puts_the_pointer_in_the_high_half() {
    assert_eq!(pack_ptr_len(1, 2), (1u64 << 32) | 2);
    assert_eq!(pack_ptr_len(0, 0), 0);
    assert_eq!(unpack_ptr_len(0xffff_ffff_0000_0001), (u32::MAX, 1));
}
