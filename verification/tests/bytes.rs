use nvme_firmware::bytes::{
    push_le16, push_le32, read_le16, read_le32, read_le64, same_bytes, u32_to_le,
};
use nvme_firmware::controller::shadow::poll_key;
use nvme_firmware::controller::transfer::parse_prp_list;
use nvme_firmware::pi::crc16_t10dif;
use nvme_firmware::regs::Reg;

#[test]
fn little_endian() {
    let b = [0xff, 1, 2, 3, 4, 5, 6, 7, 8];
    assert_eq!(read_le16(&b, 1), 0x0201);
    assert_eq!(read_le32(&b, 1), 0x0403_0201);
    assert_eq!(read_le64(&b, 1), 0x0807_0605_0403_0201);
    let mut v = vec![9u8];
    push_le16(&mut v, 0x0201);
    push_le32(&mut v, 0x0605_0403);
    assert_eq!(v, vec![9, 1, 2, 3, 4, 5, 6]);
    assert_eq!(u32_to_le(0xdead_beef), vec![0xef, 0xbe, 0xad, 0xde]);
    for x in [0u32, 1, 0x8000_0000, u32::MAX, 0x1234_5678] {
        assert_eq!(read_le32(&u32_to_le(x), 0), x);
    }
}

#[test]
fn comparing_bytes() {
    assert!(same_bytes(&[], &[]));
    assert!(same_bytes(&[1, 2], &[1, 2]));
    assert!(!same_bytes(&[1, 2], &[1, 3]));
    assert!(!same_bytes(&[1, 2], &[1, 2, 3]));
}

#[test]
fn prp_lists_keep_every_address() {
    let entries = [0u64, 0x1000, u64::MAX, 0, 0xffff_ffff_f000];
    let bytes: Vec<u8> = entries.iter().flat_map(|e| e.to_le_bytes()).collect();
    assert_eq!(parse_prp_list(&bytes), entries);
}

#[test]
fn zeroes_have_no_checksum() {
    for n in [0usize, 1, 512, 4096] {
        assert_eq!(crc16_t10dif(&vec![0u8; n]), 0);
    }
}

#[test]
fn doorbells_have_keys_of_their_own() {
    let mut seen = Vec::new();
    for qid in [0u16, 1, 2, 256, u16::MAX] {
        for is_cq in [false, true] {
            seen.push(poll_key(qid, is_cq));
        }
    }
    assert_eq!(seen, vec![0, 1, 2, 3, 4, 5, 512, 513, 131070, 131071]);
}

#[test]
fn registers_do_not_overlap() {
    let all = [
        Reg::Cap,
        Reg::Vs,
        Reg::Intms,
        Reg::Intmc,
        Reg::Cc,
        Reg::Csts,
        Reg::Aqa,
        Reg::Asq,
        Reg::Acq,
        Reg::Cmbloc,
        Reg::Cmbsz,
        Reg::Bpinfo,
        Reg::Bprsel,
        Reg::Bpmbl,
        Reg::Cmbmsc,
        Reg::Cmbsts,
        Reg::Pmrcap,
        Reg::Pmrctl,
        Reg::Pmrsts,
    ];
    let offsets: Vec<u64> = all.iter().map(|r| r.offset()).collect();
    assert!(offsets.windows(2).all(|w| w[0] < w[1]));
    assert_eq!(offsets[1], 0x08);
    assert_eq!(offsets[7], 0x28);
    assert_eq!(offsets[9], 0x38);
}
