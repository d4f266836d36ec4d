use nvme_firmware::pi::{crc16_t10dif, PiCheck, PiTuple, PrChk};

#[test]
fn crc16_zeros() {
    assert_eq!(crc16_t10dif(&[0u8; 512]), 0);
}

#[test]
fn crc16_known_vector() {
    let v = crc16_t10dif(b"123456789");
    assert_eq!(v, 0xD0DB, "T10 DIF CRC16 of '123456789' = 0xD0DB");
}

#[test]
fn pi_round_trip() {
    let data = b"hello world hello world hello wo".repeat(16);
    let lba = 42u64;
    let pi = PiTuple::compute(&data, lba, 1);
    assert_eq!(pi.verify(&data, lba, 1, PrChk::all()), PiCheck::Pass);
    let mut bad = data.clone();
    bad[0] ^= 0xff;
    assert_eq!(pi.verify(&bad, lba, 1, PrChk::all()), PiCheck::GuardFail);
    assert_eq!(pi.verify(&data, lba + 1, 1, PrChk::all()), PiCheck::RefTagFail);
    assert_eq!(pi.verify(&data, lba + 1, 3, PrChk::all()), PiCheck::Pass);
}

#[test]
fn pi_prchk_gating() {
    let data = b"abcdefgh".repeat(64);
    let lba = 7u64;
    let pi = PiTuple::compute(&data, lba, 1);
    let mut bad = data.clone();
    bad[0] ^= 0xff;
    let none = PrChk {
        guard: false,
        app_tag: false,
        ref_tag: false,
    };
    assert_eq!(pi.verify(&bad, lba, 1, none), PiCheck::Pass);
    assert_eq!(pi.verify(&data, lba + 1, 1, none), PiCheck::Pass);
    let guard_only = PrChk {
        guard: true,
        app_tag: false,
        ref_tag: false,
    };
    assert_eq!(pi.verify(&bad, lba, 1, guard_only), PiCheck::GuardFail);
    assert_eq!(pi.verify(&data, lba + 1, 1, guard_only), PiCheck::Pass);
    let ref_only = PrChk {
        guard: false,
        app_tag: false,
        ref_tag: true,
    };
    assert_eq!(pi.verify(&data, lba + 1, 1, ref_only), PiCheck::RefTagFail);
    assert_eq!(pi.verify(&bad, lba, 1, ref_only), PiCheck::Pass);
}

#[test]
fn prchk_from_cdw12_bit_layout() {
    assert_eq!(PrChk::from_cdw12(1 << 28), PrChk { guard: true, app_tag: false, ref_tag: false });
    assert_eq!(PrChk::from_cdw12(1 << 27), PrChk { guard: false, app_tag: true, ref_tag: false });
    assert_eq!(PrChk::from_cdw12(1 << 26), PrChk { guard: false, app_tag: false, ref_tag: true });
    assert_eq!(PrChk::from_cdw12(1 << 29), PrChk { guard: false, app_tag: false, ref_tag: false });
}

#[test]
fn pi_bytes_round_trip() {
    let p = PiTuple {
        guard: 0xABCD,
        app_tag: 0x1234,
        ref_tag: 0xDEAD_BEEF,
    };
    let b = p.to_bytes();
    assert_eq!(PiTuple::from_bytes(&b), p);
}

#[test]
fn pi_compute_known_ref_tag_and_guard() {
    let data = [0u8; 512];
    assert_eq!(PiTuple::compute(&data, 0x1_2345_6789, 1).ref_tag, 0x2345_6789);
    assert_eq!(PiTuple::compute(&data, 0xFFFF_FFFF_0000_0001, 2).ref_tag, 0x0000_0001);
    assert_eq!(PiTuple::compute(&data, 0x1_2345_6789, 3).ref_tag, 0);
    assert_eq!(PiTuple::compute(&data, 0, 1).guard, crc16_t10dif(&data));
}

#[test]
fn crc_agrees_with_an_independent_one() {
    let reference = crc::Crc::<u16>::new(&crc::CRC_16_T10_DIF);
    let mut data: Vec<u8> = Vec::new();
    let mut x: u32 = 1;
    for _ in 0..600 {
        assert_eq!(crc16_t10dif(&data), reference.checksum(&data));
        x = x.wrapping_mul(1_664_525).wrapping_add(1_013_904_223);
        data.push((x >> 24) as u8);
    }
}

#[test]
fn crc_changes_with_any_byte() {
    let data = [0x5au8; 64];
    for i in 0..64 {
        let mut changed = data;
        changed[i] ^= 0x01;
        assert_ne!(crc16_t10dif(&data), crc16_t10dif(&changed));
    }
}

#[test]
fn tuple_is_big_endian() {
    let t = PiTuple { guard: 0x0102, app_tag: 0x0304, ref_tag: 0x0506_0708 };
    assert_eq!(t.to_bytes(), [1, 2, 3, 4, 5, 6, 7, 8]);
    assert_eq!(PiTuple::from_bytes(&[1, 2, 3, 4, 5, 6, 7, 8]), t);
}

#[test]
fn application_tag_is_never_checked() {
    let data = [7u8; 512];
    let mut t = PiTuple::compute(&data, 9, 2);
    t.app_tag = 0xffff;
    assert_eq!(t.verify(&data, 9, 2, PrChk::all()), PiCheck::Pass);
}

#[test]
fn checks_have_status_codes() {
    assert_eq!(PiCheck::Pass.to_sc(), None);
    assert_eq!(PiCheck::GuardFail.to_sc(), Some(0x82));
    assert_eq!(PiCheck::AppTagFail.to_sc(), Some(0x83));
    assert_eq!(PiCheck::RefTagFail.to_sc(), Some(0x84));
}
