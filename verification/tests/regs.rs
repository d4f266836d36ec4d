use nvme_firmware::regs::cmbloc::{BIR_MASK, BIR_SHIFT, OFST_MASK, OFST_SHIFT};
use nvme_firmware::regs::cmbmsc::{CBA_MASK, CBA_SHIFT, CMSE, CRE};
use nvme_firmware::regs::cmbsz::{
    CQS, LISTS, RDS, SQS, SZU_MASK, SZU_SHIFT, SZ_MASK, SZ_SHIFT, WDS,
};
use nvme_firmware::regs::{build_cap, cap, cmbsts, cmbsz, Reg};

#[test]
fn build_cap_sets_cmbs_only_when_supported() {
    let no_cmb = build_cap(128, false);
    let with_cmb = build_cap(128, true);
    assert_eq!(no_cmb & cap::CMBS, 0);
    assert_ne!(with_cmb & cap::CMBS, 0);
    assert_eq!(no_cmb, with_cmb & !cap::CMBS);
    assert_eq!(cap::CMBS, 1u64 << 57);
}

#[test]
fn cmbsz_field_offsets_match_spec() {
    assert_eq!(SQS, 1 << 0);
    assert_eq!(CQS, 1 << 1);
    assert_eq!(LISTS, 1 << 2);
    assert_eq!(RDS, 1 << 3);
    assert_eq!(WDS, 1 << 4);
    assert_eq!(SZU_SHIFT, 8);
    assert_eq!(SZU_MASK, 0xf << 8);
    assert_eq!(SZ_SHIFT, 12);
    assert_eq!(SZ_MASK, 0xf_ffff << 12);
    let szu = 0u32;
    let sz = 512u32;
    let v = (szu << SZU_SHIFT) | (sz << SZ_SHIFT) | RDS | WDS | SQS | CQS | LISTS;
    assert_eq!((v & SZU_MASK) >> SZU_SHIFT, 0);
    assert_eq!((v & SZ_MASK) >> SZ_SHIFT, 512);
    assert_ne!(v & SQS, 0);
    assert_ne!(v & RDS, 0);
    assert_ne!(v & WDS, 0);
    assert_eq!(v, 0x0020_001f);
}

#[test]
fn cmbsz_unit_bytes_encoding() {
    assert_eq!(cmbsz::unit_bytes(0), 4 * 1024);
    assert_eq!(cmbsz::unit_bytes(1), 64 * 1024);
    assert_eq!(cmbsz::unit_bytes(2), 1024 * 1024);
    assert_eq!(cmbsz::unit_bytes(3), 16 * 1024 * 1024);
}

#[test]
fn cmbloc_field_offsets_match_spec() {
    assert_eq!(BIR_MASK, 0x7);
    assert_eq!(OFST_SHIFT, 12);
    let v = (2u32 << BIR_SHIFT) | (0u32 << OFST_SHIFT);
    assert_eq!((v & BIR_MASK) >> BIR_SHIFT, 2);
    assert_eq!((v & OFST_MASK) >> OFST_SHIFT, 0);
}

#[test]
fn cmbmsc_field_offsets_match_spec() {
    assert_eq!(CRE, 1);
    assert_eq!(CMSE, 1 << 1);
    assert_eq!(CBA_SHIFT, 12);
    assert_eq!(CBA_MASK, !0xfffu64);
    let cba = 0x8000_0000u64;
    let v = (cba & CBA_MASK) | CMSE | CRE;
    assert_ne!(v & CRE, 0);
    assert_ne!(v & CMSE, 0);
    assert_eq!(v & CBA_MASK, cba);
}

#[test]
fn cmbsts_cbai_bit() {
    assert_eq!(cmbsts::CBAI, 1);
}

#[test]
fn cap_holds_each_field() {
    assert_eq!(build_cap(128, false), 0x20_0a01_007f);
    assert_eq!(build_cap(1, false), 0x20_0a01_0000);
    assert_eq!(build_cap(65536, true), 0x0200_0020_0a01_ffff);
}

#[test]
fn largest_size_unit() {
    assert_eq!(cmbsz::unit_bytes(12), 1 << 60);
}

#[test]
fn register_offsets() {
    assert_eq!(Reg::Cap.offset(), 0x00);
    assert_eq!(Reg::Csts.offset(), 0x1c);
    assert_eq!(Reg::Bpinfo.offset(), 0x40);
    assert_eq!(Reg::Cmbmsc.offset(), 0x50);
    assert_eq!(Reg::Pmrsts.offset(), 0xe08);
}
