use nvme_firmware::cmd::sc;
use nvme_firmware::sgl::{flatten_data_blocks, parse_sgl_list, resolve_sgl_address, subtype_to_sc};
use nvme_firmware::sgl::{SglDescriptor, SglFragment, SglType};

#[test]
fn parse_data_block() {
    let mut buf = [0u8; 16];
    buf[0..8].copy_from_slice(&0xDEAD_BEEF_u64.to_le_bytes());
    buf[8..12].copy_from_slice(&4096u32.to_le_bytes());
    buf[15] = 0x00;
    let d = SglDescriptor::parse(&buf).unwrap();
    assert_eq!(d.address, 0xDEAD_BEEF);
    assert_eq!(d.length, 4096);
    assert_eq!(d.sgl_type, SglType::DataBlock);
    assert_eq!(d.sub_type, 0);
}

#[test]
fn parse_bit_bucket() {
    let mut buf = [0u8; 16];
    buf[8..12].copy_from_slice(&512u32.to_le_bytes());
    buf[15] = 0x10;
    let d = SglDescriptor::parse(&buf).unwrap();
    assert_eq!(d.sgl_type, SglType::BitBucket);
    assert_eq!(d.length, 512);
}

#[test]
fn parse_segment_and_last() {
    let mut buf = [0u8; 16];
    buf[15] = 0x20;
    assert_eq!(SglDescriptor::parse(&buf).unwrap().sgl_type, SglType::Segment);
    buf[15] = 0x30;
    assert_eq!(SglDescriptor::parse(&buf).unwrap().sgl_type, SglType::LastSegment);
}

#[test]
fn reject_unknown_type() {
    let mut buf = [0u8; 16];
    buf[15] = 0xF0;
    assert!(SglDescriptor::parse(&buf).is_none());
}

#[test]
fn flatten_data_and_bit_bucket() {
    let descs = vec![
        SglDescriptor {
            address: 0x1000,
            length: 512,
            sgl_type: SglType::DataBlock,
            sub_type: 0,
        },
        SglDescriptor {
            address: 0,
            length: 128,
            sgl_type: SglType::BitBucket,
            sub_type: 0,
        },
        SglDescriptor {
            address: 0x2000,
            length: 512,
            sgl_type: SglType::DataBlock,
            sub_type: 0,
        },
    ];
    let frags = flatten_data_blocks(&descs).unwrap();
    assert_eq!(frags.len(), 3);
    match &frags[1] {
        SglFragment::BitBucket { length } => assert_eq!(*length, 128),
        _ => panic!("expected BitBucket"),
    }
}

#[test]
fn flatten_rejects_segment() {
    let descs = vec![SglDescriptor {
        address: 0x1000,
        length: 512,
        sgl_type: SglType::Segment,
        sub_type: 0,
    }];
    assert!(flatten_data_blocks(&descs).is_err());
}

#[test]
fn flatten_rejects_keyed_and_transport() {
    let descs = vec![SglDescriptor {
        address: 0,
        length: 0,
        sgl_type: SglType::KeyedDataBlock,
        sub_type: 0,
    }];
    assert!(flatten_data_blocks(&descs).is_err());
}

#[test]
fn from_byte_decodes_all_types() {
    assert_eq!(SglType::from_byte(0x00), Some(SglType::DataBlock));
    assert_eq!(SglType::from_byte(0x1f), Some(SglType::BitBucket));
    assert_eq!(SglType::from_byte(0x20), Some(SglType::Segment));
    assert_eq!(SglType::from_byte(0x30), Some(SglType::LastSegment));
    assert_eq!(SglType::from_byte(0x40), Some(SglType::KeyedDataBlock));
    assert_eq!(SglType::from_byte(0x50), Some(SglType::TransportSpecific));
    assert_eq!(SglType::from_byte(0x60), None);
    assert_eq!(SglType::from_byte(0xf0), None);
}

#[test]
fn parse_sgl_list_count_and_alignment() {
    assert!(parse_sgl_list(&[0u8; 17], None).is_err());
    assert!(parse_sgl_list(&[0u8; 15], None).is_err());
    let mut buf = vec![0u8; 48];
    buf[8..12].copy_from_slice(&512u32.to_le_bytes());
    buf[16 + 8..16 + 12].copy_from_slice(&1024u32.to_le_bytes());
    let descs = parse_sgl_list(&buf, None).unwrap();
    assert_eq!(descs.len(), 3);
    assert_eq!(descs[0].length, 512);
    assert_eq!(descs[1].length, 1024);
    let mut bad = vec![0u8; 16];
    bad[15] = 0x60;
    assert!(parse_sgl_list(&bad, None).is_err());
}

#[test]
fn subtype_to_sc_maps_each_subtype() {
    assert_eq!(subtype_to_sc(0, false), None);
    assert_eq!(subtype_to_sc(1, false), Some(sc::SGL_INVALID_USE_OF_CMB));
    for st in 2u8..=15 {
        assert_eq!(subtype_to_sc(st, false), Some(sc::SGL_DESCRIPTOR_TYPE_INVALID));
        assert_eq!(subtype_to_sc(st, true), Some(sc::SGL_DESCRIPTOR_TYPE_INVALID));
    }
}

#[test]
fn cmb_relative_subtype_allowed_and_rebased_when_cmb_enabled() {
    assert_eq!(subtype_to_sc(1, true), None);
    assert_eq!(subtype_to_sc(0, true), None);
    assert_eq!(subtype_to_sc(0, false), None);

    let cba = 0x8000_0000u64;
    let cmb = Some((cba, 2 * 1024 * 1024u64));
    assert_eq!(resolve_sgl_address(1, 0x1000, cmb), Ok(cba + 0x1000));
    assert_eq!(resolve_sgl_address(0, 0xDEAD_0000, cmb), Ok(0xDEAD_0000));
    assert_eq!(resolve_sgl_address(1, 0x1000, None), Ok(0x1000));
}

#[test]
fn resolve_sgl_address_rejects_offset_out_of_cmb_window() {
    let cba = 0x8000_0000u64;
    let size = 2 * 1024 * 1024u64;
    let cmb = Some((cba, size));
    assert_eq!(resolve_sgl_address(1, size - 1, cmb), Ok(cba + size - 1));
    assert_eq!(resolve_sgl_address(1, size, cmb), Err(sc::SGL_OFFSET_INVALID));
    assert_eq!(resolve_sgl_address(1, size + 0x1000, cmb), Err(sc::SGL_OFFSET_INVALID));
    assert_eq!(resolve_sgl_address(1, u64::MAX, cmb), Err(sc::SGL_OFFSET_INVALID));
    assert_eq!(resolve_sgl_address(0, cba + size + 1, cmb), Ok(cba + size + 1));
}

#[test]
fn parse_sgl_list_rejects_cmb_relative_subtype() {
    let mut cmb = [0u8; 16];
    cmb[8..12].copy_from_slice(&4096u32.to_le_bytes());
    cmb[15] = 0x01;
    assert_eq!(parse_sgl_list(&cmb, None).unwrap_err(), sc::SGL_INVALID_USE_OF_CMB);
    let mut addr = [0u8; 16];
    addr[8..12].copy_from_slice(&4096u32.to_le_bytes());
    addr[15] = 0x00;
    let ok = parse_sgl_list(&addr, None).unwrap();
    assert_eq!(ok.len(), 1);
    assert_eq!(ok[0].sub_type, 0);
    let mut rsvd = [0u8; 16];
    rsvd[15] = 0x02;
    assert_eq!(parse_sgl_list(&rsvd, None).unwrap_err(), sc::SGL_DESCRIPTOR_TYPE_INVALID);
}

#[test]
fn parse_sgl_list_rebases_cmb_relative_when_enabled() {
    let cba = 0x8000_0000u64;
    let cmb = Some((cba, 2 * 1024 * 1024u64));
    let mut d = [0u8; 16];
    d[0..8].copy_from_slice(&0x1000u64.to_le_bytes());
    d[8..12].copy_from_slice(&4096u32.to_le_bytes());
    d[15] = 0x01;
    let descs = parse_sgl_list(&d, cmb).unwrap();
    assert_eq!(descs.len(), 1);
    assert_eq!(descs[0].sub_type, 1);
    assert_eq!(descs[0].address, cba + 0x1000);
}

#[test]
fn first_refused_descriptor_decides() {
    let mut buf = vec![0u8; 48];
    buf[31] = 0x01;
    buf[47] = 0x60;
    assert_eq!(parse_sgl_list(&buf, None).unwrap_err(), sc::SGL_INVALID_USE_OF_CMB);
    buf[31] = 0x00;
    assert_eq!(parse_sgl_list(&buf, None).unwrap_err(), sc::SGL_DESCRIPTOR_TYPE_INVALID);
    assert_eq!(parse_sgl_list(&buf[..17], None).unwrap_err(), sc::INVALID_SGL_SEGMENT_DESCRIPTOR);
    buf[47] = 0x01;
    buf[32] = 0x10;
    assert_eq!(parse_sgl_list(&buf, Some((0, 16))).unwrap_err(), sc::SGL_OFFSET_INVALID);
}

#[test]
fn flatten_tells_why_not() {
    let mut d = SglDescriptor {
        address: 1,
        length: 2,
        sgl_type: SglType::DataBlock,
        sub_type: 1,
    };
    assert_eq!(
        flatten_data_blocks(&[d]),
        Err("SGL sub_type != 0 (only Address subtype supported)")
    );
    d.sub_type = 0;
    assert_eq!(flatten_data_blocks(&[d]), Ok(vec![SglFragment::Data { address: 1, length: 2 }]));
    d.sgl_type = SglType::LastSegment;
    assert_eq!(
        flatten_data_blocks(&[d]),
        Err("Segment/LastSegment must be expanded by caller before flatten")
    );
    d.sgl_type = SglType::TransportSpecific;
    assert_eq!(
        flatten_data_blocks(&[d]),
        Err("Keyed/Transport SGL not supported (NVMe-oF only)")
    );
}
