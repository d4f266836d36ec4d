use nvme_firmware::controller::prp::{dispatch_segs, page_size, prp2_role, tier, total_pages};
use nvme_firmware::controller::prp::{DispatchSegs, Prp2Role, PrpTier};
use nvme_firmware::regs::NVME_PAGE_SIZE;

#[test]
fn offset_zero_matches_legacy() {
    let page = NVME_PAGE_SIZE;
    for &total in &[1u64, 8, 4095, 4096, 4097, 8192, 8208, 12288, 131072] {
        let legacy_pages = total.div_ceil(page) as u32;
        assert_eq!(total_pages(0, total), legacy_pages, "total_pages O=0 total={total}");
        let mut sum = 0u64;
        for i in 0..legacy_pages {
            let sz = page_size(i, 0, total) as u64;
            let legacy_sz = if i == legacy_pages - 1 {
                total - (i as u64) * page
            } else {
                page
            };
            assert_eq!(sz, legacy_sz, "page_size O=0 total={total} idx={i}");
            sum += sz;
        }
        assert_eq!(sum, total);
    }
}

#[test]
fn offset_nonzero_segments_sum_to_total() {
    let page = NVME_PAGE_SIZE;
    for &offset in &[1u64, 100, 2048, 4088, 4095] {
        for &total in &[1u64, 8, 4096, 8208, 12288, 100000] {
            let n = total_pages(offset, total);
            let mut sum = 0u64;
            for i in 0..n {
                sum += page_size(i, offset, total) as u64;
            }
            assert_eq!(sum, total);
            assert_eq!(page_size(0, offset, total) as u64, (page - offset).min(total));
            if n >= 3 {
                assert_eq!(page_size(1, offset, total), page as u32);
            }
        }
    }
}

#[test]
fn tier_selection() {
    let page = NVME_PAGE_SIZE;
    assert_eq!(tier(0, page), PrpTier::Single);
    assert_eq!(tier(0, page + 1), PrpTier::Dual);
    assert_eq!(tier(0, 2 * page), PrpTier::Dual);
    assert_eq!(tier(0, 2 * page + 1), PrpTier::List);
    assert_eq!(tier(100, page - 100), PrpTier::Single);
    assert_eq!(tier(100, page - 100 + 1), PrpTier::Dual);
    assert_eq!(tier(100, page - 100 + page), PrpTier::Dual);
    assert_eq!(tier(100, page - 100 + page + 1), PrpTier::List);
}

#[test]
fn inline_block_4104_tiers() {
    assert_eq!(tier(0, 4104), PrpTier::Dual);
    assert_eq!(page_size(0, 0, 4104), 4096);
    assert_eq!(page_size(1, 0, 4104), 8);
    assert_eq!(tier(100, 4104), PrpTier::Dual);
    assert_eq!(page_size(0, 100, 4104), 3996);
    assert_eq!(page_size(1, 100, 4104), 108);
    assert_eq!(tier(4090, 4104), PrpTier::List);
    assert_eq!(page_size(0, 4090, 4104), 6);
    assert_eq!(page_size(1, 4090, 4104), 4096);
    assert_eq!(page_size(2, 4090, 4104), 2);
}

#[test]
fn prp2_role_matches_tier() {
    let page = NVME_PAGE_SIZE;
    for &offset in &[0u64, 1, 100, 2048, 4088, 4095] {
        for &total in &[1u64, 8, 4096, 4104, 8192, 8208, 12288, 100000] {
            let expect = match tier(offset, total) {
                PrpTier::Single => Prp2Role::Unused,
                PrpTier::Dual => Prp2Role::DataPage,
                PrpTier::List => Prp2Role::ListPage,
            };
            assert_eq!(prp2_role(offset, total), expect, "offset={offset} total={total}");
        }
    }
    assert_eq!(prp2_role(0, page), Prp2Role::Unused);
    assert_eq!(prp2_role(0, 2 * page), Prp2Role::DataPage);
    assert_eq!(prp2_role(0, 2 * page + 1), Prp2Role::ListPage);
}

#[test]
fn dispatch_segs_variants() {
    let page = NVME_PAGE_SIZE;
    assert_eq!(
        dispatch_segs(0x4000, 0x5000, 4096),
        DispatchSegs::Single {
            prp1: 0x4000,
            len: 4096
        }
    );
    assert_eq!(
        dispatch_segs(0x4000, 0x5000, 2 * page),
        DispatchSegs::Dual {
            prp1: 0x4000,
            len0: 4096,
            prp2: 0x5000,
            len1: 4096
        }
    );
    let prp1 = 0x4000 + 100;
    assert_eq!(
        dispatch_segs(prp1, 0x5000, 4096),
        DispatchSegs::Dual {
            prp1,
            len0: (page - 100) as u32,
            prp2: 0x5000,
            len1: 100
        }
    );
    let prp1b = 0x4000 + 100;
    assert_eq!(
        dispatch_segs(prp1b, 0x9000, 4104),
        DispatchSegs::Dual {
            prp1: prp1b,
            len0: 3996,
            prp2: 0x9000,
            len1: 108
        }
    );
    let prp1c = 0x4000 + 4090;
    assert_eq!(
        dispatch_segs(prp1c, 0x9000, 4104),
        DispatchSegs::List {
            prp1: prp1c,
            first_len: 6
        }
    );
    assert_eq!(
        dispatch_segs(0x4000, 0x9000, 2 * page + 1),
        DispatchSegs::List {
            prp1: 0x4000,
            first_len: 4096
        }
    );
}

#[test]
fn nothing_beyond_the_last_segment() {
    assert_eq!(page_size(2, 0, 8192), 0);
    assert_eq!(page_size(u32::MAX, 4095, 1), 0);
    assert_eq!(total_pages(17, 0), 0);
    assert_eq!(tier(17, 0), PrpTier::Single);
}

#[test]
fn enormous_transfers_need_a_list() {
    assert_eq!(tier(0, 1 << 44), PrpTier::List);
    assert_eq!(tier(0, u64::MAX), PrpTier::List);
}
