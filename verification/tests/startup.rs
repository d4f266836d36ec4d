use nvme_firmware::startup::{
    apply_cmb_trap_or_off, apply_cmb_vfio_user, negotiate_cmb_mode, retry_connect,
    select_transport, validate_cmb_bir,
};
use nvme_firmware::startup::{CmbAction, CmbError, CmbMode, TransportKind};

#[test]
fn negotiate_off_and_trap_no_downgrade() {
    for t in [TransportKind::VfioUser, TransportKind::Tcp, TransportKind::Vsock] {
        let off = negotiate_cmb_mode(CmbMode::Off, t);
        assert_eq!(off.effective, CmbMode::Off);
        assert!(off.warning.is_none());
        let trap = negotiate_cmb_mode(CmbMode::Trap, t);
        assert_eq!(trap.effective, CmbMode::Trap);
        assert!(trap.warning.is_none());
    }
}

#[test]
fn negotiate_map_downgrades_per_transport() {
    let vfio = negotiate_cmb_mode(CmbMode::Mapped, TransportKind::VfioUser);
    assert_eq!(vfio.effective, CmbMode::Mapped);
    assert!(vfio.warning.is_none());
    let tcp = negotiate_cmb_mode(CmbMode::Mapped, TransportKind::Tcp);
    assert_eq!(tcp.effective, CmbMode::Off);
    assert!(tcp.warning.is_some());
    let vsock = negotiate_cmb_mode(CmbMode::Mapped, TransportKind::Vsock);
    assert_eq!(vsock.effective, CmbMode::Trap);
    assert!(vsock.warning.is_some());
    assert_eq!(
        tcp.warning,
        Some("map CMB 需 vfio-user transport：TCP 无 PCIe BAR，CMB 不适用（设计 §6）→ 关闭 CMB（off）")
    );
    assert_eq!(
        vsock.warning,
        Some("map CMB 需 client 能 mmap region fd：OpenHCL VTL2 underhill 无 MemoryMapper（设计 §5）→ 降级 trap-based CMB（功能正确，非零拷贝）")
    );
}

#[test]
fn validate_cmb_bir_only_supports_2() {
    assert!(validate_cmb_bir(2).is_ok());
    for bir in [0u8, 1, 3, 4, 5] {
        assert!(validate_cmb_bir(bir).is_err());
    }
}

#[test]
fn setting_up_the_buffer() {
    assert_eq!(apply_cmb_trap_or_off(CmbMode::Off, 4096, 7), Ok(CmbAction::Nothing));
    assert_eq!(
        apply_cmb_trap_or_off(CmbMode::Trap, 4096, 2),
        Ok(CmbAction::EnableInternal { size: 4096, bir: 2 })
    );
    assert_eq!(
        apply_cmb_trap_or_off(CmbMode::Trap, 4096, 3),
        Err(CmbError::UnsupportedBir { bir: 3 })
    );
    assert_eq!(apply_cmb_trap_or_off(CmbMode::Mapped, 4096, 2), Err(CmbError::MapUnavailable));
    assert_eq!(
        apply_cmb_vfio_user(CmbMode::Mapped, 8192, 2),
        Ok(CmbAction::EnableMapped { size: 8192, bir: 2 })
    );
    assert_eq!(
        apply_cmb_vfio_user(CmbMode::Mapped, 8192, 0),
        Err(CmbError::UnsupportedBir { bir: 0 })
    );
    assert_eq!(
        apply_cmb_vfio_user(CmbMode::Trap, 8192, 2),
        Ok(CmbAction::EnableInternal { size: 8192, bir: 2 })
    );
}

#[test]
fn choosing_a_transport() {
    assert_eq!(select_transport(true, true), TransportKind::VfioUser);
    assert_eq!(select_transport(false, true), TransportKind::Tcp);
    assert_eq!(select_transport(false, false), TransportKind::Vsock);
}

#[test]
fn zero_retries_never_end() {
    assert!(retry_connect(1_000_000, 0));
    assert!(retry_connect(19, 20));
    assert!(!retry_connect(20, 20));
}
