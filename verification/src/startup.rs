//! Decisions made before the controller runs: the transport, the controller memory
//! buffer, and whether to try to connect once more.
use vstd::prelude::*;

verus! {

/// How the controller memory buffer is to be provided.
#[derive(Debug, Clone, Copy, PartialEq, Eq, Structural)]
pub enum CmbMode {
    /// Not at all.
    Off,
    /// By forwarding every access.
    Trap,
    /// By memory that the client maps.
    Mapped,
}

/// What the controller is attached to.
#[derive(Debug, Clone, Copy, PartialEq, Eq, Structural)]
pub enum TransportKind {
    /// A socket whose client maps guest memory.
    VfioUser,
    /// A TCP connection, which has no BARs.
    Tcp,
    /// A virtual machine socket, whose client cannot map memory.
    Vsock,
}

/// The mode that is used, and what the user should hear of it.
#[derive(Debug, Clone, Copy, PartialEq, Eq)]
pub struct CmbNegotiation {
    pub effective: CmbMode,
    pub warning: Option<&'static str>,
}

/// The mode that is used where `requested` was asked for: a mapped buffer needs a client
/// that maps memory.
pub open spec fn effective_mode(requested: CmbMode, transport: TransportKind) -> CmbMode {
    if requested != CmbMode::Mapped {
        requested
    } else {
        match transport {
            TransportKind::VfioUser => CmbMode::Mapped,
            TransportKind::Tcp => CmbMode::Off,
            TransportKind::Vsock => CmbMode::Trap,
        }
    }
}

/// See `effective_mode`; there is a warning exactly where the mode used is another than
/// the one asked for.
pub fn negotiate_cmb_mode(requested: CmbMode, transport: TransportKind) -> (r: CmbNegotiation)
    ensures
        r.effective == effective_mode(requested, transport),
        r.effective == requested ==> r.warning is None,
        r.effective != requested ==> r.warning is Some && (r.warning->0)@ == (match r.effective {
            CmbMode::Off => "map CMB 需 vfio-user transport：TCP 无 PCIe BAR，CMB 不适用（设计 §6）→ 关闭 CMB（off）"@,
            _ => "map CMB 需 client 能 mmap region fd：OpenHCL VTL2 underhill 无 MemoryMapper（设计 §5）→ 降级 trap-based CMB（功能正确，非零拷贝）"@,
        }),
{
    match requested {
        CmbMode::Off => CmbNegotiation { effective: CmbMode::Off, warning: None },
        CmbMode::Trap => CmbNegotiation { effective: CmbMode::Trap, warning: None },
        CmbMode::Mapped => match transport {
            TransportKind::VfioUser => CmbNegotiation { effective: CmbMode::Mapped, warning: None },
            TransportKind::Tcp => CmbNegotiation {
                effective: CmbMode::Off,
                warning: Some("map CMB 需 vfio-user transport：TCP 无 PCIe BAR，CMB 不适用（设计 §6）→ 关闭 CMB（off）"),
            },
            TransportKind::Vsock => CmbNegotiation {
                effective: CmbMode::Trap,
                warning: Some(
                    "map CMB 需 client 能 mmap region fd：OpenHCL VTL2 underhill 无 MemoryMapper（设计 §5）→ 降级 trap-based CMB（功能正确，非零拷贝）",
                ),
            },
        },
    }
}

/// Without a client that maps memory the mode used is never a mapped one.
pub proof fn law_map_only_over_vfio_user(requested: CmbMode, transport: TransportKind)
    ensures
        effective_mode(requested, transport) == CmbMode::Mapped <==> requested == CmbMode::Mapped
            && transport == TransportKind::VfioUser,
{
}

/// The BAR that clients expect the controller memory buffer in.
pub const CMB_SUPPORTED_BIR: u8 = 2;

/// Why the controller memory buffer was not set up.
#[derive(Debug, Clone, Copy, PartialEq, Eq, Structural)]
pub enum CmbError {
    /// No client expects it in this BAR.
    UnsupportedBir { bir: u8 },
    /// The transport cannot map memory.
    MapUnavailable,
}

/// What is to be done to set up the controller memory buffer.
#[derive(Debug, Clone, Copy, PartialEq, Eq, Structural)]
pub enum CmbAction {
    Nothing,
    /// Enable it with memory of the controller's own.
    EnableInternal { size: u64, bir: u8 },
    /// Enable it with memory that the client maps.
    EnableMapped { size: u64, bir: u8 },
}

/// Only BAR 2 will do.
pub fn validate_cmb_bir(bir: u8) -> (r: Result<(), CmbError>)
    ensures
        r == (if bir == CMB_SUPPORTED_BIR {
            Ok::<(), CmbError>(())
        } else {
            Err(CmbError::UnsupportedBir { bir })
        }),
{
    if bir != CMB_SUPPORTED_BIR {
        return Err(CmbError::UnsupportedBir { bir });
    }
    Ok(())
}

/// How to set up the controller memory buffer in `mode`, which is never `Mapped` here.
pub fn apply_cmb_trap_or_off(mode: CmbMode, size: u64, bir: u8) -> (r: Result<CmbAction, CmbError>)
    ensures
        r == (match mode {
            CmbMode::Off => Ok::<CmbAction, CmbError>(CmbAction::Nothing),
            CmbMode::Trap => if bir == CMB_SUPPORTED_BIR {
                Ok(CmbAction::EnableInternal { size, bir })
            } else {
                Err(CmbError::UnsupportedBir { bir })
            },
            CmbMode::Mapped => Err(CmbError::MapUnavailable),
        }),
{
    match mode {
        CmbMode::Off => Ok(CmbAction::Nothing),
        CmbMode::Trap => match validate_cmb_bir(bir) {
            Ok(()) => Ok(CmbAction::EnableInternal { size, bir }),
            Err(e) => Err(e),
        },
        CmbMode::Mapped => Err(CmbError::MapUnavailable),
    }
}

/// How to set up the controller memory buffer for a client that maps memory.
pub fn apply_cmb_vfio_user(mode: CmbMode, size: u64, bir: u8) -> (r: Result<CmbAction, CmbError>)
    ensures
        r == (match mode {
            CmbMode::Off => Ok::<CmbAction, CmbError>(CmbAction::Nothing),
            _ => if bir != CMB_SUPPORTED_BIR {
                Err(CmbError::UnsupportedBir { bir })
            } else if mode == CmbMode::Trap {
                Ok(CmbAction::EnableInternal { size, bir })
            } else {
                Ok(CmbAction::EnableMapped { size, bir })
            },
        }),
{
    match mode {
        CmbMode::Mapped => match validate_cmb_bir(bir) {
            Ok(()) => Ok(CmbAction::EnableMapped { size, bir }),
            Err(e) => Err(e),
        },
        _ => apply_cmb_trap_or_off(mode, size, bir),
    }
}

/// What the arguments choose: a vfio-user socket comes before a TCP address, and a
/// virtual machine socket is left where there is neither.
pub fn select_transport(has_vfio_user_sock: bool, has_tcp_addr: bool) -> (r: TransportKind)
    ensures
        r == (if has_vfio_user_sock {
            TransportKind::VfioUser
        } else if has_tcp_addr {
            TransportKind::Tcp
        } else {
            TransportKind::Vsock
        }),
{
    if has_vfio_user_sock {
        TransportKind::VfioUser
    } else if has_tcp_addr {
        TransportKind::Tcp
    } else {
        TransportKind::Vsock
    }
}

/// Whether to try once more after `attempt` attempts failed; 0 retries mean no end.
pub fn retry_connect(attempt: u32, retries: u32) -> (r: bool)
    ensures
        r == (retries == 0 || attempt < retries),
{
    retries == 0 || attempt < retries
}

} // verus!
