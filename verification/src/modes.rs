//! Logical rescue modes and the per-transport selector mapping.
//!
//! Each logical mode maps, per transport, to a distinct numeric selector:
//! a small alternate-setting index for USB, a 32-bit mode-identity code
//! for the SPI-mailbox emulation. The two mappings are exhaustive over the
//! enumeration, so adding a mode without deciding both is a compile error.

use vstd::prelude::*;

verus! {

/// A device-exposed rescue personality selectable during bootstrap.
#[derive(Clone, Copy, Debug, PartialEq, Eq, Structural)]
pub enum RescueMode {
    /// Plain firmware rescue, slot A.
    Rescue,
    /// Firmware rescue, slot B.
    RescueB,
    /// Device-identifier readout.
    DeviceId,
    /// Boot-log readout.
    BootLog,
    /// Boot-service request.
    BootSvcReq,
    /// Boot-service response.
    BootSvcRsp,
    /// Owner-block upload.
    OwnerBlock,
    /// Owner-page readout.
    GetOwnerPage0,
    /// A mode-identity code this tooling does not recognize.
    Other(u32),
}

/// A mode-selection failure.
#[derive(Debug)]
pub enum RescueError {
    /// The transport cannot serve this mode; carries the offending mode.
    BadMode(RescueMode),
}

/// The 32-bit mode-identity code of a logical mode (four ASCII bytes,
/// big-endian).
pub open spec fn spec_mode_code(m: RescueMode) -> u32 {
    match m {
        RescueMode::Rescue => 0x52455351,
        RescueMode::RescueB => 0x52455342,
        RescueMode::DeviceId => 0x4F544944,
        RescueMode::BootLog => 0x424C4F47,
        RescueMode::BootSvcReq => 0x42524551,
        RescueMode::BootSvcRsp => 0x42525350,
        RescueMode::OwnerBlock => 0x4F574E52,
        RescueMode::GetOwnerPage0 => 0x4F504730,
        RescueMode::Other(v) => v,
    }
}

/// The USB alternate-setting index serving a mode, if the USB transport
/// serves it. Request and response of the boot service share one setting,
/// as do the owner-block operations: the device multiplexes them.
pub open spec fn spec_usb_selector(m: RescueMode) -> Option<u8> {
    match m {
        RescueMode::Rescue => Some(0u8),
        RescueMode::RescueB => Some(1u8),
        RescueMode::DeviceId => Some(2u8),
        RescueMode::BootLog => Some(3u8),
        RescueMode::BootSvcReq => Some(4u8),
        RescueMode::BootSvcRsp => Some(4u8),
        RescueMode::OwnerBlock => Some(5u8),
        RescueMode::GetOwnerPage0 => Some(5u8),
        RescueMode::Other(_) => None,
    }
}

/// The mode-identity code the SPI-mailbox transport selects a mode with,
/// if it serves it. The same pairs of modes collapse as on USB, onto the
/// response and readout identities.
pub open spec fn spec_spi_selector(m: RescueMode) -> Option<u32> {
    match m {
        RescueMode::Rescue => Some(spec_mode_code(RescueMode::Rescue)),
        RescueMode::RescueB => Some(spec_mode_code(RescueMode::RescueB)),
        RescueMode::DeviceId => Some(spec_mode_code(RescueMode::DeviceId)),
        RescueMode::BootLog => Some(spec_mode_code(RescueMode::BootLog)),
        RescueMode::BootSvcReq => Some(spec_mode_code(RescueMode::BootSvcRsp)),
        RescueMode::BootSvcRsp => Some(spec_mode_code(RescueMode::BootSvcRsp)),
        RescueMode::OwnerBlock => Some(spec_mode_code(RescueMode::GetOwnerPage0)),
        RescueMode::GetOwnerPage0 => Some(spec_mode_code(RescueMode::GetOwnerPage0)),
        RescueMode::Other(_) => None,
    }
}

/// Translates a logical rescue mode into the transport-specific selector.
pub struct ModeMapper;

impl ModeMapper {
    /// The USB alternate-setting index for `mode`, or the offending mode.
    pub fn usb_selector(mode: RescueMode) -> (r: Result<u8, RescueError>)
        ensures
            match spec_usb_selector(mode) {
                Some(s) => r == Result::<u8, RescueError>::Ok(s),
                None => r == Result::<u8, RescueError>::Err(RescueError::BadMode(mode)),
            },
    {
        match mode {
            RescueMode::Rescue => Ok(0),
            RescueMode::RescueB => Ok(1),
            RescueMode::DeviceId => Ok(2),
            RescueMode::BootLog => Ok(3),
            RescueMode::BootSvcReq => Ok(4),
            RescueMode::BootSvcRsp => Ok(4),
            RescueMode::OwnerBlock => Ok(5),
            RescueMode::GetOwnerPage0 => Ok(5),
            RescueMode::Other(_) => Err(RescueError::BadMode(mode)),
        }
    }

    /// The SPI-mailbox mode-identity code for `mode`, or the offending
    /// mode.
    pub fn spi_selector(mode: RescueMode) -> (r: Result<u32, RescueError>)
        ensures
            match spec_spi_selector(mode) {
                Some(s) => r == Result::<u32, RescueError>::Ok(s),
                None => r == Result::<u32, RescueError>::Err(RescueError::BadMode(mode)),
            },
    {
        match mode {
            RescueMode::Rescue => Ok(0x52455351),
            RescueMode::RescueB => Ok(0x52455342),
            RescueMode::DeviceId => Ok(0x4F544944),
            RescueMode::BootLog => Ok(0x424C4F47),
            RescueMode::BootSvcReq => Ok(0x42525350),
            RescueMode::BootSvcRsp => Ok(0x42525350),
            RescueMode::OwnerBlock => Ok(0x4F504730),
            RescueMode::GetOwnerPage0 => Ok(0x4F504730),
            RescueMode::Other(_) => Err(RescueError::BadMode(mode)),
        }
    }
}

/// Selector-disjointness law: whenever the USB mapping serves a mode, the
/// SPI mapping serves it too, and the two selectors are never the same
/// number — the mappings are transport-specific and must not be assumed
/// interchangeable.
pub proof fn lemma_selectors_never_equal(m: RescueMode)
    ensures
        spec_usb_selector(m) is Some ==> spec_spi_selector(m) is Some,
        spec_usb_selector(m) is Some ==> spec_usb_selector(m)->0 as int != spec_spi_selector(
            m,
        )->0 as int,
{
}

} // verus!
