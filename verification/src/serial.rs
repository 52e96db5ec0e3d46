//! The SVC_SERIAL binary protocol (raw frames): a one-byte command or response tag
//! followed by its payload, multi-byte values little-endian.

use vstd::prelude::*;
use vstd::string::StringSliceAdditionalSpecFns;
use crate::frame::{push_bytes, le16};

verus! {

/// Serial service command tags (request to the serial node). The wire tag of a command
/// is `code()`; a cast with `as u8` gives its declaration index, not the tag.
#[derive(Debug, Clone, Copy, PartialEq, Eq)]
pub enum SerialCmd {
    /// List connected USB serial devices.
    ListDevices,
    /// Connect to a device. Payload: [baud:u32 LE][device_index:u8].
    Connect,
    /// Disconnect from the current device.
    Disconnect,
    /// Start capture; requires a prior Connect.
    StartCapture,
    /// Stop capture.
    StopCapture,
    /// Read the last N bytes of scrollback. Payload: [len:u32 LE].
    ReadBytes,
    /// Read the last N lines of scrollback. Payload: [count:u32 LE].
    ReadLines,
    /// Write raw bytes to the serial port.
    WriteRaw,
    /// Detailed USB device info. Payload: [device_index:u8].
    DeviceInfo,
    /// Flash an ESP32/ESP32-S3 via the ROM bootloader.
    /// Payload: [chip:u8][firmware_len:u32 LE][firmware...].
    FlashESP,
    /// Flash via the stub loader; same payload as FlashESP.
    FlashESPStub,
}

/// Serial service response tags (serial node to requester). The wire tag of a response
/// is `code()`; a cast with `as u8` gives its declaration index, not the tag.
#[derive(Debug, Clone, Copy, PartialEq, Eq)]
pub enum SerialResp {
    /// Device list: [count:u8] then per device [vid:u16 LE][pid:u16 LE][name_len:u8][name].
    DeviceList,
    Connected,
    Disconnected,
    CaptureStarted,
    CaptureStopped,
    /// Scrollback data: [len:u32 LE][bytes].
    ScrollbackData,
    /// Flash progress: [percent:u8][stage_len:u8][stage].
    FlashProgress,
    FlashDone,
    /// Error: [msg_len:u16 LE][msg].
    Error,
}

/// ESP chip variants of the FlashESP command. The wire code of a chip is
/// `code_spec()` (ESP32 0, ESP32-S3 1), which is also its declaration index.
#[derive(Debug, Clone, Copy, PartialEq, Eq)]
pub enum EspChip {
    ESP32,
    ESP32S3,
}

impl SerialCmd {
    /// The wire tag of a command.
    pub open spec fn code_spec(self) -> u8 {
        match self {
            SerialCmd::ListDevices => 0x01,
            SerialCmd::Connect => 0x02,
            SerialCmd::Disconnect => 0x03,
            SerialCmd::StartCapture => 0x04,
            SerialCmd::StopCapture => 0x05,
            SerialCmd::ReadBytes => 0x06,
            SerialCmd::ReadLines => 0x07,
            SerialCmd::WriteRaw => 0x08,
            SerialCmd::DeviceInfo => 0x09,
            SerialCmd::FlashESP => 0x10,
            SerialCmd::FlashESPStub => 0x18,
        }
    }

    /// The wire tag of a command.
    pub fn code(self) -> (r: u8)
        ensures
            r == self.code_spec(),
    {
        match self {
            SerialCmd::ListDevices => 0x01,
            SerialCmd::Connect => 0x02,
            SerialCmd::Disconnect => 0x03,
            SerialCmd::StartCapture => 0x04,
            SerialCmd::StopCapture => 0x05,
            SerialCmd::ReadBytes => 0x06,
            SerialCmd::ReadLines => 0x07,
            SerialCmd::WriteRaw => 0x08,
            SerialCmd::DeviceInfo => 0x09,
            SerialCmd::FlashESP => 0x10,
            SerialCmd::FlashESPStub => 0x18,
        }
    }

    /// The command with wire tag `v`, if any.
    pub fn from_u8(v: u8) -> (r: Option<SerialCmd>)
        ensures
            r matches Some(c) ==> c.code_spec() == v,
            r is None ==> forall|c: SerialCmd| c.code_spec() != v,
    {
        match v {
            0x01 => Some(SerialCmd::ListDevices),
            0x02 => Some(SerialCmd::Connect),
            0x03 => Some(SerialCmd::Disconnect),
            0x04 => Some(SerialCmd::StartCapture),
            0x05 => Some(SerialCmd::StopCapture),
            0x06 => Some(SerialCmd::ReadBytes),
            0x07 => Some(SerialCmd::ReadLines),
            0x08 => Some(SerialCmd::WriteRaw),
            0x09 => Some(SerialCmd::DeviceInfo),
            0x10 => Some(SerialCmd::FlashESP),
            0x18 => Some(SerialCmd::FlashESPStub),
            _ => None,
        }
    }
}

impl SerialResp {
    /// The wire tag of a response.
    pub open spec fn code_spec(self) -> u8 {
        match self {
            SerialResp::DeviceList => 0x81,
            SerialResp::Connected => 0x82,
            SerialResp::Disconnected => 0x83,
            SerialResp::CaptureStarted => 0x84,
            SerialResp::CaptureStopped => 0x85,
            SerialResp::ScrollbackData => 0x86,
            SerialResp::FlashProgress => 0x90,
            SerialResp::FlashDone => 0x91,
            SerialResp::Error => 0xFF,
        }
    }

    /// The wire tag of a response.
    pub fn code(self) -> (r: u8)
        ensures
            r == self.code_spec(),
    {
        match self {
            SerialResp::DeviceList => 0x81,
            SerialResp::Connected => 0x82,
            SerialResp::Disconnected => 0x83,
            SerialResp::CaptureStarted => 0x84,
            SerialResp::CaptureStopped => 0x85,
            SerialResp::ScrollbackData => 0x86,
            SerialResp::FlashProgress => 0x90,
            SerialResp::FlashDone => 0x91,
            SerialResp::Error => 0xFF,
        }
    }

    /// The response with wire tag `v`, if any.
    pub fn from_u8(v: u8) -> (r: Option<SerialResp>)
        ensures
            r matches Some(c) ==> c.code_spec() == v,
            r is None ==> forall|c: SerialResp| c.code_spec() != v,
    {
        match v {
            0x81 => Some(SerialResp::DeviceList),
            0x82 => Some(SerialResp::Connected),
            0x83 => Some(SerialResp::Disconnected),
            0x84 => Some(SerialResp::CaptureStarted),
            0x85 => Some(SerialResp::CaptureStopped),
            0x86 => Some(SerialResp::ScrollbackData),
            0x90 => Some(SerialResp::FlashProgress),
            0x91 => Some(SerialResp::FlashDone),
            0xFF => Some(SerialResp::Error),
            _ => None,
        }
    }
}

impl EspChip {
    /// The wire code of a chip.
    pub open spec fn code_spec(self) -> u8 {
        match self {
            EspChip::ESP32 => 0,
            EspChip::ESP32S3 => 1,
        }
    }

    /// The chip with wire code `v`, if any.
    pub fn from_u8(v: u8) -> (r: Option<EspChip>)
        ensures
            r matches Some(c) ==> c.code_spec() == v,
            r is None ==> forall|c: EspChip| c.code_spec() != v,
    {
        match v {
            0 => Some(EspChip::ESP32),
            1 => Some(EspChip::ESP32S3),
            _ => None,
        }
    }
}

/// Every command's tag reads back as that command.
pub proof fn lemma_serial_cmd_code_roundtrip(c: SerialCmd, d: SerialCmd)
    ensures
        c.code_spec() == d.code_spec() ==> c == d,
{
}

/// Every response's tag reads back as that response.
pub proof fn lemma_serial_resp_code_roundtrip(c: SerialResp, d: SerialResp)
    ensures
        c.code_spec() == d.code_spec() ==> c == d,
{
}

/// The wire tags of the commands, as the serial protocol fixes them: ListDevices 0x01,
/// Connect 0x02, Disconnect 0x03, StartCapture 0x04, StopCapture 0x05, ReadBytes 0x06,
/// ReadLines 0x07, WriteRaw 0x08, DeviceInfo 0x09, FlashESP 0x10, FlashESPStub 0x18;
/// no other byte is a command tag.
pub proof fn lemma_serial_cmd_tags(v: u8)
    ensures
        SerialCmd::ListDevices.code_spec() == 0x01,
        SerialCmd::Connect.code_spec() == 0x02,
        SerialCmd::Disconnect.code_spec() == 0x03,
        SerialCmd::StartCapture.code_spec() == 0x04,
        SerialCmd::StopCapture.code_spec() == 0x05,
        SerialCmd::ReadBytes.code_spec() == 0x06,
        SerialCmd::ReadLines.code_spec() == 0x07,
        SerialCmd::WriteRaw.code_spec() == 0x08,
        SerialCmd::DeviceInfo.code_spec() == 0x09,
        SerialCmd::FlashESP.code_spec() == 0x10,
        SerialCmd::FlashESPStub.code_spec() == 0x18,
        (exists|c: SerialCmd| c.code_spec() == v) <==> (1 <= v <= 9 || v == 0x10 || v == 0x18),
{
    if 1 <= v <= 9 || v == 0x10 || v == 0x18 {
        let c = if v == 1 {
            SerialCmd::ListDevices
        } else if v == 2 {
            SerialCmd::Connect
        } else if v == 3 {
            SerialCmd::Disconnect
        } else if v == 4 {
            SerialCmd::StartCapture
        } else if v == 5 {
            SerialCmd::StopCapture
        } else if v == 6 {
            SerialCmd::ReadBytes
        } else if v == 7 {
            SerialCmd::ReadLines
        } else if v == 8 {
            SerialCmd::WriteRaw
        } else if v == 9 {
            SerialCmd::DeviceInfo
        } else if v == 0x10 {
            SerialCmd::FlashESP
        } else {
            SerialCmd::FlashESPStub
        };
        assert(c.code_spec() == v);
    }
}

/// The wire tags of the responses, as the serial protocol fixes them: DeviceList 0x81,
/// Connected 0x82, Disconnected 0x83, CaptureStarted 0x84, CaptureStopped 0x85,
/// ScrollbackData 0x86, FlashProgress 0x90, FlashDone 0x91, Error 0xFF; no other byte
/// is a response tag.
pub proof fn lemma_serial_resp_tags(v: u8)
    ensures
        SerialResp::DeviceList.code_spec() == 0x81,
        SerialResp::Connected.code_spec() == 0x82,
        SerialResp::Disconnected.code_spec() == 0x83,
        SerialResp::CaptureStarted.code_spec() == 0x84,
        SerialResp::CaptureStopped.code_spec() == 0x85,
        SerialResp::ScrollbackData.code_spec() == 0x86,
        SerialResp::FlashProgress.code_spec() == 0x90,
        SerialResp::FlashDone.code_spec() == 0x91,
        SerialResp::Error.code_spec() == 0xFF,
        (exists|c: SerialResp| c.code_spec() == v) <==> (0x81 <= v <= 0x86 || v == 0x90 || v == 0x91 || v == 0xFF),
{
    if 0x81 <= v <= 0x86 || v == 0x90 || v == 0x91 || v == 0xFF {
        let c = if v == 0x81 {
            SerialResp::DeviceList
        } else if v == 0x82 {
            SerialResp::Connected
        } else if v == 0x83 {
            SerialResp::Disconnected
        } else if v == 0x84 {
            SerialResp::CaptureStarted
        } else if v == 0x85 {
            SerialResp::CaptureStopped
        } else if v == 0x86 {
            SerialResp::ScrollbackData
        } else if v == 0x90 {
            SerialResp::FlashProgress
        } else if v == 0x91 {
            SerialResp::FlashDone
        } else {
            SerialResp::Error
        };
        assert(c.code_spec() == v);
    }
}

/// The chip codes of FlashESP: ESP32 0, ESP32-S3 1; no other byte names a chip.
pub proof fn lemma_esp_chip_codes(v: u8)
    ensures
        EspChip::ESP32.code_spec() == 0,
        EspChip::ESP32S3.code_spec() == 1,
        (exists|c: EspChip| c.code_spec() == v) <==> v <= 1,
{
    if v == 0 {
        assert(EspChip::ESP32.code_spec() == v);
    } else if v == 1 {
        assert(EspChip::ESP32S3.code_spec() == v);
    }
}

/// Builds a serial command payload: the tag, then `data`.
pub fn serial_cmd(cmd: SerialCmd, data: &[u8]) -> (r: Vec<u8>)
    ensures
        r@ == seq![cmd.code_spec()] + data@,
{
    let mut buf: Vec<u8> = Vec::new();
    buf.push(cmd.code());
    push_bytes(&mut buf, data, 0, data.len());
    assert(data@.subrange(0, data@.len() as int) =~= data@);
    assert(buf@ =~= seq![cmd.code_spec()] + data@);
    buf
}

/// Builds a serial response payload: the tag, then `data`.
pub fn serial_resp(resp: SerialResp, data: &[u8]) -> (r: Vec<u8>)
    ensures
        r@ == seq![resp.code_spec()] + data@,
{
    let mut buf: Vec<u8> = Vec::new();
    buf.push(resp.code());
    push_bytes(&mut buf, data, 0, data.len());
    assert(data@.subrange(0, data@.len() as int) =~= data@);
    assert(buf@ =~= seq![resp.code_spec()] + data@);
    buf
}

/// Builds a serial error response: the Error tag, the message length in bytes
/// (low 16 bits, little-endian), then the UTF-8 message.
pub fn serial_error(msg: &str) -> (r: Vec<u8>)
    ensures
        r@ == seq![0xFFu8] + le16(msg.spec_bytes().len() as int % 0x10000) + msg.spec_bytes(),
{
    let bytes = msg.as_bytes();
    let n = (bytes.len() % 0x10000) as u16;
    let mut buf: Vec<u8> = Vec::new();
    buf.push(SerialResp::Error.code());
    buf.push((n % 256) as u8);
    buf.push((n / 256) as u8);
    push_bytes(&mut buf, bytes, 0, bytes.len());
    assert(bytes@.subrange(0, bytes@.len() as int) =~= bytes@);
    assert(buf@ =~= seq![0xFFu8] + le16(msg.spec_bytes().len() as int % 0x10000) + msg.spec_bytes());
    buf
}

} // verus!
