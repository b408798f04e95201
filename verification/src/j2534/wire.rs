//! The messages and parameters a PassThru device exchanges with the tester.

use vstd::prelude::*;

use crate::bytes::{be32_at, be_bytes, lemma_be_round_trip, read_u32_be, u32_be_bytes};
use crate::text::{hex_upper, push_hex};

verus! {

/// How many bytes a message can hold.
pub const DATA_LEN: usize = 4128;

/// A message as SAE J2534 04.04 lays it out.
#[derive(Debug, Clone, Copy)]
pub struct PassThruMsg {
    pub protocol_id: u32,
    pub rx_status: u32,
    pub tx_flags: u32,
    pub timestamp: u32,
    pub data_size: u32,
    pub extra_data_index: u32,
    pub data: [u8; 4128],
}

/// A message as a value.
pub struct Msg {
    pub protocol_id: u32,
    pub rx_status: u32,
    pub tx_flags: u32,
    pub timestamp: u32,
    pub data_size: u32,
    pub extra_data_index: u32,
    pub data: Seq<u8>,
}

impl View for PassThruMsg {
    type V = Msg;

    open spec fn view(&self) -> Msg {
        Msg {
            protocol_id: self.protocol_id,
            rx_status: self.rx_status,
            tx_flags: self.tx_flags,
            timestamp: self.timestamp,
            data_size: self.data_size,
            extra_data_index: self.extra_data_index,
            data: self.data@,
        }
    }
}

/// So many zeroes.
pub open spec fn zeroes(n: int) -> Seq<u8> {
    Seq::new(n as nat, |i: int| 0u8)
}

/// The empty message.
pub open spec fn blank_msg() -> Msg {
    Msg {
        protocol_id: 0,
        rx_status: 0,
        tx_flags: 0,
        timestamp: 0,
        data_size: 0,
        extra_data_index: 0,
        data: zeroes(4128),
    }
}

/// The message that carries a payload under a CAN identifier.
pub open spec fn msg_of(protocol_id: u32, can_id: u32, payload: Seq<u8>) -> Msg {
    Msg {
        protocol_id,
        data_size: (4 + payload.len()) as u32,
        extra_data_index: (4 + payload.len()) as u32,
        data: be_bytes(can_id as int) + payload + zeroes(4124 - payload.len()),
        ..blank_msg()
    }
}

impl Default for PassThruMsg {
    fn default() -> (r: Self)
        ensures
            r@ == blank_msg(),
    {
        let r = PassThruMsg {
            protocol_id: 0,
            rx_status: 0,
            tx_flags: 0,
            timestamp: 0,
            data_size: 0,
            extra_data_index: 0,
            data: [0u8;4128],
        };
        assert(r@.data == zeroes(4128));
        r
    }
}

impl PassThruMsg {
    /// Build a message carrying `payload` after a 4-byte big-endian CAN
    /// identifier. Used for both raw CAN and ISO 15765 frames.
    pub fn new(protocol_id: u32, can_id: u32, payload: &[u8]) -> (r: Self)
        requires
            payload@.len() <= 4124,
        ensures
            r@ == msg_of(protocol_id, can_id, payload@),
    {
        let id_bytes = u32_be_bytes(can_id);
        let mut data: [u8; 4128] = [0u8;4128];
        let mut i: usize = 0;
        while i < 4
            invariant
                i <= 4,
                data@.len() == 4128,
                id_bytes@ == be_bytes(can_id as int),
                forall|j: int| 0 <= j < i ==> data@[j] == id_bytes@[j],
                forall|j: int| i <= j < 4128 ==> data@[j] == 0,
            decreases 4 - i,
        {
            data[i] = id_bytes[i];
            i = i + 1;
        }
        let mut k: usize = 0;
        while k < payload.len()
            invariant
                k <= payload@.len() <= 4124,
                data@.len() == 4128,
                id_bytes@ == be_bytes(can_id as int),
                forall|j: int| 0 <= j < 4 ==> data@[j] == id_bytes@[j],
                forall|j: int| 0 <= j < k ==> data@[4 + j] == #[trigger] payload@[j],
                forall|j: int| 4 + k <= j < 4128 ==> data@[j] == 0,
            decreases payload@.len() - k,
        {
            data[4 + k] = payload[k];
            k = k + 1;
        }
        let data_size: u32 = (4 + payload.len()) as u32;
        let r = PassThruMsg {
            protocol_id,
            rx_status: 0,
            tx_flags: 0,
            timestamp: 0,
            data_size,
            extra_data_index: data_size,
            data,
        };
        assert(r@.data == be_bytes(can_id as int) + payload@ + zeroes(4124 - payload@.len())) by {
            let want = be_bytes(can_id as int) + payload@ + zeroes(4124 - payload@.len());
            assert(want.len() == 4128);
            assert forall|j: int| 0 <= j < 4128 implies data@[j] == #[trigger] want[j] by {
                if j >= 4 && j < 4 + payload@.len() {
                    assert(data@[4 + (j - 4)] == payload@[j - 4]);
                }
            }
        }
        r
    }

    /// The same message with other transmit flags.
    pub fn with_flags(self, tx_flags: u32) -> (r: Self)
        ensures
            r@ == (Msg { tx_flags, ..self@ }),
    {
        PassThruMsg { tx_flags, ..self }
    }
}

/// A parameter of a channel.
#[derive(Debug, Clone, Copy, PartialEq, Eq, Structural)]
pub struct SConfig {
    pub parameter: u32,
    pub value: u32,
}

/// The parameters handed to a device in one call.
#[derive(Debug, Clone)]
pub struct SConfigList {
    pub num_of_params: u32,
    pub params: Vec<SConfig>,
}

/// The status of a call that worked.
pub const STATUS_NOERROR: i32 = 0x00;

/// Nothing is in the receive buffer.
pub const ERR_BUFFER_EMPTY: i32 = 0x10;

/// Nothing came in time.
pub const ERR_TIMEOUT: i32 = 0x09;

/// The call that sets parameters of a channel.
pub const IOCTL_SET_CONFIG: u32 = 0x04;

/// The call that clears the receive buffer of a channel.
pub const IOCTL_CLEAR_RX_BUFFER: u32 = 0x08;

/// The raw CAN protocol.
pub const PROTOCOL_CAN: u32 = 5;

/// The ISO 15765 protocol.
pub const PROTOCOL_ISO15765: u32 = 6;

/// A filter that lets frames pass.
pub const FILTER_PASS: u32 = 1;

/// A filter that also answers with flow control.
pub const FILTER_FLOW_CONTROL: u32 = 3;

/// Pad outbound CAN frames to eight bytes.
pub const ISO15765_FRAME_PAD: u32 = 0x0040;

/// Minimum separation time of transmitted consecutive frames, as the encoded
/// byte.
pub const IOCTL_PARAM_STMIN_TX: u32 = 0x23;

/// Separation time asked of the sender of received frames.
pub const IOCTL_PARAM_ISO15765_STMIN: u32 = 0x1F;

/// The list that sets a single parameter.
pub fn set_config(parameter: u32, value: u32) -> (r: SConfigList)
    ensures
        r.num_of_params == 1,
        r.params@ == seq![SConfig { parameter, value }],
{
    let mut params: Vec<SConfig> = Vec::new();
    params.push(SConfig { parameter, value });
    assert(params@ == seq![SConfig { parameter, value }]);
    SConfigList { num_of_params: 1, params }
}

/// The name of a status.
pub open spec fn status_name(ret: i32) -> Seq<char> {
    match ret {
        0x00 => "STATUS_NOERROR"@,
        0x01 => "ERR_NOT_SUPPORTED"@,
        0x02 => "ERR_INVALID_CHANNEL_ID"@,
        0x03 => "ERR_INVALID_PROTOCOL_ID"@,
        0x04 => "ERR_NULL_PARAMETER"@,
        0x05 => "ERR_INVALID_IOCTL_VALUE"@,
        0x06 => "ERR_INVALID_FLAGS"@,
        0x07 => "ERR_FAILED"@,
        0x08 => "ERR_DEVICE_NOT_CONNECTED"@,
        0x09 => "ERR_TIMEOUT"@,
        0x0A => "ERR_INVALID_MSG"@,
        0x0B => "ERR_INVALID_TIME_INTERVAL"@,
        0x0C => "ERR_EXCEEDED_LIMIT"@,
        0x0D => "ERR_INVALID_MSG_ID"@,
        0x0E => "ERR_DEVICE_IN_USE"@,
        0x0F => "ERR_INVALID_IOCTL_ID"@,
        0x10 => "ERR_BUFFER_EMPTY"@,
        0x11 => "ERR_BUFFER_FULL"@,
        0x12 => "ERR_BUFFER_OVERFLOW"@,
        0x13 => "ERR_PIN_INVALID"@,
        0x14 => "ERR_CHANNEL_IN_USE"@,
        0x15 => "ERR_MSG_PROTOCOL_ID"@,
        0x16 => "ERR_INVALID_FILTER_ID"@,
        0x17 => "ERR_NO_FLOW_CONTROL"@,
        0x18 => "ERR_NOT_UNIQUE"@,
        0x19 => "ERR_INVALID_BAUDRATE"@,
        0x1A => "ERR_INVALID_DEVICE_ID"@,
        _ => "ERR_UNKNOWN"@,
    }
}

/// The name of a status.
pub fn status_str(ret: i32) -> (s: &'static str)
    ensures
        s@ == status_name(ret),
{
    match ret {
        0x00 => "STATUS_NOERROR",
        0x01 => "ERR_NOT_SUPPORTED",
        0x02 => "ERR_INVALID_CHANNEL_ID",
        0x03 => "ERR_INVALID_PROTOCOL_ID",
        0x04 => "ERR_NULL_PARAMETER",
        0x05 => "ERR_INVALID_IOCTL_VALUE",
        0x06 => "ERR_INVALID_FLAGS",
        0x07 => "ERR_FAILED",
        0x08 => "ERR_DEVICE_NOT_CONNECTED",
        0x09 => "ERR_TIMEOUT",
        0x0A => "ERR_INVALID_MSG",
        0x0B => "ERR_INVALID_TIME_INTERVAL",
        0x0C => "ERR_EXCEEDED_LIMIT",
        0x0D => "ERR_INVALID_MSG_ID",
        0x0E => "ERR_DEVICE_IN_USE",
        0x0F => "ERR_INVALID_IOCTL_ID",
        0x10 => "ERR_BUFFER_EMPTY",
        0x11 => "ERR_BUFFER_FULL",
        0x12 => "ERR_BUFFER_OVERFLOW",
        0x13 => "ERR_PIN_INVALID",
        0x14 => "ERR_CHANNEL_IN_USE",
        0x15 => "ERR_MSG_PROTOCOL_ID",
        0x16 => "ERR_INVALID_FILTER_ID",
        0x17 => "ERR_NO_FLOW_CONTROL",
        0x18 => "ERR_NOT_UNIQUE",
        0x19 => "ERR_INVALID_BAUDRATE",
        0x1A => "ERR_INVALID_DEVICE_ID",
        _ => "ERR_UNKNOWN",
    }
}

/// How a failed call is told: its status in hexadecimal and by name.
pub open spec fn failure(what: Seq<char>, ret: i32) -> Seq<char> {
    what + " failed: 0x"@ + hex_upper((ret as u32) as nat, 2) + " ("@ + status_name(ret) + ")"@
}

/// How a failed call is told.
pub fn describe_failure(what: &str, ret: i32) -> (s: String)
    ensures
        s@ == failure(what@, ret),
{
    let mut s: String = what.to_owned();
    s.push_str(" failed: 0x");
    push_hex(&mut s, (ret as u32) as u64, 2);
    s.push_str(" (");
    s.push_str(status_str(ret));
    s.push_str(")");
    s
}

/// The byte a separation time in microseconds is encoded to, as ISO 15765-2 lays
/// it down: whole milliseconds up to 127, or hundreds of microseconds below one
/// millisecond. What lies below 100 microseconds or above 127 milliseconds goes to
/// the nearest boundary.
pub open spec fn stmin_byte(us: int) -> int {
    if us < 50 {
        0
    } else if us < 100 {
        0xF1
    } else if us < 1_000 {
        0xF0 + us / 100
    } else if us < 127_000 {
        us / 1_000
    } else {
        127
    }
}

/// The separation time in microseconds that a byte stands for.
pub open spec fn stmin_us(byte: int) -> int {
    if byte <= 0x7F {
        byte * 1_000
    } else {
        (byte - 0xF0) * 100
    }
}

/// Encode a separation time in microseconds.
pub fn us_to_stmin_byte(us: u32) -> (r: u8)
    ensures
        r == stmin_byte(us as int),
{
    if us < 50 {
        0x00
    } else if us < 100 {
        0xF1
    } else if us < 1_000 {
        0xF0 + (us / 100) as u8
    } else {
        let ms: u32 = us / 1_000;
        if ms < 127 {
            ms as u8
        } else {
            127
        }
    }
}

/// The encoded separation time is never longer than the one that was asked for,
/// unless it was rounded up to the 100 microseconds that are the least the
/// encoding has, and is exactly that where the encoding has it.
pub proof fn law_stmin_is_never_longer_than_asked(us: u32)
    requires
        us < 50 || 100 <= us,
    ensures
        0 <= stmin_us(stmin_byte(us as int)) <= us,
        us % 100 == 0 && us < 1_000 ==> stmin_us(stmin_byte(us as int)) == us,
        us % 1_000 == 0 && us <= 127_000 ==> stmin_us(stmin_byte(us as int)) == us,
{
}

/// Outside of what the encoding covers, no time that it has is nearer than the one
/// that is given.
pub proof fn law_stmin_goes_to_the_nearest_boundary(us: u32, byte: u8)
    requires
        us < 100 || us > 127_000,
        byte <= 0x7F || 0xF1 <= byte <= 0xF9,
    ensures
        ({
            let given = stmin_us(stmin_byte(us as int)) - us;
            let other = stmin_us(byte as int) - us;
            (if given < 0 { -given } else { given }) <= (if other < 0 { -other } else { other })
        }),
{
}

/// What a read brought.
#[derive(Debug, Clone)]
pub enum Received {
    /// A frame, with the identifier it came under.
    Frame { arb_id: u32, data: Vec<u8> },
    /// Something that is no frame; reading goes on.
    Skipped,
    /// Nothing came; reading ends where it was asked to.
    Nothing,
    /// The channel is gone.
    Disconnected,
}

/// What a read brought, as a value.
pub enum Arrival {
    Frame(u32, Seq<u8>),
    Skipped,
    Nothing,
    Disconnected,
}

impl View for Received {
    type V = Arrival;

    open spec fn view(&self) -> Arrival {
        match self {
            Received::Frame { arb_id, data } => Arrival::Frame(*arb_id, data@),
            Received::Skipped => Arrival::Skipped,
            Received::Nothing => Arrival::Nothing,
            Received::Disconnected => Arrival::Disconnected,
        }
    }
}

/// What a read of one message means. On an ISO 15765 channel a message with a
/// receive status is the echo of a transmission.
pub open spec fn arrival(ret: i32, count: u32, msg: Msg, isotp: bool) -> Arrival {
    if ret == STATUS_NOERROR && count > 0 {
        if msg.data_size < 4 || (isotp && msg.rx_status != 0) {
            Arrival::Skipped
        } else {
            Arrival::Frame(
                be32_at(msg.data, 0) as u32,
                msg.data.subrange(4, msg.data_size as int),
            )
        }
    } else if ret == ERR_TIMEOUT || ret == ERR_BUFFER_EMPTY || ret == STATUS_NOERROR {
        Arrival::Nothing
    } else {
        Arrival::Disconnected
    }
}

/// What a read of one message means.
pub fn classify_read(ret: i32, count: u32, msg: &PassThruMsg, isotp: bool) -> (r: Received)
    requires
        ret == STATUS_NOERROR && count > 0 ==> msg.data_size <= 4128,
    ensures
        r@ == arrival(ret, count, msg@, isotp),
{
    if ret == STATUS_NOERROR && count > 0 {
        if msg.data_size < 4 || (isotp && msg.rx_status != 0) {
            return Received::Skipped;
        }
        let len: usize = msg.data_size as usize;
        let arb_id: u32 = read_u32_be(msg.data.as_slice(), 0);
        let data = crate::bytes::copy_range(msg.data.as_slice(), 4, len);
        Received::Frame { arb_id, data }
    } else if ret == ERR_TIMEOUT || ret == ERR_BUFFER_EMPTY || ret == STATUS_NOERROR {
        Received::Nothing
    } else {
        Received::Disconnected
    }
}

/// Whether the receiving thread goes on after a read.
pub fn keeps_reading(received: &Received, stop: bool) -> (r: bool)
    ensures
        r == match received@ {
            Arrival::Frame(_, _) => true,
            Arrival::Skipped => true,
            Arrival::Nothing => !stop,
            Arrival::Disconnected => false,
        },
{
    match received {
        Received::Frame { .. } => true,
        Received::Skipped => true,
        Received::Nothing => !stop,
        Received::Disconnected => false,
    }
}

/// The message that transmits a payload: padded on an ISO 15765 channel.
pub fn outgoing(can_id: u32, payload: &[u8], isotp: bool) -> (r: PassThruMsg)
    requires
        payload@.len() <= 4124,
    ensures
        r@ == (if isotp {
            Msg {
                tx_flags: ISO15765_FRAME_PAD,
                ..msg_of(PROTOCOL_ISO15765, can_id, payload@)
            }
        } else {
            msg_of(PROTOCOL_CAN, can_id, payload@)
        }),
{
    if isotp {
        PassThruMsg::new(PROTOCOL_ISO15765, can_id, payload).with_flags(ISO15765_FRAME_PAD)
    } else {
        PassThruMsg::new(PROTOCOL_CAN, can_id, payload)
    }
}

/// What became of a transmission on an ISO 15765 channel.
pub fn sent(ret: i32) -> (r: Result<(), String>)
    ensures
        match r {
            Ok(_) => ret == STATUS_NOERROR,
            Err(e) => ret != STATUS_NOERROR && e@ == failure("ISO15765 TX"@, ret),
        },
{
    if ret == STATUS_NOERROR {
        Ok(())
    } else {
        Err(describe_failure("ISO15765 TX", ret))
    }
}

/// Whether a transmission on a raw CAN channel is echoed to the receivers. The
/// echo is made here because many devices have none of their own.
pub fn echoes(ret: i32) -> (r: bool)
    ensures
        r == (ret == STATUS_NOERROR),
{
    ret == STATUS_NOERROR
}

/// What is packed into a message is read back from it: the identifier and the
/// payload.
pub proof fn law_messages_read_back(protocol_id: u32, can_id: u32, payload: Seq<u8>, isotp: bool)
    requires
        payload.len() <= 4124,
    ensures
        arrival(STATUS_NOERROR, 1, msg_of(protocol_id, can_id, payload), isotp) == Arrival::Frame(
            can_id,
            payload,
        ),
{
    let m = msg_of(protocol_id, can_id, payload);
    lemma_be_round_trip(m.data, 0, can_id as int);
    assert(m.data.subrange(4, m.data_size as int) == payload);
    assert(be32_at(m.data, 0) == can_id as int);
}

} // verus!
