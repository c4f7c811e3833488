//! Slimproto messages: the frames players send to the server (HELO, STAT,
//! IR, BUTN, ...) and the stream and gain commands the server sends back.
use vstd::prelude::*;
use vstd::string::StringSliceAdditionalSpecFns;
use crate::protocol::bytes::{
    be16, be16_bytes, be32, be32_bytes, be64, push_all, push_be16, push_be32, read_be16, read_be32,
    read_be64,
};
use crate::text::{hex_byte_lower, hex_lower, push_hex_byte, string_from_chars, string_of};

verus! {

/// Message opcodes (four ASCII bytes on the wire).
#[derive(Debug, Clone, Copy, PartialEq, Eq, Structural)]
pub enum Opcode {
    Helo,
    Stat,
    Ir,
    Butn,
    Anic,
    Body,
    Bye,
    Dbug,
    Dsco,
    Knob,
    Meta,
    Rawi,
    Resp,
    Setd,
    Ureq,
    Alss,
    Shut,
}

/// The four ASCII bytes of `a`, `b`, `c`, `d`.
pub open spec fn tag4(a: char, b: char, c: char, d: char) -> Seq<u8> {
    seq![a as u8, b as u8, c as u8, d as u8]
}

/// The wire bytes of each opcode.
pub open spec fn opcode_bytes(op: Opcode) -> Seq<u8> {
    match op {
        Opcode::Helo => tag4('H', 'E', 'L', 'O'),
        Opcode::Stat => tag4('S', 'T', 'A', 'T'),
        Opcode::Ir => tag4('I', 'R', ' ', ' '),
        Opcode::Butn => tag4('B', 'U', 'T', 'N'),
        Opcode::Anic => tag4('A', 'N', 'I', 'C'),
        Opcode::Body => tag4('B', 'O', 'D', 'Y'),
        Opcode::Bye => tag4('B', 'Y', 'E', '!'),
        Opcode::Dbug => tag4('D', 'B', 'U', 'G'),
        Opcode::Dsco => tag4('D', 'S', 'C', 'O'),
        Opcode::Knob => tag4('K', 'N', 'O', 'B'),
        Opcode::Meta => tag4('M', 'E', 'T', 'A'),
        Opcode::Rawi => tag4('R', 'A', 'W', 'I'),
        Opcode::Resp => tag4('R', 'E', 'S', 'P'),
        Opcode::Setd => tag4('S', 'E', 'T', 'D'),
        Opcode::Ureq => tag4('U', 'R', 'E', 'Q'),
        Opcode::Alss => tag4('A', 'L', 'S', 'S'),
        Opcode::Shut => tag4('S', 'H', 'U', 'T'),
    }
}

/// The opcode whose wire bytes are `b`, if any.
pub open spec fn opcode_of_bytes(b: Seq<u8>) -> Option<Opcode> {
    if b == opcode_bytes(Opcode::Helo) {
        Some(Opcode::Helo)
    } else if b == opcode_bytes(Opcode::Stat) {
        Some(Opcode::Stat)
    } else if b == opcode_bytes(Opcode::Ir) {
        Some(Opcode::Ir)
    } else if b == opcode_bytes(Opcode::Butn) {
        Some(Opcode::Butn)
    } else if b == opcode_bytes(Opcode::Anic) {
        Some(Opcode::Anic)
    } else if b == opcode_bytes(Opcode::Body) {
        Some(Opcode::Body)
    } else if b == opcode_bytes(Opcode::Bye) {
        Some(Opcode::Bye)
    } else if b == opcode_bytes(Opcode::Dbug) {
        Some(Opcode::Dbug)
    } else if b == opcode_bytes(Opcode::Dsco) {
        Some(Opcode::Dsco)
    } else if b == opcode_bytes(Opcode::Knob) {
        Some(Opcode::Knob)
    } else if b == opcode_bytes(Opcode::Meta) {
        Some(Opcode::Meta)
    } else if b == opcode_bytes(Opcode::Rawi) {
        Some(Opcode::Rawi)
    } else if b == opcode_bytes(Opcode::Resp) {
        Some(Opcode::Resp)
    } else if b == opcode_bytes(Opcode::Setd) {
        Some(Opcode::Setd)
    } else if b == opcode_bytes(Opcode::Ureq) {
        Some(Opcode::Ureq)
    } else if b == opcode_bytes(Opcode::Alss) {
        Some(Opcode::Alss)
    } else if b == opcode_bytes(Opcode::Shut) {
        Some(Opcode::Shut)
    } else {
        None
    }
}

fn tag_array(a: char, b: char, c: char, d: char) -> (r: [u8; 4])
    requires
        (a as u32) < 128,
        (b as u32) < 128,
        (c as u32) < 128,
        (d as u32) < 128,
    ensures
        r@ == tag4(a, b, c, d),
{
    let r = [a as u8, b as u8, c as u8, d as u8];
    assert(r@ =~= tag4(a, b, c, d));
    r
}

impl Opcode {
    /// The four wire bytes of this opcode.
    pub fn as_bytes(&self) -> (r: [u8; 4])
        ensures
            r@ == opcode_bytes(*self),
    {
        match self {
            Self::Helo => tag_array('H', 'E', 'L', 'O'),
            Self::Stat => tag_array('S', 'T', 'A', 'T'),
            Self::Ir => tag_array('I', 'R', ' ', ' '),
            Self::Butn => tag_array('B', 'U', 'T', 'N'),
            Self::Anic => tag_array('A', 'N', 'I', 'C'),
            Self::Body => tag_array('B', 'O', 'D', 'Y'),
            Self::Bye => tag_array('B', 'Y', 'E', '!'),
            Self::Dbug => tag_array('D', 'B', 'U', 'G'),
            Self::Dsco => tag_array('D', 'S', 'C', 'O'),
            Self::Knob => tag_array('K', 'N', 'O', 'B'),
            Self::Meta => tag_array('M', 'E', 'T', 'A'),
            Self::Rawi => tag_array('R', 'A', 'W', 'I'),
            Self::Resp => tag_array('R', 'E', 'S', 'P'),
            Self::Setd => tag_array('S', 'E', 'T', 'D'),
            Self::Ureq => tag_array('U', 'R', 'E', 'Q'),
            Self::Alss => tag_array('A', 'L', 'S', 'S'),
            Self::Shut => tag_array('S', 'H', 'U', 'T'),
        }
    }

    /// The opcode whose wire bytes are `bytes`; `None` for any other four bytes.
    pub fn from_bytes(bytes: &[u8; 4]) -> (r: Option<Self>)
        ensures
            r == opcode_of_bytes(bytes@),
    {
        let all = [
            Self::Helo, Self::Stat, Self::Ir, Self::Butn, Self::Anic, Self::Body, Self::Bye,
            Self::Dbug, Self::Dsco, Self::Knob, Self::Meta, Self::Rawi, Self::Resp, Self::Setd,
            Self::Ureq, Self::Alss, Self::Shut,
        ];
        let mut i: usize = 0;
        while i < 17
            invariant
                i <= 17,
                all@ == seq![
                    Opcode::Helo, Opcode::Stat, Opcode::Ir, Opcode::Butn, Opcode::Anic, Opcode::Body,
                    Opcode::Bye, Opcode::Dbug, Opcode::Dsco, Opcode::Knob, Opcode::Meta,
                    Opcode::Rawi, Opcode::Resp, Opcode::Setd, Opcode::Ureq, Opcode::Alss,
                    Opcode::Shut,
                ],
                forall|j: int| 0 <= j < i ==> opcode_bytes(#[trigger] all@[j]) != bytes@,
            decreases 17 - i,
        {
            let op = all[i];
            let b = op.as_bytes();
            if b[0] == bytes[0] && b[1] == bytes[1] && b[2] == bytes[2] && b[3] == bytes[3] {
                assert(b@ =~= bytes@);
                return Some(op);
            }
            assert(b@[0] != bytes@[0] || b@[1] != bytes@[1] || b@[2] != bytes@[2] || b@[3] != bytes@[3]);
            i = i + 1;
        }
        assert(opcode_bytes(all@[0]) != bytes@);
        assert(opcode_bytes(all@[1]) != bytes@);
        assert(opcode_bytes(all@[2]) != bytes@);
        assert(opcode_bytes(all@[3]) != bytes@);
        assert(opcode_bytes(all@[4]) != bytes@);
        assert(opcode_bytes(all@[5]) != bytes@);
        assert(opcode_bytes(all@[6]) != bytes@);
        assert(opcode_bytes(all@[7]) != bytes@);
        assert(opcode_bytes(all@[8]) != bytes@);
        assert(opcode_bytes(all@[9]) != bytes@);
        assert(opcode_bytes(all@[10]) != bytes@);
        assert(opcode_bytes(all@[11]) != bytes@);
        assert(opcode_bytes(all@[12]) != bytes@);
        assert(opcode_bytes(all@[13]) != bytes@);
        assert(opcode_bytes(all@[14]) != bytes@);
        assert(opcode_bytes(all@[15]) != bytes@);
        assert(opcode_bytes(all@[16]) != bytes@);
        None
    }
}

/// Decoding the wire bytes of an opcode gives that opcode back.
pub proof fn lemma_opcode_roundtrip(op: Opcode)
    ensures
        opcode_of_bytes(opcode_bytes(op)) == Some(op),
{
    reveal_with_fuel(opcode_of_bytes, 1);
    match op {
        Opcode::Helo => {},
        Opcode::Stat => { assert(opcode_bytes(Opcode::Stat) != opcode_bytes(Opcode::Helo)); },
        _ => {
            assert(opcode_bytes(op)[0] != opcode_bytes(Opcode::Helo)[0] || opcode_bytes(op)[1] != opcode_bytes(Opcode::Helo)[1]);
        },
    }
}

// ---------------------------------------------------------------------------
// Messages from players
// ---------------------------------------------------------------------------

/// A decoded player-to-server frame.
#[derive(Debug, Clone)]
pub enum SlimprotoMessage {
    Helo(HeloMessage),
    Stat(StatMessage),
    Ir(IrMessage),
    Butn(ButtonMessage),
    Bye,
    Dsco(DisconnectReason),
    Unknown { opcode: [u8; 4], data: Vec<u8> },
}

/// HELO: the first frame a player sends after connecting.
#[derive(Debug, Clone)]
pub struct HeloMessage {
    pub device_id: u8,
    pub revision: u8,
    pub mac: [u8; 6],
    pub uuid: Option<String>,
    pub wlan_channellist: u16,
    pub bytes_received: u64,
    pub language: String,
}

/// Text made from bytes by `String::from_utf8_lossy`, for bytes that are not
/// valid UTF-8 (invalid sequences become U+FFFD).
pub uninterp spec fn lossy_utf8(bytes: Seq<u8>) -> Seq<char>;

/// Calls `String::from_utf8_lossy`. Valid UTF-8 comes back as the text it
/// encodes; the result on other input is named `lossy_utf8` and not spelled out.
#[verifier::external_body]
pub fn utf8_lossy(bytes: &[u8]) -> (s: String)
    ensures
        s@ == lossy_utf8(bytes@),
        vstd::utf8::valid_utf8(bytes@) ==> s@ == vstd::utf8::decode_utf8(bytes@),
{
    String::from_utf8_lossy(bytes).to_string()
}

/// Calls `hex::encode`, which writes each byte as two lowercase hexadecimal
/// digits, high nibble first.
#[verifier::external_body]
pub fn hex_encode(bytes: &[u8]) -> (s: String)
    ensures
        s@ == hex_lower(bytes@),
{
    hex::encode(bytes)
}

/// Offset of the channel-list field: after the 16-byte UUID when the payload
/// is long enough to carry one.
pub open spec fn helo_offset(data: Seq<u8>) -> int {
    if data.len() >= 36 { 24 } else { 8 }
}

/// The lengths for which HELO parsing succeeds or reports an error; the two
/// lengths 18 and 19 are long enough to pass the length check but too short
/// for the language field.
pub open spec fn helo_parse_defined(data: Seq<u8>) -> bool {
    data.len() < 18 || data.len() >= 20
}

/// `m` is the HELO message encoded by `data`.
pub open spec fn helo_fields(m: HeloMessage, data: Seq<u8>) -> bool {
    let off = helo_offset(data);
    &&& m.device_id == data[0]
    &&& m.revision == data[1]
    &&& m.mac@ == data.subrange(2, 8)
    &&& (data.len() >= 36 ==> (m.uuid matches Some(u) && u@ == hex_lower(data.subrange(8, 24))))
    &&& (data.len() < 36 ==> m.uuid is None)
    &&& m.wlan_channellist as nat == be16(data, off) % 16384
    &&& m.bytes_received as nat == be64(data, off + 2)
    &&& m.language@ == lossy_utf8(data.subrange(off + 10, off + 12))
}

impl HeloMessage {
    /// Parses a HELO payload.
    pub fn parse(data: &[u8]) -> (r: Result<Self, String>)
        requires
            helo_parse_defined(data@),
        ensures
            data@.len() < 18 <==> r is Err,
            r matches Err(e) ==> e@ == "HELO message too short"@,
            r matches Ok(m) ==> helo_fields(m, data@),
    {
        if data.len() < 18 {
            return Err(string_of("HELO message too short"));
        }
        let device_id = data[0];
        let revision = data[1];
        let mac = [data[2], data[3], data[4], data[5], data[6], data[7]];
        assert(mac@ =~= data@.subrange(2, 8));
        let (uuid, offset) = if data.len() >= 36 {
            let uuid_bytes = vstd::slice::slice_subrange(data, 8, 24);
            (Some(hex_encode(uuid_bytes)), 24usize)
        } else {
            (None, 8usize)
        };
        let wlan_raw = read_be16(data, offset);
        let wlan_channellist = wlan_raw & 0x3fff;
        assert(wlan_raw & 0x3fff == wlan_raw % 16384) by (bit_vector);
        let bytes_received = read_be64(data, offset + 2);
        let lang_bytes = vstd::slice::slice_subrange(data, offset + 10, offset + 12);
        let language = utf8_lossy(lang_bytes);
        Ok(Self { device_id, revision, mac, uuid, wlan_channellist, bytes_received, language })
    }

    /// The MAC address as six colon-separated pairs of lowercase hex digits.
    pub fn mac_string(&self) -> (s: String)
        ensures
            s@ == mac_text(self.mac@),
    {
        let mut v: Vec<char> = Vec::new();
        let mut i: usize = 0;
        while i < 6
            invariant
                i <= 6,
                self.mac@.len() == 6,
                v@ == mac_text_prefix(self.mac@, i as int),
            decreases 6 - i,
        {
            if i > 0 {
                v.push(':');
            }
            push_hex_byte(&mut v, self.mac[i]);
            i = i + 1;
        }
        string_from_chars(v.as_slice())
    }
}

/// `aa:bb:...` text of the first `n` bytes of a MAC address.
pub open spec fn mac_text_prefix(mac: Seq<u8>, n: int) -> Seq<char>
    decreases n,
{
    if n <= 0 {
        Seq::empty()
    } else if n == 1 {
        hex_byte_lower(mac[0])
    } else {
        mac_text_prefix(mac, n - 1) + seq![':'] + hex_byte_lower(mac[n - 1])
    }
}

/// `aa:bb:cc:dd:ee:ff` text of a MAC address.
pub open spec fn mac_text(mac: Seq<u8>) -> Seq<char> {
    mac_text_prefix(mac, 6)
}

/// STAT: periodic status reports from a player.
#[derive(Debug, Clone)]
pub struct StatMessage {
    pub event: StatEvent,
    pub num_crlf: u8,
    pub mas_initialized: u8,
    pub mas_mode: u8,
    pub rptr: u32,
    pub wptr: u32,
    pub bytes_received: u64,
    pub signal_strength: u16,
    pub jiffies: u32,
    pub output_buffer_size: u32,
    pub output_buffer_fullness: u32,
    pub elapsed_seconds: u32,
    pub elapsed_milliseconds: u16,
    pub timestamp: u32,
}

/// `m` is the STAT message encoded by `d`.
pub open spec fn stat_fields(m: StatMessage, d: Seq<u8>) -> bool {
    &&& m.event == stat_event_of(be32(d, 0))
    &&& m.num_crlf == d[4]
    &&& m.mas_initialized == d[5]
    &&& m.mas_mode == d[6]
    &&& m.rptr as nat == be32(d, 7)
    &&& m.wptr as nat == be32(d, 11)
    &&& m.bytes_received as nat == be64(d, 15)
    &&& m.signal_strength as nat == be16(d, 23)
    &&& m.jiffies as nat == be32(d, 25)
    &&& m.output_buffer_size as nat == be32(d, 29)
    &&& m.output_buffer_fullness as nat == be32(d, 33)
    &&& m.elapsed_seconds as nat == be32(d, 37)
    &&& m.elapsed_milliseconds as nat == be16(d, 41)
    &&& m.timestamp as nat == be32(d, 43)
}

impl StatMessage {
    /// Parses a STAT payload (at least 52 bytes).
    pub fn parse(data: &[u8]) -> (r: Result<Self, String>)
        ensures
            data@.len() < 52 <==> r is Err,
            r matches Err(e) ==> e@ == "STAT message too short"@,
            r matches Ok(m) ==> stat_fields(m, data@),
    {
        if data.len() < 52 {
            return Err(string_of("STAT message too short"));
        }
        let event = match StatEvent::from_u32(read_be32(data, 0)) {
            Some(e) => e,
            None => {
                return Err(string_of("Invalid STAT event"));
            },
        };
        Ok(Self {
            event,
            num_crlf: data[4],
            mas_initialized: data[5],
            mas_mode: data[6],
            rptr: read_be32(data, 7),
            wptr: read_be32(data, 11),
            bytes_received: read_be64(data, 15),
            signal_strength: read_be16(data, 23),
            jiffies: read_be32(data, 25),
            output_buffer_size: read_be32(data, 29),
            output_buffer_fullness: read_be32(data, 33),
            elapsed_seconds: read_be32(data, 37),
            elapsed_milliseconds: read_be16(data, 41),
            timestamp: read_be32(data, 43),
        })
    }
}

/// STAT event codes.
#[derive(Debug, Clone, Copy, PartialEq, Eq, Structural)]
pub enum StatEvent {
    TimerStart,
    TimerStartStop,
    PauseUnpause,
    UnderrunTrackStart,
    TrackStart,
    Unknown,
}

pub open spec fn stat_event_of(value: nat) -> StatEvent {
    if value == 0 {
        StatEvent::TimerStart
    } else if value == 1 {
        StatEvent::TimerStartStop
    } else if value == 2 {
        StatEvent::PauseUnpause
    } else if value == 3 {
        StatEvent::UnderrunTrackStart
    } else if value == 4 {
        StatEvent::TrackStart
    } else {
        StatEvent::Unknown
    }
}

impl StatEvent {
    /// The event with code `value`; codes above 4 are `Unknown`. Never `None`.
    pub fn from_u32(value: u32) -> (r: Option<Self>)
        ensures
            r == Some(stat_event_of(value as nat)),
    {
        match value {
            0 => Some(Self::TimerStart),
            1 => Some(Self::TimerStartStop),
            2 => Some(Self::PauseUnpause),
            3 => Some(Self::UnderrunTrackStart),
            4 => Some(Self::TrackStart),
            _ => Some(Self::Unknown),
        }
    }
}

/// IR: an infrared remote code.
#[derive(Debug, Clone)]
pub struct IrMessage {
    pub time: u32,
    pub format: u32,
    pub bits: u32,
    pub code: u32,
}

impl IrMessage {
    /// Parses an IR payload (at least 16 bytes).
    pub fn parse(data: &[u8]) -> (r: Result<Self, String>)
        ensures
            data@.len() < 16 <==> r is Err,
            r matches Err(e) ==> e@ == "IR message too short"@,
            r matches Ok(m) ==> m.time as nat == be32(data@, 0) && m.format as nat == be32(data@, 4)
                && m.bits as nat == be32(data@, 8) && m.code as nat == be32(data@, 12),
    {
        if data.len() < 16 {
            return Err(string_of("IR message too short"));
        }
        Ok(Self {
            time: read_be32(data, 0),
            format: read_be32(data, 4),
            bits: read_be32(data, 8),
            code: read_be32(data, 12),
        })
    }
}

/// BUTN: a press of a button on the player itself.
#[derive(Debug, Clone)]
pub struct ButtonMessage {
    pub time: u32,
    pub code: u32,
}

impl ButtonMessage {
    /// Parses a BUTN payload (at least 8 bytes).
    pub fn parse(data: &[u8]) -> (r: Result<Self, String>)
        ensures
            data@.len() < 8 <==> r is Err,
            r matches Err(e) ==> e@ == "BUTN message too short"@,
            r matches Ok(m) ==> m.time as nat == be32(data@, 0) && m.code as nat == be32(data@, 4),
    {
        if data.len() < 8 {
            return Err(string_of("BUTN message too short"));
        }
        Ok(Self { time: read_be32(data, 0), code: read_be32(data, 4) })
    }
}

/// Why a player closed its connection.
#[derive(Debug, Clone, Copy, PartialEq, Eq, Structural)]
pub enum DisconnectReason {
    ConnectionClosed,
    UnreachableConnection,
    Unknown(u8),
}

pub open spec fn disconnect_reason_of(value: u8) -> DisconnectReason {
    if value == 0 {
        DisconnectReason::ConnectionClosed
    } else if value == 1 {
        DisconnectReason::UnreachableConnection
    } else {
        DisconnectReason::Unknown(value)
    }
}

impl DisconnectReason {
    pub fn from_u8(value: u8) -> (r: Self)
        ensures
            r == disconnect_reason_of(value),
    {
        match value {
            0 => Self::ConnectionClosed,
            1 => Self::UnreachableConnection,
            other => Self::Unknown(other),
        }
    }
}

// ---------------------------------------------------------------------------
// Commands to players
// ---------------------------------------------------------------------------

/// Stream control commands (`strm`).
#[derive(Debug, Clone)]
pub enum StreamCommand {
    /// Start streaming ('s') from an HTTP request on the server.
    Start {
        autostart: u8,
        format: u8,
        pcm_sample_size: u8,
        pcm_sample_rate: u8,
        pcm_channels: u8,
        pcm_endian: u8,
        buffer_threshold: u8,
        spdif_enable: u8,
        transition_duration: u8,
        transition_type: u8,
        flags: u8,
        output_threshold: u8,
        reserved: u8,
        replay_gain: u32,
        server_port: u16,
        server_ip: u32,
        request_string: String,
    },
    /// Resume playback ('u') after `interval_ms`.
    Unpause { interval_ms: u32 },
    /// Pause for `interval_ms` ('p'); used when a player is behind.
    PauseFor { interval_ms: u32 },
    /// Skip ahead by `interval_ms` ('a'); used when a player is ahead.
    SkipAhead { interval_ms: u32 },
    /// Stop playback and flush the buffer ('t').
    Stop,
}

/// The ASCII byte of a command letter.
pub open spec fn letter(c: char) -> u8 {
    c as u8
}

/// `strm` as bytes.
pub open spec fn strm_tag() -> Seq<u8> {
    tag4('s', 't', 'r', 'm')
}

/// Frame with a two-byte length (opcode plus payload) before the opcode.
pub open spec fn short_frame(payload: Seq<u8>) -> Seq<u8> {
    be16_bytes((4 + payload.len()) as u16) + strm_tag() + payload
}

/// Frame with the opcode first, then the payload length in four bytes.
pub open spec fn long_frame(payload: Seq<u8>) -> Seq<u8> {
    strm_tag() + be32_bytes(payload.len() as u32) + payload
}

/// The payload of each stream command.
pub open spec fn stream_payload(cmd: StreamCommand) -> Seq<u8> {
    match cmd {
        StreamCommand::Start {
            autostart,
            format,
            pcm_sample_size,
            pcm_sample_rate,
            pcm_channels,
            pcm_endian,
            buffer_threshold,
            spdif_enable,
            transition_duration,
            transition_type,
            flags,
            output_threshold,
            reserved,
            replay_gain,
            server_port,
            server_ip,
            request_string,
        } => seq![
            letter('s'), autostart, format, pcm_sample_size, pcm_sample_rate, pcm_channels,
            pcm_endian, buffer_threshold, spdif_enable, transition_duration, transition_type,
            flags, output_threshold, reserved,
        ] + be32_bytes(replay_gain) + be16_bytes(server_port) + be32_bytes(server_ip)
            + request_bytes(request_string),
        StreamCommand::Unpause { interval_ms } => seq![letter('u'), 0u8] + be32_bytes(interval_ms),
        StreamCommand::PauseFor { interval_ms } => seq![letter('p'), 0u8] + be32_bytes(interval_ms)
            + seq![0u8, 0u8],
        StreamCommand::SkipAhead { interval_ms } => seq![letter('a'), 0u8] + be32_bytes(interval_ms)
            + seq![0u8, 0u8],
        StreamCommand::Stop => seq![letter('t'), 0u8, 0u8, 0u8, 0u8, 0u8, 0u8, 0u8],
    }
}

/// The UTF-8 bytes of a request string.
pub open spec fn request_bytes(s: String) -> Seq<u8> {
    vstd::utf8::encode_utf8(s@)
}

/// The complete frame of each stream command: the start and skip-ahead
/// commands carry their length after the opcode, the others before it.
pub open spec fn stream_frame(cmd: StreamCommand) -> Seq<u8> {
    match cmd {
        StreamCommand::Start { .. } => long_frame(stream_payload(cmd)),
        StreamCommand::SkipAhead { .. } => long_frame(stream_payload(cmd)),
        _ => short_frame(stream_payload(cmd)),
    }
}

/// The request strings a start command can carry: their frame length must
/// fit in the length field.
pub open spec fn stream_command_encodable(cmd: StreamCommand) -> bool {
    match cmd {
        StreamCommand::Start { request_string, .. } => request_bytes(request_string).len() + 24 <= u32::MAX,
        _ => true,
    }
}

fn push_strm(v: &mut Vec<u8>)
    ensures
        final(v)@ == old(v)@ + strm_tag(),
{
    v.push('s' as u8);
    v.push('t' as u8);
    v.push('r' as u8);
    v.push('m' as u8);
    assert(final(v)@ =~= old(v)@ + strm_tag());
}

impl StreamCommand {
    /// Whether the command's frame length fits in its length field, so that
    /// it can be encoded.
    pub fn is_encodable(&self) -> (r: bool)
        ensures
            r == stream_command_encodable(*self),
    {
        match self {
            StreamCommand::Start { request_string, .. } => {
                let req = request_string.as_str().as_bytes();
                (req.len() as u64) <= 0xffff_ffffu64 - 24
            },
            _ => true,
        }
    }

    /// Encodes the command as a frame ready to be written to the player.
    pub fn encode(&self) -> (r: Vec<u8>)
        requires
            stream_command_encodable(*self),
        ensures
            r@ == stream_frame(*self),
    {
        let mut payload: Vec<u8> = Vec::new();
        match self {
            StreamCommand::Start {
                autostart,
                format,
                pcm_sample_size,
                pcm_sample_rate,
                pcm_channels,
                pcm_endian,
                buffer_threshold,
                spdif_enable,
                transition_duration,
                transition_type,
                flags,
                output_threshold,
                reserved,
                replay_gain,
                server_port,
                server_ip,
                request_string,
            } => {
                payload.push('s' as u8);
                payload.push(*autostart);
                payload.push(*format);
                payload.push(*pcm_sample_size);
                payload.push(*pcm_sample_rate);
                payload.push(*pcm_channels);
                payload.push(*pcm_endian);
                payload.push(*buffer_threshold);
                payload.push(*spdif_enable);
                payload.push(*transition_duration);
                payload.push(*transition_type);
                payload.push(*flags);
                payload.push(*output_threshold);
                payload.push(*reserved);
                push_be32(&mut payload, *replay_gain);
                push_be16(&mut payload, *server_port);
                push_be32(&mut payload, *server_ip);
                let req = request_string.as_str().as_bytes();
                push_all(&mut payload, req);
                assert(payload@ =~= stream_payload(*self));
                let mut buf: Vec<u8> = Vec::new();
                push_strm(&mut buf);
                push_be32(&mut buf, payload.len() as u32);
                push_all(&mut buf, payload.as_slice());
                return buf;
            },
            StreamCommand::Unpause { interval_ms } => {
                payload.push('u' as u8);
                payload.push(0);
                push_be32(&mut payload, *interval_ms);
            },
            StreamCommand::PauseFor { interval_ms } => {
                payload.push('p' as u8);
                payload.push(0);
                push_be32(&mut payload, *interval_ms);
                payload.push(0);
                payload.push(0);
            },
            StreamCommand::SkipAhead { interval_ms } => {
                payload.push('a' as u8);
                payload.push(0);
                push_be32(&mut payload, *interval_ms);
                payload.push(0);
                payload.push(0);
                assert(payload@ =~= stream_payload(*self));
                let mut buf: Vec<u8> = Vec::new();
                push_strm(&mut buf);
                push_be32(&mut buf, payload.len() as u32);
                push_all(&mut buf, payload.as_slice());
                return buf;
            },
            StreamCommand::Stop => {
                payload.push('t' as u8);
                payload.push(0);
                payload.push(0);
                payload.push(0);
                payload.push(0);
                payload.push(0);
                payload.push(0);
                payload.push(0);
            },
        }
        assert(payload@ =~= stream_payload(*self));
        let mut buf: Vec<u8> = Vec::new();
        push_be16(&mut buf, (4 + payload.len()) as u16);
        push_strm(&mut buf);
        push_all(&mut buf, payload.as_slice());
        buf
    }
}

/// Volume-to-gain table: volume percent `v` is the 16.16 fixed-point gain
/// `v / 100`, rounded down; volume 0 mutes.
pub open spec fn volume_gain(v: u8) -> nat {
    if v == 0 {
        0
    } else {
        (v as nat) * 65536 / 100
    }
}

/// Audio gain command (`audg`): old and new per-channel gains.
#[derive(Debug, Clone)]
pub struct AudioGainCommand {
    pub old_gain_left: u32,
    pub old_gain_right: u32,
    pub digital_volume_control: u8,
    pub preamp: u8,
    pub new_gain_left: u32,
    pub new_gain_right: u32,
}

/// The `audg` frame of a gain command.
pub open spec fn gain_frame(c: AudioGainCommand) -> Seq<u8> {
    be16_bytes(22) + tag4('a', 'u', 'd', 'g') + be32_bytes(c.old_gain_left) + be32_bytes(c.old_gain_right)
        + seq![c.digital_volume_control, c.preamp] + be32_bytes(c.new_gain_left) + be32_bytes(
        c.new_gain_right,
    )
}

fn gain_of_volume(v: u8) -> (g: u32)
    ensures
        g as nat == volume_gain(v),
{
    if v == 0 {
        0
    } else {
        (v as u32) * 65536 / 100
    }
}

impl AudioGainCommand {
    /// Gain command moving from `old_volume` to `volume` (percent), with digital
    /// volume control on and a 0 dB preamp.
    pub fn from_volume(volume: u8, old_volume: u8) -> (r: Self)
        ensures
            r.old_gain_left as nat == volume_gain(old_volume),
            r.old_gain_right as nat == volume_gain(old_volume),
            r.digital_volume_control == 1,
            r.preamp == 255,
            r.new_gain_left as nat == volume_gain(volume),
            r.new_gain_right as nat == volume_gain(volume),
    {
        Self {
            old_gain_left: gain_of_volume(old_volume),
            old_gain_right: gain_of_volume(old_volume),
            digital_volume_control: 1,
            preamp: 255,
            new_gain_left: gain_of_volume(volume),
            new_gain_right: gain_of_volume(volume),
        }
    }

    /// Encodes the command as an `audg` frame.
    pub fn encode(&self) -> (r: Vec<u8>)
        ensures
            r@ == gain_frame(*self),
    {
        let mut buf: Vec<u8> = Vec::new();
        push_be16(&mut buf, 22);
        buf.push('a' as u8);
        buf.push('u' as u8);
        buf.push('d' as u8);
        buf.push('g' as u8);
        push_be32(&mut buf, self.old_gain_left);
        push_be32(&mut buf, self.old_gain_right);
        buf.push(self.digital_volume_control);
        buf.push(self.preamp);
        push_be32(&mut buf, self.new_gain_left);
        push_be32(&mut buf, self.new_gain_right);
        assert(buf@ =~= gain_frame(*self));
        buf
    }
}

} // verus!
