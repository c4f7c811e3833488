//! Slimproto: the binary protocol spoken between the server and Squeezebox
//! players, and the UDP discovery protocol players use to find a server.
use vstd::prelude::*;

pub mod bytes;
pub mod codec;
pub mod connection;
pub mod discovery;
pub mod messages;

verus! {

/// TCP port of the Slimproto control connection.
pub const SLIMPROTO_PORT: u16 = 3483;

/// Hardware and software player models, as reported in the HELO device byte.
#[derive(Debug, Clone, Copy, PartialEq, Eq, Structural)]
pub enum DeviceId {
    Squeezebox,
    SoftSqueeze,
    Squeezebox2,
    Transporter,
    SoftSqueeze3,
    Receiver,
    SqueezeSlave,
    Controller,
    Boom,
    SoftBoom,
    SqueezePlay,
}

/// The device byte that identifies each model.
pub open spec fn device_code(d: DeviceId) -> u8 {
    match d {
        DeviceId::Squeezebox => 2,
        DeviceId::SoftSqueeze => 3,
        DeviceId::Squeezebox2 => 4,
        DeviceId::Transporter => 5,
        DeviceId::SoftSqueeze3 => 6,
        DeviceId::Receiver => 7,
        DeviceId::SqueezeSlave => 8,
        DeviceId::Controller => 9,
        DeviceId::Boom => 10,
        DeviceId::SoftBoom => 11,
        DeviceId::SqueezePlay => 12,
    }
}

/// The lowercase model name of each device.
pub open spec fn device_name(d: DeviceId) -> Seq<char> {
    match d {
        DeviceId::Squeezebox => "squeezebox"@,
        DeviceId::SoftSqueeze => "softsqueeze"@,
        DeviceId::Squeezebox2 => "squeezebox2"@,
        DeviceId::Transporter => "transporter"@,
        DeviceId::SoftSqueeze3 => "softsqueeze3"@,
        DeviceId::Receiver => "receiver"@,
        DeviceId::SqueezeSlave => "squeezeslave"@,
        DeviceId::Controller => "controller"@,
        DeviceId::Boom => "boom"@,
        DeviceId::SoftBoom => "softboom"@,
        DeviceId::SqueezePlay => "squeezeplay"@,
    }
}

impl DeviceId {
    /// The model with device byte `value`; `None` for bytes outside 2..=12.
    pub fn from_u8(value: u8) -> (r: Option<Self>)
        ensures
            r matches Some(d) ==> device_code(d) == value,
            r is None <==> (value < 2 || value > 12),
    {
        match value {
            2 => Some(Self::Squeezebox),
            3 => Some(Self::SoftSqueeze),
            4 => Some(Self::Squeezebox2),
            5 => Some(Self::Transporter),
            6 => Some(Self::SoftSqueeze3),
            7 => Some(Self::Receiver),
            8 => Some(Self::SqueezeSlave),
            9 => Some(Self::Controller),
            10 => Some(Self::Boom),
            11 => Some(Self::SoftBoom),
            12 => Some(Self::SqueezePlay),
            _ => None,
        }
    }

    /// The lowercase model name.
    pub fn name(&self) -> (r: &'static str)
        ensures
            r@ == device_name(*self),
    {
        match self {
            Self::Squeezebox => "squeezebox",
            Self::SoftSqueeze => "softsqueeze",
            Self::Squeezebox2 => "squeezebox2",
            Self::Transporter => "transporter",
            Self::SoftSqueeze3 => "softsqueeze3",
            Self::Receiver => "receiver",
            Self::SqueezeSlave => "squeezeslave",
            Self::Controller => "controller",
            Self::Boom => "boom",
            Self::SoftBoom => "softboom",
            Self::SqueezePlay => "squeezeplay",
        }
    }
}

/// Every model's device byte leads back to that model.
pub proof fn lemma_device_code_roundtrip(d: DeviceId)
    ensures
        2 <= device_code(d) <= 12,
        forall|e: DeviceId| device_code(e) == device_code(d) ==> e == d,
{
}

} // verus!
