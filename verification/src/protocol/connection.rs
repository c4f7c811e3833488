//! What the server does with each message on a player's connection: the
//! first HELO names the player and registers it, its later messages are
//! passed on, and BYE or DSCO ends the connection.
use vstd::prelude::*;
use crate::protocol::messages::{mac_text, HeloMessage, SlimprotoMessage};

verus! {

/// The player a registration is for.
#[derive(Debug)]
pub struct PlayerRecord {
    pub mac_text: String,
    pub mac: [u8; 6],
    pub device_id: u8,
    pub revision: u8,
    pub uuid: Option<String>,
}

/// What to do after a message.
#[derive(Debug)]
pub enum ConnectionAction {
    /// Register (or re-register) the player and pass the message on under its MAC.
    Register(PlayerRecord),
    /// Pass the message on under this MAC.
    Forward(String),
    /// Close the connection, unregistering this MAC if the player said who it was.
    Close(Option<String>),
    /// Nothing: the player has not said who it is yet.
    Ignore,
}

/// A connection: the MAC of the player once it has sent HELO.
pub struct ConnectionState {
    pub player_mac: Option<String>,
}

pub open spec fn mac_of(m: Option<String>) -> Option<Seq<char>> {
    match m {
        Some(s) => Some(s@),
        None => None,
    }
}

impl ConnectionState {
    /// A connection whose player has not said who it is.
    pub fn new() -> (r: Self)
        ensures
            r.player_mac is None,
    {
        Self { player_mac: None }
    }

    /// Decides what a message leads to, remembering the MAC a HELO gives.
    pub fn handle_message(&mut self, msg: &SlimprotoMessage) -> (r: ConnectionAction)
        ensures
            match *msg {
                SlimprotoMessage::Helo(h) => mac_of(final(self).player_mac) == Some(mac_text(h.mac@)) && (
                r matches ConnectionAction::Register(p) && p.mac_text@ == mac_text(h.mac@) && p.mac == h.mac
                    && p.device_id == h.device_id && p.revision == h.revision && mac_of(p.uuid) == mac_of(h.uuid)),
                SlimprotoMessage::Bye | SlimprotoMessage::Dsco(_) => mac_of(final(self).player_mac) == mac_of(
                    old(self).player_mac,
                ) && (r matches ConnectionAction::Close(m) && mac_of(m) == mac_of(old(self).player_mac)),
                _ => mac_of(final(self).player_mac) == mac_of(old(self).player_mac) && match old(self).player_mac {
                    Some(m) => r matches ConnectionAction::Forward(f) && f@ == m@,
                    None => r is Ignore,
                },
            },
    {
        match msg {
            SlimprotoMessage::Helo(h) => {
                let mac = h.mac_string();
                let record = PlayerRecord {
                    mac_text: mac.clone(),
                    mac: h.mac,
                    device_id: h.device_id,
                    revision: h.revision,
                    uuid: match &h.uuid {
                        Some(u) => Some(u.clone()),
                        None => None,
                    },
                };
                self.player_mac = Some(mac);
                ConnectionAction::Register(record)
            },
            SlimprotoMessage::Bye | SlimprotoMessage::Dsco(_) => {
                let m = match &self.player_mac {
                    Some(m) => Some(m.clone()),
                    None => None,
                };
                ConnectionAction::Close(m)
            },
            _ => match &self.player_mac {
                Some(m) => ConnectionAction::Forward(m.clone()),
                None => ConnectionAction::Ignore,
            },
        }
    }

    /// The MAC to unregister when the connection ends.
    pub fn on_close(&self) -> (r: Option<String>)
        ensures
            mac_of(r) == mac_of(self.player_mac),
    {
        match &self.player_mac {
            Some(m) => Some(m.clone()),
            None => None,
        }
    }
}

} // verus!
