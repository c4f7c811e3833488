//! The JSON-RPC interface: what a `slim.request` asks for, decided from
//! its parameters before anything is looked up or sent, and the stream
//! commands the interface sends to players.
use vstd::prelude::*;
use crate::ids::{parse_uuid, uuid_parse};
use crate::plugins::concat_str;
use crate::protocol::messages::StreamCommand;
use crate::text::{
    chars_of, decimal, parse_i16, parse_i64, parse_signed_spec, parse_u8, parse_unsigned_spec, push_decimal, str_eq,
    string_from_chars, string_of,
};

verus! {

/// A JSON value as far as the interface looks into it. A number carries
/// its value as a signed and as an unsigned 64-bit integer where it is one,
/// and its text as a floating-point number.
#[derive(Debug)]
pub enum RpcValue {
    Null,
    Bool(bool),
    Number { signed: Option<i64>, unsigned: Option<u64>, float_text: String },
    Str(String),
    Array(Vec<RpcValue>),
    Object,
}

/// A JSON-RPC error: code and message.
#[derive(Debug)]
pub struct JsonRpcError {
    pub code: i32,
    pub message: String,
}

/// Invalid params.
pub const INVALID_PARAMS: i32 = -32602;

/// Method not found.
pub const METHOD_NOT_FOUND: i32 = -32601;

/// Internal error.
pub const INTERNAL_ERROR: i32 = -32603;

pub open spec fn rv_str(v: RpcValue) -> Option<Seq<char>> {
    match v {
        RpcValue::Str(s) => Some(s@),
        _ => None,
    }
}

pub open spec fn rv_i64(v: RpcValue) -> Option<i64> {
    match v {
        RpcValue::Number { signed, .. } => signed,
        _ => None,
    }
}

pub open spec fn rv_u64(v: RpcValue) -> Option<u64> {
    match v {
        RpcValue::Number { unsigned, .. } => unsigned,
        _ => None,
    }
}

impl RpcValue {
    /// The string, if the value is one.
    pub fn as_str(&self) -> (r: Option<&str>)
        ensures
            match r {
                Some(s) => rv_str(*self) == Some(s@),
                None => rv_str(*self) is None,
            },
    {
        match self {
            RpcValue::Str(s) => Some(s.as_str()),
            _ => None,
        }
    }

    /// The value as a signed 64-bit integer, if it is one.
    pub fn as_i64(&self) -> (r: Option<i64>)
        ensures
            r == rv_i64(*self),
    {
        match self {
            RpcValue::Number { signed, .. } => *signed,
            _ => None,
        }
    }

    /// The value as an unsigned 64-bit integer, if it is one.
    pub fn as_u64(&self) -> (r: Option<u64>)
        ensures
            r == rv_u64(*self),
    {
        match self {
            RpcValue::Number { unsigned, .. } => *unsigned,
            _ => None,
        }
    }
}

/// What a `slim.request` asks for. Durations stay as the text the client
/// sent; identifiers of players and groups are UUIDs.
#[derive(Debug)]
pub enum SlimAction {
    Status,
    PlayTrack { track_id: i64 },
    Resume,
    Pause,
    Unpause,
    Stop,
    Unsync { player: u128 },
    Sync { player: u128, target: u128 },
    SyncGroupId { player: u128 },
    Mixer { volume: u8 },
    SkipAhead { seconds: String },
    SkipBack { seconds: String },
    AbsoluteSeek,
    PlaylistAdd { track_id: i64 },
    PlaylistClear,
    PlaylistJump { index: u64 },
    PlaylistControlUnknown { subcommand: String },
    ButtonNext,
    ButtonPrevious,
    ButtonUnknown { button: String },
    PlaylistTracks,
    Shuffle { mode: i64 },
    Repeat { mode: i64 },
    PlaylistUnknown { subcommand: String },
    NotImplemented { command: String },
}

/// A request: the player it is for and what it asks.
#[derive(Debug)]
pub struct SlimRequest {
    pub player_id: String,
    pub action: SlimAction,
}

/// An action as plain values.
pub enum ActionView {
    Status,
    PlayTrack(i64),
    Resume,
    Pause,
    Unpause,
    Stop,
    Unsync(u128),
    Sync(u128, u128),
    SyncGroupId(u128),
    Mixer(u8),
    SkipAhead(Seq<char>),
    SkipBack(Seq<char>),
    AbsoluteSeek,
    PlaylistAdd(i64),
    PlaylistClear,
    PlaylistJump(u64),
    PlaylistControlUnknown(Seq<char>),
    ButtonNext,
    ButtonPrevious,
    ButtonUnknown(Seq<char>),
    PlaylistTracks,
    Shuffle(i64),
    Repeat(i64),
    PlaylistUnknown(Seq<char>),
    NotImplemented(Seq<char>),
}

pub open spec fn action_view(a: SlimAction) -> ActionView {
    match a {
        SlimAction::Status => ActionView::Status,
        SlimAction::PlayTrack { track_id } => ActionView::PlayTrack(track_id),
        SlimAction::Resume => ActionView::Resume,
        SlimAction::Pause => ActionView::Pause,
        SlimAction::Unpause => ActionView::Unpause,
        SlimAction::Stop => ActionView::Stop,
        SlimAction::Unsync { player } => ActionView::Unsync(player),
        SlimAction::Sync { player, target } => ActionView::Sync(player, target),
        SlimAction::SyncGroupId { player } => ActionView::SyncGroupId(player),
        SlimAction::Mixer { volume } => ActionView::Mixer(volume),
        SlimAction::SkipAhead { seconds } => ActionView::SkipAhead(seconds@),
        SlimAction::SkipBack { seconds } => ActionView::SkipBack(seconds@),
        SlimAction::AbsoluteSeek => ActionView::AbsoluteSeek,
        SlimAction::PlaylistAdd { track_id } => ActionView::PlaylistAdd(track_id),
        SlimAction::PlaylistClear => ActionView::PlaylistClear,
        SlimAction::PlaylistJump { index } => ActionView::PlaylistJump(index),
        SlimAction::PlaylistControlUnknown { subcommand } => ActionView::PlaylistControlUnknown(subcommand@),
        SlimAction::ButtonNext => ActionView::ButtonNext,
        SlimAction::ButtonPrevious => ActionView::ButtonPrevious,
        SlimAction::ButtonUnknown { button } => ActionView::ButtonUnknown(button@),
        SlimAction::PlaylistTracks => ActionView::PlaylistTracks,
        SlimAction::Shuffle { mode } => ActionView::Shuffle(mode),
        SlimAction::Repeat { mode } => ActionView::Repeat(mode),
        SlimAction::PlaylistUnknown { subcommand } => ActionView::PlaylistUnknown(subcommand@),
        SlimAction::NotImplemented { command } => ActionView::NotImplemented(command@),
    }
}

/// An invalid-params error with a message.
pub open spec fn invalid(msg: Seq<char>) -> Result<ActionView, (i32, Seq<char>)> {
    Err((INVALID_PARAMS, msg))
}

/// `i` in decimal, with a minus sign when negative (`i64::to_string`).
pub open spec fn signed_decimal(i: int) -> Seq<char> {
    if i < 0 {
        seq!['-'] + decimal((-i) as nat)
    } else {
        decimal(i as nat)
    }
}

/// The volume text of a mixer request: a string, or an integer in decimal.
pub open spec fn volume_text(v: RpcValue) -> Option<Seq<char>> {
    match v {
        RpcValue::Str(s) => Some(s@),
        RpcValue::Number { signed: Some(i), .. } => Some(signed_decimal(i as int)),
        _ => None,
    }
}

/// The new volume, a percentage, for a volume text, from the current
/// volume 50: a signed change clamped to 0..=100, or an absolute value in
/// 0..=100 (a larger one is refused).
pub open spec fn new_volume_spec(t: Seq<char>) -> Result<u8, Seq<char>> {
    if t.len() > 0 && (t[0] == '+' || t[0] == '-') {
        match parse_signed_spec(t, -32768, 32767) {
            Some(d) => Ok(
                (if 50 + d < 0 {
                    0
                } else if 50 + d > 100 {
                    100
                } else {
                    50 + d
                }) as u8,
            ),
            None => Err("Invalid relative volume value"@),
        }
    } else {
        match parse_unsigned_spec(t, 255) {
            Some(v) => if v <= 100 {
                Ok(v as u8)
            } else {
                Err("Invalid volume value"@)
            },
            None => Err("Invalid volume value"@),
        }
    }
}

/// The time text of a seek request: a string, or a number's text.
pub open spec fn time_text(v: RpcValue) -> Option<Seq<char>> {
    match v {
        RpcValue::Str(s) => Some(s@),
        RpcValue::Number { float_text, .. } => Some(float_text@),
        _ => None,
    }
}

/// A shuffle or repeat mode: an integer, or a string holding one.
pub open spec fn mode_of(v: RpcValue) -> Option<i64> {
    match rv_i64(v) {
        Some(i) => Some(i),
        None => match rv_str(v) {
            Some(s) => match parse_signed_spec(s, i64::MIN as int, i64::MAX as int) {
                Some(m) => Some(m as i64),
                None => None,
            },
            None => None,
        },
    }
}

pub open spec fn sync_spec(player: Seq<char>, a: Seq<RpcValue>) -> Result<ActionView, (i32, Seq<char>)> {
    if a.len() < 2 {
        invalid("sync command requires target player MAC"@)
    } else {
        match rv_str(a[1]) {
            None => invalid("target MAC must be a string"@),
            Some(target) => match uuid_parse(player) {
                None => invalid("Invalid player UUID"@),
                Some(p) => if target == "-"@ {
                    Ok(ActionView::Unsync(p))
                } else {
                    match uuid_parse(target) {
                        None => invalid("Invalid target UUID"@),
                        Some(t) => Ok(ActionView::Sync(p, t)),
                    }
                },
            },
        }
    }
}

pub open spec fn mixer_spec(a: Seq<RpcValue>) -> Result<ActionView, (i32, Seq<char>)> {
    if a.len() < 3 {
        invalid("mixer command requires [\"mixer\", \"volume\", value]"@)
    } else {
        match rv_str(a[1]) {
            None => invalid("mixer subcommand must be a string"@),
            Some(sub) => if sub != "volume"@ {
                invalid("Unknown mixer subcommand: "@ + sub)
            } else {
                match volume_text(a[2]) {
                    None => invalid("volume value must be a number or string"@),
                    Some(t) => match new_volume_spec(t) {
                        Ok(v) => Ok(ActionView::Mixer(v)),
                        Err(m) => invalid(m),
                    },
                }
            },
        }
    }
}

pub open spec fn time_spec(a: Seq<RpcValue>) -> Result<ActionView, (i32, Seq<char>)> {
    if a.len() < 2 {
        invalid("time command requires position value"@)
    } else {
        match time_text(a[1]) {
            None => invalid("time value must be a number or string"@),
            Some(t) => if t.len() > 0 && t[0] == '+' {
                Ok(ActionView::SkipAhead(t.skip(1)))
            } else if t.len() > 0 && t[0] == '-' {
                Ok(ActionView::SkipBack(t.skip(1)))
            } else {
                Ok(ActionView::AbsoluteSeek)
            },
        }
    }
}

pub open spec fn playlistcontrol_spec(a: Seq<RpcValue>) -> Result<ActionView, (i32, Seq<char>)> {
    if a.len() < 2 {
        invalid("playlistcontrol requires subcommand"@)
    } else {
        match rv_str(a[1]) {
            None => invalid("playlistcontrol subcommand must be a string"@),
            Some(sub) => if sub == "cmd:add"@ {
                if a.len() < 4 {
                    invalid("cmd:add requires track_id"@)
                } else {
                    match rv_i64(a[3]) {
                        Some(id) => Ok(ActionView::PlaylistAdd(id)),
                        None => invalid("track_id must be an integer"@),
                    }
                }
            } else if sub == "cmd:clear"@ {
                Ok(ActionView::PlaylistClear)
            } else if sub == "cmd:jump"@ {
                if a.len() < 3 {
                    invalid("cmd:jump requires index"@)
                } else {
                    match rv_u64(a[2]) {
                        Some(i) => Ok(ActionView::PlaylistJump(i)),
                        None => invalid("index must be a number"@),
                    }
                }
            } else {
                Ok(ActionView::PlaylistControlUnknown(sub))
            },
        }
    }
}

pub open spec fn button_spec(a: Seq<RpcValue>) -> Result<ActionView, (i32, Seq<char>)> {
    if a.len() < 2 {
        invalid("button command requires button name"@)
    } else {
        match rv_str(a[1]) {
            None => invalid("button name must be a string"@),
            Some(b) => if b == "arrow_right"@ || b == "jump_rew"@ {
                Ok(ActionView::ButtonNext)
            } else if b == "arrow_left"@ || b == "jump_fwd"@ {
                Ok(ActionView::ButtonPrevious)
            } else {
                Ok(ActionView::ButtonUnknown(b))
            },
        }
    }
}

pub open spec fn playlist_spec(a: Seq<RpcValue>) -> Result<ActionView, (i32, Seq<char>)> {
    if a.len() < 2 {
        invalid("playlist command requires subcommand"@)
    } else {
        match rv_str(a[1]) {
            None => invalid("playlist subcommand must be a string"@),
            Some(sub) => if sub == "tracks"@ {
                Ok(ActionView::PlaylistTracks)
            } else if sub == "shuffle"@ {
                if a.len() < 3 {
                    invalid("shuffle requires mode (0, 1, or 2)"@)
                } else {
                    match mode_of(a[2]) {
                        Some(m) => Ok(ActionView::Shuffle(m)),
                        None => invalid("shuffle mode must be a number"@),
                    }
                }
            } else if sub == "repeat"@ {
                if a.len() < 3 {
                    invalid("repeat requires mode (0, 1, or 2)"@)
                } else {
                    match mode_of(a[2]) {
                        Some(m) => Ok(ActionView::Repeat(m)),
                        None => invalid("repeat mode must be a number"@),
                    }
                }
            } else {
                Ok(ActionView::PlaylistUnknown(sub))
            },
        }
    }
}

/// What a command with its arguments asks for.
pub open spec fn command_spec(player: Seq<char>, cmd: Seq<char>, a: Seq<RpcValue>) -> Result<
    ActionView,
    (i32, Seq<char>),
> {
    if cmd == "status"@ {
        Ok(ActionView::Status)
    } else if cmd == "play"@ {
        if a.len() > 1 {
            match rv_i64(a[1]) {
                Some(id) => Ok(ActionView::PlayTrack(id)),
                None => invalid("track_id must be an integer"@),
            }
        } else {
            Ok(ActionView::Resume)
        }
    } else if cmd == "pause"@ {
        let should_pause = if a.len() > 1 {
            match rv_i64(a[1]) {
                Some(v) => v != 0,
                None => true,
            }
        } else {
            true
        };
        if should_pause {
            Ok(ActionView::Pause)
        } else {
            Ok(ActionView::Unpause)
        }
    } else if cmd == "stop"@ {
        Ok(ActionView::Stop)
    } else if cmd == "sync"@ {
        sync_spec(player, a)
    } else if cmd == "syncgroupid"@ {
        match uuid_parse(player) {
            Some(p) => Ok(ActionView::SyncGroupId(p)),
            None => invalid("Invalid player UUID"@),
        }
    } else if cmd == "mixer"@ {
        mixer_spec(a)
    } else if cmd == "time"@ {
        time_spec(a)
    } else if cmd == "playlistcontrol"@ {
        playlistcontrol_spec(a)
    } else if cmd == "button"@ {
        button_spec(a)
    } else if cmd == "playlist"@ {
        playlist_spec(a)
    } else {
        Ok(ActionView::NotImplemented(cmd))
    }
}

/// What a `slim.request` with these parameters asks for: the parameters
/// must be a player id and a non-empty array whose first element names
/// the command.
pub open spec fn plan_spec(params: Option<Seq<RpcValue>>) -> Result<(Seq<char>, ActionView), (i32, Seq<char>)> {
    match params {
        None => Err((INVALID_PARAMS, "Invalid params"@)),
        Some(p) => if p.len() < 2 {
            Err((INVALID_PARAMS, "slim.request requires [player_id, [command, ...args]]"@))
        } else {
            match rv_str(p[0]) {
                None => Err((INVALID_PARAMS, "player_id must be a string"@)),
                Some(player) => match p[1] {
                    RpcValue::Array(a) => if a@.len() == 0 {
                        Err((INVALID_PARAMS, "command array cannot be empty"@))
                    } else {
                        match rv_str(a@[0]) {
                            None => Err((INVALID_PARAMS, "command must be a string"@)),
                            Some(cmd) => match command_spec(player, cmd, a@) {
                                Ok(act) => Ok((player, act)),
                                Err(e) => Err(e),
                            },
                        }
                    },
                    _ => Err((INVALID_PARAMS, "command must be an array"@)),
                },
            }
        },
    }
}

/// `r` is the outcome `s` describes.
pub open spec fn action_outcome(r: Result<SlimAction, JsonRpcError>, s: Result<ActionView, (i32, Seq<char>)>) -> bool {
    match s {
        Ok(v) => r matches Ok(a) && action_view(a) == v,
        Err((code, msg)) => r matches Err(e) && e.code == code && e.message@ == msg,
    }
}

fn invalid_params(msg: &str) -> (r: Result<SlimAction, JsonRpcError>)
    ensures
        r matches Err(e) && e.code == INVALID_PARAMS && e.message@ == msg@,
{
    Err(JsonRpcError { code: INVALID_PARAMS, message: string_of(msg) })
}

/// `i` in decimal.
pub fn i64_string(i: i64) -> (r: String)
    ensures
        r@ == signed_decimal(i as int),
{
    let mut v: Vec<char> = Vec::new();
    if i < 0 {
        v.push('-');
        let m: u64 = (-(i as i128)) as u64;
        push_decimal(&mut v, m);
    } else {
        push_decimal(&mut v, i as u64);
    }
    string_from_chars(v.as_slice())
}

/// The volume a volume text sets, or the message of why it is refused.
pub fn new_volume(t: &str) -> (r: Result<u8, String>)
    ensures
        match new_volume_spec(t@) {
            Ok(v) => r == Ok::<u8, String>(v),
            Err(m) => r matches Err(e) && e@ == m,
        },
{
    let c = chars_of(t);
    if c.len() > 0 && (c[0] == '+' || c[0] == '-') {
        match parse_i16(t) {
            Some(d) => {
                let x: i32 = 50 + d as i32;
                let v: i32 = if x < 0 {
                    0
                } else if x > 100 {
                    100
                } else {
                    x
                };
                Ok(v as u8)
            },
            None => Err(string_of("Invalid relative volume value")),
        }
    } else {
        match parse_u8(t) {
            Some(v) => if v <= 100 {
                Ok(v)
            } else {
                Err(string_of("Invalid volume value"))
            },
            None => Err(string_of("Invalid volume value")),
        }
    }
}

fn plan_sync(player: &str, a: &[RpcValue]) -> (r: Result<SlimAction, JsonRpcError>)
    ensures
        action_outcome(r, sync_spec(player@, a@)),
{
    if a.len() < 2 {
        return invalid_params("sync command requires target player MAC");
    }
    let target = match a[1].as_str() {
        Some(t) => t,
        None => {
            return invalid_params("target MAC must be a string");
        },
    };
    let p = match parse_uuid(player) {
        Some(p) => p,
        None => {
            return invalid_params("Invalid player UUID");
        },
    };
    if str_eq(target, "-") {
        Ok(SlimAction::Unsync { player: p })
    } else {
        match parse_uuid(target) {
            Some(t) => Ok(SlimAction::Sync { player: p, target: t }),
            None => invalid_params("Invalid target UUID"),
        }
    }
}

fn plan_mixer(a: &[RpcValue]) -> (r: Result<SlimAction, JsonRpcError>)
    ensures
        action_outcome(r, mixer_spec(a@)),
{
    if a.len() < 3 {
        return invalid_params("mixer command requires [\"mixer\", \"volume\", value]");
    }
    let sub = match a[1].as_str() {
        Some(s) => s,
        None => {
            return invalid_params("mixer subcommand must be a string");
        },
    };
    if !str_eq(sub, "volume") {
        return Err(JsonRpcError { code: INVALID_PARAMS, message: concat_str("Unknown mixer subcommand: ", sub) });
    }
    let text: String = match &a[2] {
        RpcValue::Str(s) => s.clone(),
        RpcValue::Number { signed: Some(i), .. } => i64_string(*i),
        _ => {
            return invalid_params("volume value must be a number or string");
        },
    };
    match new_volume(text.as_str()) {
        Ok(v) => Ok(SlimAction::Mixer { volume: v }),
        Err(m) => Err(JsonRpcError { code: INVALID_PARAMS, message: m }),
    }
}

fn plan_time(a: &[RpcValue]) -> (r: Result<SlimAction, JsonRpcError>)
    ensures
        action_outcome(r, time_spec(a@)),
{
    if a.len() < 2 {
        return invalid_params("time command requires position value");
    }
    let text: &str = match &a[1] {
        RpcValue::Str(s) => s.as_str(),
        RpcValue::Number { float_text, .. } => float_text.as_str(),
        _ => {
            return invalid_params("time value must be a number or string");
        },
    };
    let c = chars_of(text);
    if c.len() > 0 && (c[0] == '+' || c[0] == '-') {
        let rest = string_from_chars(vstd::slice::slice_subrange(c.as_slice(), 1, c.len()));
        assert(c@.subrange(1, c@.len() as int) =~= c@.skip(1));
        if c[0] == '+' {
            Ok(SlimAction::SkipAhead { seconds: rest })
        } else {
            Ok(SlimAction::SkipBack { seconds: rest })
        }
    } else {
        Ok(SlimAction::AbsoluteSeek)
    }
}

fn plan_playlistcontrol(a: &[RpcValue]) -> (r: Result<SlimAction, JsonRpcError>)
    ensures
        action_outcome(r, playlistcontrol_spec(a@)),
{
    if a.len() < 2 {
        return invalid_params("playlistcontrol requires subcommand");
    }
    let sub = match a[1].as_str() {
        Some(s) => s,
        None => {
            return invalid_params("playlistcontrol subcommand must be a string");
        },
    };
    if str_eq(sub, "cmd:add") {
        if a.len() < 4 {
            return invalid_params("cmd:add requires track_id");
        }
        match a[3].as_i64() {
            Some(id) => Ok(SlimAction::PlaylistAdd { track_id: id }),
            None => invalid_params("track_id must be an integer"),
        }
    } else if str_eq(sub, "cmd:clear") {
        Ok(SlimAction::PlaylistClear)
    } else if str_eq(sub, "cmd:jump") {
        if a.len() < 3 {
            return invalid_params("cmd:jump requires index");
        }
        match a[2].as_u64() {
            Some(i) => Ok(SlimAction::PlaylistJump { index: i }),
            None => invalid_params("index must be a number"),
        }
    } else {
        Ok(SlimAction::PlaylistControlUnknown { subcommand: string_of(sub) })
    }
}

fn plan_button(a: &[RpcValue]) -> (r: Result<SlimAction, JsonRpcError>)
    ensures
        action_outcome(r, button_spec(a@)),
{
    if a.len() < 2 {
        return invalid_params("button command requires button name");
    }
    let b = match a[1].as_str() {
        Some(s) => s,
        None => {
            return invalid_params("button name must be a string");
        },
    };
    if str_eq(b, "arrow_right") || str_eq(b, "jump_rew") {
        Ok(SlimAction::ButtonNext)
    } else if str_eq(b, "arrow_left") || str_eq(b, "jump_fwd") {
        Ok(SlimAction::ButtonPrevious)
    } else {
        Ok(SlimAction::ButtonUnknown { button: string_of(b) })
    }
}

fn mode_value(v: &RpcValue) -> (r: Option<i64>)
    ensures
        r == mode_of(*v),
{
    match v.as_i64() {
        Some(i) => Some(i),
        None => match v.as_str() {
            Some(s) => parse_i64(s),
            None => None,
        },
    }
}

fn plan_playlist(a: &[RpcValue]) -> (r: Result<SlimAction, JsonRpcError>)
    ensures
        action_outcome(r, playlist_spec(a@)),
{
    if a.len() < 2 {
        return invalid_params("playlist command requires subcommand");
    }
    let sub = match a[1].as_str() {
        Some(s) => s,
        None => {
            return invalid_params("playlist subcommand must be a string");
        },
    };
    if str_eq(sub, "tracks") {
        Ok(SlimAction::PlaylistTracks)
    } else if str_eq(sub, "shuffle") {
        if a.len() < 3 {
            return invalid_params("shuffle requires mode (0, 1, or 2)");
        }
        match mode_value(&a[2]) {
            Some(m) => Ok(SlimAction::Shuffle { mode: m }),
            None => invalid_params("shuffle mode must be a number"),
        }
    } else if str_eq(sub, "repeat") {
        if a.len() < 3 {
            return invalid_params("repeat requires mode (0, 1, or 2)");
        }
        match mode_value(&a[2]) {
            Some(m) => Ok(SlimAction::Repeat { mode: m }),
            None => invalid_params("repeat mode must be a number"),
        }
    } else {
        Ok(SlimAction::PlaylistUnknown { subcommand: string_of(sub) })
    }
}

/// What a command with its arguments (the command itself first) asks for.
pub fn plan_command(player: &str, cmd: &str, a: &[RpcValue]) -> (r: Result<SlimAction, JsonRpcError>)
    ensures
        action_outcome(r, command_spec(player@, cmd@, a@)),
{
    if str_eq(cmd, "status") {
        Ok(SlimAction::Status)
    } else if str_eq(cmd, "play") {
        if a.len() > 1 {
            match a[1].as_i64() {
                Some(id) => Ok(SlimAction::PlayTrack { track_id: id }),
                None => invalid_params("track_id must be an integer"),
            }
        } else {
            Ok(SlimAction::Resume)
        }
    } else if str_eq(cmd, "pause") {
        let should_pause = if a.len() > 1 {
            match a[1].as_i64() {
                Some(v) => v != 0,
                None => true,
            }
        } else {
            true
        };
        if should_pause {
            Ok(SlimAction::Pause)
        } else {
            Ok(SlimAction::Unpause)
        }
    } else if str_eq(cmd, "stop") {
        Ok(SlimAction::Stop)
    } else if str_eq(cmd, "sync") {
        plan_sync(player, a)
    } else if str_eq(cmd, "syncgroupid") {
        match parse_uuid(player) {
            Some(p) => Ok(SlimAction::SyncGroupId { player: p }),
            None => invalid_params("Invalid player UUID"),
        }
    } else if str_eq(cmd, "mixer") {
        plan_mixer(a)
    } else if str_eq(cmd, "time") {
        plan_time(a)
    } else if str_eq(cmd, "playlistcontrol") {
        plan_playlistcontrol(a)
    } else if str_eq(cmd, "button") {
        plan_button(a)
    } else if str_eq(cmd, "playlist") {
        plan_playlist(a)
    } else {
        Ok(SlimAction::NotImplemented { command: string_of(cmd) })
    }
}

/// What a `slim.request` asks for, or the invalid-params error it earns.
pub fn plan_slim_request(params: Option<&[RpcValue]>) -> (r: Result<SlimRequest, JsonRpcError>)
    ensures
        match plan_spec(
            match params {
                Some(p) => Some(p@),
                None => None,
            },
        ) {
            Ok((player, act)) => r matches Ok(req) && req.player_id@ == player && action_view(req.action) == act,
            Err((code, msg)) => r matches Err(e) && e.code == code && e.message@ == msg,
        },
{
    let p = match params {
        Some(p) => p,
        None => {
            return Err(JsonRpcError { code: INVALID_PARAMS, message: string_of("Invalid params") });
        },
    };
    if p.len() < 2 {
        return Err(
            JsonRpcError {
                code: INVALID_PARAMS,
                message: string_of("slim.request requires [player_id, [command, ...args]]"),
            },
        );
    }
    let player = match p[0].as_str() {
        Some(s) => s,
        None => {
            return Err(JsonRpcError { code: INVALID_PARAMS, message: string_of("player_id must be a string") });
        },
    };
    let a = match &p[1] {
        RpcValue::Array(a) => a,
        _ => {
            return Err(JsonRpcError { code: INVALID_PARAMS, message: string_of("command must be an array") });
        },
    };
    if a.len() == 0 {
        return Err(JsonRpcError { code: INVALID_PARAMS, message: string_of("command array cannot be empty") });
    }
    let cmd = match a[0].as_str() {
        Some(s) => s,
        None => {
            return Err(JsonRpcError { code: INVALID_PARAMS, message: string_of("command must be a string") });
        },
    };
    match plan_command(player, cmd, a.as_slice()) {
        Ok(action) => Ok(SlimRequest { player_id: string_of(player), action }),
        Err(e) => Err(e),
    }
}

/// Only `slim.request` is a method; any other is refused.
pub fn check_method(method: &str) -> (r: Result<(), JsonRpcError>)
    ensures
        method@ == "slim.request"@ ==> r is Ok,
        method@ != "slim.request"@ ==> (r matches Err(e) && e.code == METHOD_NOT_FOUND && e.message@ == "Method '"@
            + method@ + "' not found"@),
{
    if str_eq(method, "slim.request") {
        Ok(())
    } else {
        let a = concat_str("Method '", method);
        Err(JsonRpcError { code: METHOD_NOT_FOUND, message: concat_str(a.as_str(), "' not found") })
    }
}

// ---------------------------------------------------------------------------
// Stream commands
// ---------------------------------------------------------------------------

/// The address the players are told to fetch streams from: 192.168.1.210.
pub open spec fn stream_server_ip() -> u32 {
    0xC0A8_01D2
}

/// The HTTP port the players are told to fetch streams from.
pub open spec fn stream_server_port() -> u16 {
    9000
}

/// Decoder settings for a content type: format, PCM sample size, rate,
/// channels, endianness, and output threshold. Unknown types are treated
/// as MP3.
pub open spec fn stream_format_spec(content_type: Seq<char>) -> (u8, u8, u8, u8, u8, u8) {
    if content_type == "wav"@ || content_type == "pcm"@ {
        ('p' as u8, 1, 3, 2, 1, 0)
    } else if content_type == "mp3"@ {
        ('m' as u8, '?' as u8, '?' as u8, '?' as u8, '?' as u8, 1)
    } else if content_type == "flac"@ || content_type == "flc"@ {
        ('f' as u8, '?' as u8, '?' as u8, '?' as u8, '?' as u8, 0)
    } else if content_type == "ogg"@ {
        ('o' as u8, '?' as u8, '?' as u8, '?' as u8, '?' as u8, 20)
    } else if content_type == "aac"@ || content_type == "mp4"@ {
        ('a' as u8, '?' as u8, '?' as u8, '?' as u8, '?' as u8, 0)
    } else {
        ('m' as u8, '?' as u8, '?' as u8, '?' as u8, '?' as u8, 1)
    }
}

/// The decoder settings for a content type.
pub fn stream_format(content_type: &str) -> (r: (u8, u8, u8, u8, u8, u8))
    ensures
        r == stream_format_spec(content_type@),
{
    let q = '?' as u8;
    if str_eq(content_type, "wav") || str_eq(content_type, "pcm") {
        ('p' as u8, 1, 3, 2, 1, 0)
    } else if str_eq(content_type, "mp3") {
        ('m' as u8, q, q, q, q, 1)
    } else if str_eq(content_type, "flac") || str_eq(content_type, "flc") {
        ('f' as u8, q, q, q, q, 0)
    } else if str_eq(content_type, "ogg") {
        ('o' as u8, q, q, q, q, 20)
    } else if str_eq(content_type, "aac") || str_eq(content_type, "mp4") {
        ('a' as u8, q, q, q, q, 0)
    } else {
        ('m' as u8, q, q, q, q, 1)
    }
}

/// The HTTP request a player sends for a track's stream.
pub open spec fn stream_request_text(track_id: int) -> Seq<char> {
    "GET /stream/"@ + signed_decimal(track_id) + " HTTP/1.0\r\n\r\n"@
}

/// The request line for a track's stream.
pub fn stream_request(track_id: i64) -> (r: String)
    ensures
        r@ == stream_request_text(track_id as int),
{
    let id = i64_string(track_id);
    let a = concat_str("GET /stream/", id.as_str());
    concat_str(a.as_str(), " HTTP/1.0\r\n\r\n")
}

/// The command that starts streaming a track with the given decoder
/// settings: autostart, a 30 KB buffer threshold, no transition, from the
/// stream server.
pub fn start_command(track_id: i64, fmt: (u8, u8, u8, u8, u8, u8)) -> (r: StreamCommand)
    ensures
        r matches StreamCommand::Start {
            autostart,
            format,
            pcm_sample_size,
            pcm_sample_rate,
            pcm_channels,
            pcm_endian,
            buffer_threshold,
            spdif_enable,
            transition_duration,
            transition_type,
            flags,
            output_threshold,
            reserved,
            replay_gain,
            server_port,
            server_ip,
            request_string,
        } && autostart == 1 && format == fmt.0 && pcm_sample_size == fmt.1 && pcm_sample_rate == fmt.2
            && pcm_channels == fmt.3 && pcm_endian == fmt.4 && buffer_threshold == 30 && spdif_enable == 0
            && transition_duration == 0 && transition_type == 0 && flags == 0 && output_threshold == fmt.5
            && reserved == 0 && replay_gain == 0 && server_port == stream_server_port() && server_ip
            == stream_server_ip() && request_string@ == stream_request_text(track_id as int),
{
    StreamCommand::Start {
        autostart: 1,
        format: fmt.0,
        pcm_sample_size: fmt.1,
        pcm_sample_rate: fmt.2,
        pcm_channels: fmt.3,
        pcm_endian: fmt.4,
        buffer_threshold: 30,
        spdif_enable: 0,
        transition_duration: 0,
        transition_type: 0,
        flags: 0,
        output_threshold: fmt.5,
        reserved: 0,
        replay_gain: 0,
        server_port: 9000,
        server_ip: 0xC0A8_01D2,
        request_string: stream_request(track_id),
    }
}

/// The command that starts a track of a given content type.
pub fn start_command_for(track_id: i64, content_type: &str) -> (r: StreamCommand)
    ensures
        r matches StreamCommand::Start { format, output_threshold, server_port, request_string, .. } && (format, output_threshold)
            == (stream_format_spec(content_type@).0, stream_format_spec(content_type@).5) && server_port == 9000
            && request_string@ == stream_request_text(track_id as int),
{
    start_command(track_id, stream_format(content_type))
}

/// The command that starts a playlist track, assumed to be 16-bit
/// 44.1 kHz stereo little-endian PCM.
pub fn start_pcm_command(track_id: i64) -> (r: StreamCommand)
    ensures
        r matches StreamCommand::Start { format, pcm_sample_size, pcm_sample_rate, pcm_channels, pcm_endian, output_threshold, request_string, .. } && format == 'p' as u8 && pcm_sample_size == 1
            && pcm_sample_rate == 3 && pcm_channels == 2 && pcm_endian == 1 && output_threshold == 0
            && request_string@ == stream_request_text(track_id as int),
{
    start_command(track_id, ('p' as u8, 1, 3, 2, 1, 0))
}

impl SlimAction {
    /// The message reported for a request the server does not carry out,
    /// where it is one.
    pub fn unsupported_message(&self) -> (r: Option<String>)
        ensures
            match action_view(*self) {
                ActionView::AbsoluteSeek => r matches Some(m) && m@
                    == "Absolute seek not yet implemented - use relative (+/- seconds)"@,
                ActionView::PlaylistControlUnknown(s) => r matches Some(m) && m@ == "Unknown playlistcontrol command: "@
                    + s,
                ActionView::ButtonUnknown(b) => r matches Some(m) && m@ == "Unknown button: "@ + b,
                ActionView::PlaylistUnknown(s) => r matches Some(m) && m@ == "Unknown playlist subcommand: "@ + s,
                ActionView::NotImplemented(c) => r matches Some(m) && m@ == "Command '"@ + c + "' not yet implemented"@,
                _ => r is None,
            },
    {
        match self {
            SlimAction::AbsoluteSeek => Some(
                string_of("Absolute seek not yet implemented - use relative (+/- seconds)"),
            ),
            SlimAction::PlaylistControlUnknown { subcommand } => Some(
                concat_str("Unknown playlistcontrol command: ", subcommand.as_str()),
            ),
            SlimAction::ButtonUnknown { button } => Some(concat_str("Unknown button: ", button.as_str())),
            SlimAction::PlaylistUnknown { subcommand } => Some(
                concat_str("Unknown playlist subcommand: ", subcommand.as_str()),
            ),
            SlimAction::NotImplemented { command } => {
                let a = concat_str("Command '", command.as_str());
                Some(concat_str(a.as_str(), "' not yet implemented"))
            },
            _ => None,
        }
    }
}


/// A `time` request with a signed value skips: a value beginning with `+`
/// forward and one beginning with `-` backward, each by the rest of the
/// text; any other value asks for an absolute seek.
pub proof fn lemma_time_direction(player: Seq<char>, a: Seq<RpcValue>, t: Seq<char>)
    requires
        a.len() >= 2,
        time_text(a[1]) == Some(t),
    ensures
        t.len() > 0 && t[0] == '+' ==> command_spec(player, "time"@, a) == Ok::<ActionView, (i32, Seq<char>)>(
            ActionView::SkipAhead(t.skip(1)),
        ),
        t.len() > 0 && t[0] == '-' ==> command_spec(player, "time"@, a) == Ok::<ActionView, (i32, Seq<char>)>(
            ActionView::SkipBack(t.skip(1)),
        ),
        !(t.len() > 0 && (t[0] == '+' || t[0] == '-')) ==> command_spec(player, "time"@, a) == Ok::<
            ActionView,
            (i32, Seq<char>),
        >(ActionView::AbsoluteSeek),
{
    lemma_time_differs_from("status");
    lemma_time_differs_from("play");
    lemma_time_differs_from("pause");
    lemma_time_differs_from("stop");
    lemma_time_differs_from("sync");
    lemma_time_differs_from("syncgroupid");
    lemma_time_differs_from("mixer");
}


/// `time` is none of the command names looked at before it.
proof fn lemma_time_differs_from(other: &str)
    requires
        other@ == "status"@ || other@ == "play"@ || other@ == "pause"@ || other@ == "stop"@ || other@ == "sync"@
            || other@ == "syncgroupid"@ || other@ == "mixer"@,
    ensures
        "time"@ != other@,
{
    reveal_strlit("time");
    if other@ == "status"@ {
        reveal_strlit("status");
        assert("status"@[0] != "time"@[0]);
    } else if other@ == "play"@ {
        reveal_strlit("play");
        assert("play"@[0] != "time"@[0]);
    } else if other@ == "pause"@ {
        reveal_strlit("pause");
        assert("pause"@[0] != "time"@[0]);
    } else if other@ == "stop"@ {
        reveal_strlit("stop");
        assert("stop"@[0] != "time"@[0]);
    } else if other@ == "sync"@ {
        reveal_strlit("sync");
        assert("sync"@[0] != "time"@[0]);
    } else if other@ == "syncgroupid"@ {
        reveal_strlit("syncgroupid");
        assert("syncgroupid"@[0] != "time"@[0]);
    } else {
        reveal_strlit("mixer");
        assert("mixer"@[0] != "time"@[0]);
    }
}

} // verus!
