//! The random-mix plugin: random tracks, albums, artists or years from the
//! library. What it decides is here: which mix a command or an HTTP path
//! asks for and how many items to draw, its manifest, routes and settings.
//! Drawing the rows from the database is the caller's part.
use vstd::prelude::*;
use crate::plugins::{concat_str, HttpResponse, HttpRoute, PluginError, PluginManifest};
use crate::text::{ends_with, has_suffix, parse_unsigned_spec, parse_usize, str_eq, string_of, strings_view};

verus! {

/// The settings form of the plugin, as a JSON schema.
pub const SETTINGS_SCHEMA: &'static str = r#"{
            "type": "object",
            "properties": {
                "newtracks": {
                    "type": "integer",
                    "title": "Number of tracks to add",
                    "default": 20,
                    "minimum": 1,
                    "maximum": 100
                }
            }
        }"#;

/// The kinds of random mix.
#[derive(Debug, Clone, Copy, PartialEq, Eq, Structural)]
pub enum RandomMode {
    /// Random tracks.
    Tracks,
    /// All tracks of random albums.
    Albums,
    /// A few random tracks of each of some random artists, shuffled.
    Artists,
    /// A few random tracks of each of some random years, shuffled.
    Years,
}

impl RandomMode {
    /// The mode's name, as commands and responses spell it.
    pub open spec fn name_spec(self) -> Seq<char> {
        match self {
            RandomMode::Tracks => "tracks"@,
            RandomMode::Albums => "albums"@,
            RandomMode::Artists => "artists"@,
            RandomMode::Years => "years"@,
        }
    }

    /// The mode's name.
    pub fn name(&self) -> (r: &'static str)
        ensures
            r@ == self.name_spec(),
    {
        match self {
            RandomMode::Tracks => "tracks",
            RandomMode::Albums => "albums",
            RandomMode::Artists => "artists",
            RandomMode::Years => "years",
        }
    }
}

/// A mix to draw: its kind and how many tracks, albums, artists or years
/// to draw.
#[derive(Debug, Clone, Copy, PartialEq, Eq, Structural)]
pub struct RandomQuery {
    pub mode: RandomMode,
    pub limit: usize,
}

/// The mix for a mode name and a track count: tracks draw `count` tracks,
/// albums 5 albums, artists and years 10 each; another name is no mix.
pub open spec fn mix_for(mode: Seq<char>, count: usize) -> Option<RandomQuery> {
    if mode == "tracks"@ {
        Some(RandomQuery { mode: RandomMode::Tracks, limit: count })
    } else if mode == "albums"@ {
        Some(RandomQuery { mode: RandomMode::Albums, limit: 5 })
    } else if mode == "artists"@ {
        Some(RandomQuery { mode: RandomMode::Artists, limit: 10 })
    } else if mode == "years"@ {
        Some(RandomQuery { mode: RandomMode::Years, limit: 10 })
    } else {
        None
    }
}

/// The mix an HTTP path asks for, by its ending.
pub open spec fn mix_for_path(path: Seq<char>, count: usize) -> Option<RandomQuery> {
    if has_suffix(path, "/tracks"@) {
        Some(RandomQuery { mode: RandomMode::Tracks, limit: count })
    } else if has_suffix(path, "/albums"@) {
        Some(RandomQuery { mode: RandomMode::Albums, limit: 5 })
    } else if has_suffix(path, "/artists"@) {
        Some(RandomQuery { mode: RandomMode::Artists, limit: 10 })
    } else if has_suffix(path, "/years"@) {
        Some(RandomQuery { mode: RandomMode::Years, limit: 10 })
    } else {
        None
    }
}

/// The value of the first parameter named `k`.
pub open spec fn param_value(params: Seq<(String, String)>, k: Seq<char>) -> Option<Seq<char>> {
    if exists|i: int| 0 <= i < params.len() && params[i].0@ == k {
        let i = choose|i: int|
            0 <= i < params.len() && params[i].0@ == k && forall|j: int|
                0 <= j < i ==> (#[trigger] params[j]).0@ != k;
        Some(params[i].1@)
    } else {
        None
    }
}

/// The track count a request asks for: its `count` parameter where that is
/// a number, else the plugin's own count.
pub open spec fn requested_count(params: Seq<(String, String)>, own: usize) -> usize {
    match param_value(params, "count"@) {
        Some(c) => match parse_unsigned_spec(c, usize::MAX as nat) {
            Some(n) => n as usize,
            None => own,
        },
        None => own,
    }
}

/// The value of the first parameter named `k`.
fn param<'a>(params: &'a [(String, String)], k: &str) -> (r: Option<&'a str>)
    ensures
        match param_value(params@, k@) {
            Some(v) => r matches Some(s) && s@ == v,
            None => r is None,
        },
{
    let mut i: usize = 0;
    while i < params.len()
        invariant
            i <= params@.len(),
            forall|j: int| 0 <= j < i ==> (#[trigger] params@[j]).0@ != k@,
        decreases params@.len() - i,
    {
        if str_eq(params[i].0.as_str(), k) {
            proof {
                let c = choose|c: int|
                    0 <= c < params@.len() && params@[c].0@ == k@ && forall|j: int|
                        0 <= j < c ==> (#[trigger] params@[j]).0@ != k@;
                if c < i {
                    assert(params@[c].0@ != k@);
                } else if c > i {
                    assert(params@[i as int].0@ != k@);
                }
            }
            return Some(params[i].1.as_str());
        }
        i = i + 1;
    }
    None
}

/// The text a failed mix is answered with: "Error: " and the error's text.
pub fn error_reply(e: &PluginError) -> (r: String)
    ensures
        r@ == "Error: "@ + crate::plugins::plugin_error_text(*e),
{
    let m = e.message();
    concat_str("Error: ", m.as_str())
}

/// The answer to an unknown mode: the error text of the initialization
/// error "Unknown mode: {mode}".
fn unknown_mode_reply(mode: &str) -> (r: String)
    ensures
        r@ == "Error: Plugin initialization failed: Unknown mode: "@ + mode@,
{
    let detail = concat_str("Unknown mode: ", mode);
    let e = PluginError::from(detail);
    let t = error_reply(&e);
    proof {
        reveal_strlit("Error: ");
        reveal_strlit("Plugin initialization failed: ");
        reveal_strlit("Unknown mode: ");
        reveal_strlit("Error: Plugin initialization failed: Unknown mode: ");
        assert(t@ =~= "Error: Plugin initialization failed: Unknown mode: "@ + mode@);
    }
    t
}

/// The answer to an unknown path: the error text of the initialization
/// error "Unknown endpoint".
fn unknown_endpoint_reply() -> (r: String)
    ensures
        r@ == "Error: Plugin initialization failed: Unknown endpoint"@,
{
    let e = PluginError::from(string_of("Unknown endpoint"));
    let t = error_reply(&e);
    proof {
        reveal_strlit("Error: ");
        reveal_strlit("Plugin initialization failed: ");
        reveal_strlit("Unknown endpoint");
        reveal_strlit("Error: Plugin initialization failed: Unknown endpoint");
        assert(t@ =~= "Error: Plugin initialization failed: Unknown endpoint"@);
    }
    t
}

/// The random-mix plugin's state: whether it has a library to draw from,
/// and how many tracks it draws by default.
pub struct RandomPlayPlugin {
    pub connected: bool,
    pub track_count: usize,
}

/// What a `randomplay` command comes to.
#[derive(Debug)]
pub enum CommandOutcome {
    /// Not this plugin's command, or no library to draw from: no answer.
    Unhandled,
    /// Draw this mix and answer with it.
    Draw(RandomQuery),
    /// Answer with this text.
    Reply(String),
}

/// What an HTTP request to the plugin comes to.
#[derive(Debug)]
pub enum HttpOutcome {
    /// Draw this mix and answer with it.
    Draw(RandomQuery),
    /// Answer with this response.
    Respond(HttpResponse),
}

impl RandomPlayPlugin {
    /// A plugin with no library yet, drawing 20 tracks by default.
    pub fn new() -> (r: Self)
        ensures
            !r.connected,
            r.track_count == 20,
    {
        Self { connected: false, track_count: 20 }
    }

    /// The plugin's manifest.
    pub fn manifest(&self) -> (r: PluginManifest)
        ensures
            r.name@ == "RandomPlay"@,
            r.version@ == "1.0.0"@,
            r.author@ == "Lyrion Community"@,
            r.description matches Some(d) && d@ == "Generate random playlists by track, album, artist, or year"@,
            r.min_server_version matches Some(v) && v@ == "0.1.0"@,
            r.dependencies@.len() == 0,
            strings_view(r.capabilities@) == seq!["cli"@, "http"@],
            !r.enforced,
    {
        let mut capabilities: Vec<String> = Vec::new();
        capabilities.push(string_of("cli"));
        capabilities.push(string_of("http"));
        assert(strings_view(capabilities@) =~= seq!["cli"@, "http"@]);
        PluginManifest {
            name: string_of("RandomPlay"),
            version: string_of("1.0.0"),
            author: string_of("Lyrion Community"),
            description: Some(string_of("Generate random playlists by track, album, artist, or year")),
            min_server_version: Some(string_of("0.1.0")),
            dependencies: Vec::new(),
            capabilities,
            enforced: false,
        }
    }

    /// Starts the plugin with a library to draw from; the `newtracks`
    /// preference, where it is a number, becomes the default count.
    pub fn init(&mut self, newtracks: Option<&str>) -> (r: Result<(), String>)
        ensures
            r is Ok,
            final(self).connected,
            final(self).track_count == (match newtracks {
                Some(s) => match parse_unsigned_spec(s@, usize::MAX as nat) {
                    Some(n) => n as usize,
                    None => old(self).track_count,
                },
                None => old(self).track_count,
            }),
    {
        self.connected = true;
        if let Some(s) = newtracks {
            if let Some(n) = parse_usize(s) {
                self.track_count = n;
            }
        }
        Ok(())
    }

    /// Stops the plugin: it has no library any more.
    pub fn shutdown(&mut self)
        ensures
            !final(self).connected,
            final(self).track_count == old(self).track_count,
    {
        self.connected = false;
    }

    /// What the command `command` with parameters `params` comes to: only
    /// `randomplay` is this plugin's, and only with a library; its `mode`
    /// (default "tracks") picks the mix and its `count` the number of
    /// tracks; an unknown mode is answered with an error text.
    pub fn handle_command(&self, command: &str, params: &[(String, String)]) -> (r: CommandOutcome)
        ensures
            command@ != "randomplay"@ || !self.connected ==> r is Unhandled,
            command@ == "randomplay"@ && self.connected ==> {
                let mode = match param_value(params@, "mode"@) {
                    Some(m) => m,
                    None => "tracks"@,
                };
                match mix_for(mode, requested_count(params@, self.track_count)) {
                    Some(q) => r == CommandOutcome::Draw(q),
                    None => r matches CommandOutcome::Reply(t) && t@ == "Error: Plugin initialization failed: Unknown mode: "@
                        + mode,
                }
            },
    {
        if !str_eq(command, "randomplay") {
            return CommandOutcome::Unhandled;
        }
        let mode = match param(params, "mode") {
            Some(m) => m,
            None => "tracks",
        };
        let count = match param(params, "count") {
            Some(c) => match parse_usize(c) {
                Some(n) => n,
                None => self.track_count,
            },
            None => self.track_count,
        };
        if !self.connected {
            return CommandOutcome::Unhandled;
        }
        if str_eq(mode, "tracks") {
            CommandOutcome::Draw(RandomQuery { mode: RandomMode::Tracks, limit: count })
        } else if str_eq(mode, "albums") {
            CommandOutcome::Draw(RandomQuery { mode: RandomMode::Albums, limit: 5 })
        } else if str_eq(mode, "artists") {
            CommandOutcome::Draw(RandomQuery { mode: RandomMode::Artists, limit: 10 })
        } else if str_eq(mode, "years") {
            CommandOutcome::Draw(RandomQuery { mode: RandomMode::Years, limit: 10 })
        } else {
            CommandOutcome::Reply(unknown_mode_reply(mode))
        }
    }

    /// The plugin's routes: GET on `/plugins/randomplay/` followed by
    /// `tracks`, `albums`, `artists` and `years`.
    pub fn http_routes(&self) -> (r: Vec<HttpRoute>)
        ensures
            r@.len() == 4,
            forall|i: int| 0 <= i < 4 ==> (#[trigger] r@[i]).method@ == "GET"@,
            r@[0].path@ == "/plugins/randomplay/tracks"@ && r@[0].handler_id@ == "random_tracks"@,
            r@[1].path@ == "/plugins/randomplay/albums"@ && r@[1].handler_id@ == "random_albums"@,
            r@[2].path@ == "/plugins/randomplay/artists"@ && r@[2].handler_id@ == "random_artists"@,
            r@[3].path@ == "/plugins/randomplay/years"@ && r@[3].handler_id@ == "random_years"@,
    {
        let mut r: Vec<HttpRoute> = Vec::new();
        r.push(HttpRoute { method: string_of("GET"), path: string_of("/plugins/randomplay/tracks"), handler_id: string_of("random_tracks") });
        r.push(HttpRoute { method: string_of("GET"), path: string_of("/plugins/randomplay/albums"), handler_id: string_of("random_albums") });
        r.push(HttpRoute { method: string_of("GET"), path: string_of("/plugins/randomplay/artists"), handler_id: string_of("random_artists") });
        r.push(HttpRoute { method: string_of("GET"), path: string_of("/plugins/randomplay/years"), handler_id: string_of("random_years") });
        r
    }

    /// What an HTTP request to `path` with query `query` comes to: without
    /// a library it fails with "Database not initialized"; otherwise the
    /// path's ending picks the mix and the `count` parameter the number of
    /// tracks; an unknown ending is answered with status 500.
    pub fn handle_http_request(&self, path: &str, query: &[(String, String)]) -> (r: Result<HttpOutcome, String>)
        ensures
            !self.connected ==> (r matches Err(e) && e@ == "Database not initialized"@),
            self.connected ==> match mix_for_path(path@, requested_count(query@, self.track_count)) {
                Some(q) => r == Ok::<HttpOutcome, String>(HttpOutcome::Draw(q)),
                None => r matches Ok(HttpOutcome::Respond(resp)) && resp.status == 500 && resp.headers@.len() == 0
                    && resp.body@ == vstd::utf8::encode_utf8("Error: Plugin initialization failed: Unknown endpoint"@),
            },
    {
        let count = match param(query, "count") {
            Some(c) => match parse_usize(c) {
                Some(n) => n,
                None => self.track_count,
            },
            None => self.track_count,
        };
        if !self.connected {
            return Err(string_of("Database not initialized"));
        }
        if ends_with(path, "/tracks") {
            Ok(HttpOutcome::Draw(RandomQuery { mode: RandomMode::Tracks, limit: count }))
        } else if ends_with(path, "/albums") {
            Ok(HttpOutcome::Draw(RandomQuery { mode: RandomMode::Albums, limit: 5 }))
        } else if ends_with(path, "/artists") {
            Ok(HttpOutcome::Draw(RandomQuery { mode: RandomMode::Artists, limit: 10 }))
        } else if ends_with(path, "/years") {
            Ok(HttpOutcome::Draw(RandomQuery { mode: RandomMode::Years, limit: 10 }))
        } else {
            let t = unknown_endpoint_reply();
            Ok(HttpOutcome::Respond(HttpResponse::error(500, t.as_str())))
        }
    }

    /// The plugin's settings form.
    pub fn settings_schema(&self) -> (r: Option<String>)
        ensures
            r matches Some(s) && s@ == SETTINGS_SCHEMA@,
    {
        Some(string_of(SETTINGS_SCHEMA))
    }
}


/// The mix drawn for a mode name is of the mode with that name; the mix an
/// HTTP path asks for is of the mode its last piece names.
pub proof fn lemma_mix_matches_mode(mode: Seq<char>, path: Seq<char>, count: usize)
    ensures
        mix_for(mode, count) matches Some(q) ==> q.mode.name_spec() == mode,
        mix_for_path(path, count) matches Some(q) ==> has_suffix(path, "/"@ + q.mode.name_spec()),
{
    reveal_strlit("/tracks");
    reveal_strlit("/albums");
    reveal_strlit("/artists");
    reveal_strlit("/years");
    reveal_strlit("/");
    reveal_strlit("tracks");
    reveal_strlit("albums");
    reveal_strlit("artists");
    reveal_strlit("years");
    assert("/"@ + "tracks"@ =~= "/tracks"@);
    assert("/"@ + "albums"@ =~= "/albums"@);
    assert("/"@ + "artists"@ =~= "/artists"@);
    assert("/"@ + "years"@ =~= "/years"@);
}

} // verus!
