//! Helpers of the REST API: player display names, list limits and search
//! patterns, and the answer to a cover-art request.
use vstd::prelude::*;
use crate::plugins::{concat_str, push_str_chars};
use crate::text::{chars_of, string_from_chars, to_lowercase, to_uppercase, unicode_lowercase, unicode_uppercase};

verus! {

/// The model name of a player, by device id.
pub open spec fn player_model_spec(device_id: u8) -> Seq<char> {
    if device_id == 1 {
        "SliMP3"@
    } else if device_id == 2 {
        "Squeezebox 1"@
    } else if device_id == 3 || device_id == 6 || device_id == 11 {
        "Softsqueeze"@
    } else if device_id == 4 {
        "Squeezebox 2"@
    } else if device_id == 5 {
        "Transporter"@
    } else if device_id == 7 {
        "Squeezebox Receiver"@
    } else if device_id == 8 {
        "SqueezeSlave"@
    } else if device_id == 9 {
        "Squeezebox Controller"@
    } else if device_id == 10 {
        "Squeezebox Boom"@
    } else if device_id == 12 {
        "SqueezePlay"@
    } else if device_id == 13 {
        "Squeezebox Radio"@
    } else if device_id == 14 {
        "Squeezebox Touch"@
    } else {
        "Unknown Player"@
    }
}

/// The model name of a player.
pub fn player_model(device_id: u8) -> (r: &'static str)
    ensures
        r@ == player_model_spec(device_id),
{
    if device_id == 1 {
        "SliMP3"
    } else if device_id == 2 {
        "Squeezebox 1"
    } else if device_id == 3 || device_id == 6 || device_id == 11 {
        "Softsqueeze"
    } else if device_id == 4 {
        "Squeezebox 2"
    } else if device_id == 5 {
        "Transporter"
    } else if device_id == 7 {
        "Squeezebox Receiver"
    } else if device_id == 8 {
        "SqueezeSlave"
    } else if device_id == 9 {
        "Squeezebox Controller"
    } else if device_id == 10 {
        "Squeezebox Boom"
    } else if device_id == 12 {
        "SqueezePlay"
    } else if device_id == 13 {
        "Squeezebox Radio"
    } else if device_id == 14 {
        "Squeezebox Touch"
    } else {
        "Unknown Player"
    }
}

/// `s` without its `:` characters.
pub open spec fn without_colons(s: Seq<char>) -> Seq<char> {
    s.filter(|c: char| c != ':')
}

/// The number of bytes of a character in UTF-8.
pub open spec fn utf8_width(c: char) -> nat {
    if (c as u32) < 0x80 {
        1
    } else if (c as u32) < 0x800 {
        2
    } else if (c as u32) < 0x10000 {
        3
    } else {
        4
    }
}

/// The number of bytes of a text in UTF-8.
pub open spec fn utf8_len(s: Seq<char>) -> nat
    decreases s.len(),
{
    if s.len() == 0 {
        0
    } else {
        utf8_width(s[0]) + utf8_len(s.drop_first())
    }
}

/// Whether the last four bytes of `s` in UTF-8 begin at a character (or
/// `s` has fewer than four bytes): where the text can be cut there.
pub open spec fn last_four_bytes_whole(s: Seq<char>) -> bool {
    utf8_len(s) < 4 || exists|k: int| 0 <= k <= s.len() && #[trigger] utf8_len(s.skip(k)) == 4
}

/// The short form of a MAC address: its last four bytes without colons,
/// in upper case (all of it if it is shorter).
pub open spec fn format_mac_spec(mac: Seq<char>) -> Seq<char> {
    let clean = without_colons(mac);
    if utf8_len(clean) < 4 {
        unicode_uppercase(clean)
    } else {
        unicode_uppercase(clean.skip(choose|k: int| 0 <= k <= clean.len() && #[trigger] utf8_len(clean.skip(k)) == 4))
    }
}

/// Each character has one to four bytes, so the bytes of later and later
/// suffixes strictly decrease.
pub proof fn lemma_utf8_len_suffixes(s: Seq<char>, i: int, j: int)
    requires
        0 <= i < j <= s.len(),
    ensures
        utf8_len(s.skip(i)) > utf8_len(s.skip(j)),
    decreases j - i,
{
    assert(s.skip(i).drop_first() =~= s.skip(i + 1));
    if i + 1 < j {
        lemma_utf8_len_suffixes(s, i + 1, j);
    }
}

fn utf8_width_of(c: char) -> (r: usize)
    ensures
        r == utf8_width(c),
        1 <= r <= 4,
{
    let v = c as u32;
    if v < 0x80 {
        1
    } else if v < 0x800 {
        2
    } else if v < 0x10000 {
        3
    } else {
        4
    }
}

/// Walks back from the end of `s` until at least four bytes are behind:
/// the position reached and the bytes from there on.
fn last_four_start(s: &Vec<char>) -> (r: (usize, usize))
    ensures
        r.0 <= s@.len(),
        r.1 == utf8_len(s@.skip(r.0 as int)),
        r.1 < 8,
        r.1 < 4 ==> r.0 == 0,
        r.0 < s@.len() ==> utf8_len(s@.skip(r.0 + 1)) < 4,
{
    let mut k: usize = s.len();
    let mut acc: usize = 0;
    assert(s@.skip(k as int) =~= Seq::<char>::empty());
    while acc < 4 && k > 0
        invariant
            k <= s@.len(),
            acc == utf8_len(s@.skip(k as int)),
            acc < 8,
            k < s@.len() ==> utf8_len(s@.skip(k + 1)) < 4,
        decreases k,
    {
        k = k - 1;
        let w = utf8_width_of(s[k]);
        assert(s@.skip(k as int).drop_first() =~= s@.skip(k + 1));
        acc = acc + w;
    }
    (k, acc)
}

/// Whether `format_mac` is defined on `mac`: the last four bytes of the
/// address without colons begin at a character.
pub fn format_mac_defined(mac: &str) -> (r: bool)
    ensures
        r == last_four_bytes_whole(without_colons(mac@)),
{
    let clean = strip_colons(mac);
    let (k, acc) = last_four_start(&clean);
    proof {
        let c = clean@;
        if acc > 4 {
            if utf8_len(c) >= 4 {
                assert(!exists|j: int| 0 <= j <= c.len() && #[trigger] utf8_len(c.skip(j)) == 4) by {
                    assert forall|j: int| 0 <= j <= c.len() implies #[trigger] utf8_len(c.skip(j)) != 4 by {
                        if j < k {
                            lemma_utf8_len_suffixes(c, j, k as int);
                        } else if j > k + 1 {
                            lemma_utf8_len_suffixes(c, k + 1, j);
                        }
                    }
                }
            }
            if k > 0 {
                lemma_utf8_len_suffixes(c, 0, k as int);
            }
            assert(c.skip(0) =~= c);
        } else if acc == 4 {
            assert(utf8_len(c.skip(k as int)) == 4);
        } else {
            assert(c.skip(0) =~= c);
        }
    }
    acc <= 4
}

/// The colons of a MAC address removed, as characters.
fn strip_colons(mac: &str) -> (r: Vec<char>)
    ensures
        r@ == without_colons(mac@),
{
    let c = chars_of(mac);
    let mut out: Vec<char> = Vec::new();
    let mut i: usize = 0;
    while i < c.len()
        invariant
            c@ == mac@,
            i <= c@.len(),
            out@ == c@.take(i as int).filter(|x: char| x != ':'),
        decreases c@.len() - i,
    {
        proof {
            reveal_with_fuel(Seq::<char>::filter, 1);
        }
        assert(c@.take(i + 1).drop_last() =~= c@.take(i as int));
        if c[i] != ':' {
            out.push(c[i]);
        }
        i = i + 1;
    }
    assert(c@.take(c@.len() as int) =~= c@);
    out
}

/// The short form of a MAC address, for display; defined where its last
/// four bytes begin at a character (always so for the ASCII addresses
/// players report).
pub fn format_mac(mac: &str) -> (r: String)
    requires
        last_four_bytes_whole(without_colons(mac@)),
    ensures
        r@ == format_mac_spec(mac@),
{
    let clean = strip_colons(mac);
    let n = clean.len();
    let (k, acc) = last_four_start(&clean);
    let ghost c = clean@;
    proof {
        if acc > 4 {
            if k > 0 {
                lemma_utf8_len_suffixes(c, 0, k as int);
            }
            assert(c.skip(0) =~= c);
            let j = choose|j: int| 0 <= j <= c.len() && #[trigger] utf8_len(c.skip(j)) == 4;
            if j < k {
                lemma_utf8_len_suffixes(c, j, k as int);
            } else if j > k + 1 {
                lemma_utf8_len_suffixes(c, k + 1, j);
            }
            assert(false);
        } else if acc == 4 {
            if k > 0 {
                lemma_utf8_len_suffixes(c, 0, k as int);
            }
            assert(c.skip(0) =~= c);
            assert(utf8_len(c) >= 4);
            assert(utf8_len(c.skip(k as int)) == 4);
            let j = choose|j: int| 0 <= j <= c.len() && #[trigger] utf8_len(c.skip(j)) == 4;
            if j < k {
                lemma_utf8_len_suffixes(c, j, k as int);
            } else if j > k {
                lemma_utf8_len_suffixes(c, k as int, j);
            }
            assert(j == k);
        } else {
            assert(c.skip(0) =~= c);
            assert(utf8_len(c) < 4);
        }
    }
    let part = vstd::slice::slice_subrange(clean.as_slice(), k, n);
    assert(part@ =~= c.skip(k as int));
    let s = string_from_chars(part);
    to_uppercase(s.as_str())
}

/// `<model> (<short MAC>)`.
pub fn player_display_name(device_id: u8, mac: &str) -> (r: String)
    requires
        last_four_bytes_whole(without_colons(mac@)),
    ensures
        r@ == player_model_spec(device_id) + " ("@ + format_mac_spec(mac@) + ")"@,
{
    let m = format_mac(mac);
    let mut v: Vec<char> = Vec::new();
    push_str_chars(&mut v, player_model(device_id));
    push_str_chars(&mut v, " (");
    push_str_chars(&mut v, m.as_str());
    push_str_chars(&mut v, ")");
    string_from_chars(v.as_slice())
}

/// Page size when none is given.
pub fn default_limit() -> (r: i64)
    ensures
        r == 50,
{
    50
}

/// The largest page size served.
pub const MAX_LIMIT: i64 = 100;

/// Result count of a search when none is given.
pub fn default_search_limit() -> (r: usize)
    ensures
        r == 100,
{
    100
}

/// Paging of a track listing.
#[derive(Debug, Clone, Copy, PartialEq, Eq, Structural)]
pub struct PaginationParams {
    pub limit: i64,
    pub offset: i64,
}

/// A track search.
#[derive(Debug)]
pub struct SearchParams {
    pub q: String,
    pub limit: usize,
}

impl PaginationParams {
    /// The page size actually used: the requested one held to 0..=100 (a
    /// negative request gives an empty page, never an unbounded one).
    pub fn capped_limit(&self) -> (r: i64)
        ensures
            0 <= r <= MAX_LIMIT,
            r == if self.limit < 0 {
                0
            } else if self.limit < MAX_LIMIT {
                self.limit
            } else {
                MAX_LIMIT
            },
    {
        if self.limit < 0 {
            0
        } else if self.limit < MAX_LIMIT {
            self.limit
        } else {
            MAX_LIMIT
        }
    }
}

impl SearchParams {
    /// The `LIKE` pattern for the query: the query in lower case between `%`s.
    pub fn search_pattern(&self) -> (r: String)
        ensures
            r@ == "%"@ + unicode_lowercase(self.q@) + "%"@,
    {
        let lower = to_lowercase(self.q.as_str());
        let a = concat_str("%", lower.as_str());
        concat_str(a.as_str(), "%")
    }
}

/// The answer to a cover request: the stored image, or 404 where the track
/// is unknown or has no cover.
pub fn cover_response(cover: Option<Option<Vec<u8>>>) -> (r: Result<Vec<u8>, u16>)
    ensures
        match cover {
            Some(Some(data)) => r matches Ok(d) && d@ == data@,
            _ => r == Err::<Vec<u8>, u16>(404),
        },
{
    match cover {
        Some(Some(data)) => Ok(data),
        _ => Err(404),
    }
}

/// The content type of a stored cover.
pub fn cover_content_type() -> (r: &'static str)
    ensures
        r@ == "image/jpeg"@,
{
    "image/jpeg"
}

/// The text served at the root of the HTTP server.
pub fn root_text() -> (r: &'static str)
    ensures
        r@ == "Lyrion Music Server\nRust Edition v0.1.0\n\nEndpoints:\n  /api/v1/players\n  /api/v1/tracks\n  /jsonrpc.js\n  /plugins/* (dynamic plugin routes)\n"@,
{
    "Lyrion Music Server\nRust Edition v0.1.0\n\nEndpoints:\n  /api/v1/players\n  /api/v1/tracks\n  /jsonrpc.js\n  /plugins/* (dynamic plugin routes)\n"
}

} // verus!
