//! UDP discovery. Legacy players send `'d'` plus their device bytes and get
//! `'D'` plus the server name back; newer players send `'e'` plus a list of
//! TLV tags and get `'E'` plus the values of the tags the server knows.
use vstd::prelude::*;
use vstd::string::StringSliceAdditionalSpecFns;
use crate::protocol::bytes::{copy_range, push_all};
use crate::protocol::messages::{lossy_utf8, tag4, utf8_lossy};
use crate::text::{utf8_bytes, decimal, decimal_string, hex_byte_lower, push_decimal, push_hex_byte, string_from_chars};

verus! {

/// A discovery request.
#[derive(Debug)]
pub enum DiscoveryRequest {
    /// Legacy request: device byte, firmware revision and MAC address.
    Legacy { device_id: u8, revision: u8, mac: [u8; 6] },
    /// TLV request: the tags (and values) the player sent.
    Tlv { tlvs: Vec<TlvEntry> },
}

/// A type-length-value entry: a four-byte tag and up to 255 bytes of value.
#[derive(Debug, Clone)]
pub struct TlvEntry {
    pub tag: [u8; 4],
    pub value: Vec<u8>,
}

impl TlvEntry {
    pub fn new(tag: &[u8; 4], value: Vec<u8>) -> (r: Self)
        ensures
            r.tag == *tag,
            r.value@ == value@,
    {
        Self { tag: *tag, value }
    }

    /// The tag as text (invalid UTF-8 replaced as by `String::from_utf8_lossy`).
    pub fn tag_str(&self) -> (s: String)
        ensures
            s@ == lossy_utf8(self.tag@),
    {
        utf8_lossy(&self.tag)
    }
}

/// Why a discovery packet was rejected.
#[derive(Debug, Clone, Copy, PartialEq, Eq, Structural)]
pub enum DiscoveryError {
    /// The packet was empty.
    Empty,
    /// The first byte was neither `'d'` nor `'e'`.
    UnknownType(u8),
    /// A legacy packet shorter than 18 bytes (its length).
    LegacyTooShort(usize),
}

impl DiscoveryError {
    /// The human-readable description of the error.
    pub fn message(&self) -> (s: String)
        ensures
            s@ == discovery_error_text(*self),
    {
        let mut v: Vec<char> = Vec::new();
        match self {
            DiscoveryError::Empty => {
                return crate::text::string_of("Empty discovery packet");
            },
            DiscoveryError::UnknownType(b) => {
                let prefix = crate::text::chars_of("Unknown discovery packet type: ");
                v = prefix;
                push_hex_byte(&mut v, *b);
            },
            DiscoveryError::LegacyTooShort(n) => {
                let prefix = crate::text::chars_of("Legacy discovery packet too short: ");
                v = prefix;
                push_decimal(&mut v, *n as u64);
                let suffix = crate::text::chars_of(" bytes");
                let mut i: usize = 0;
                let ghost base = v@;
                while i < suffix.len()
                    invariant
                        i <= suffix@.len(),
                        v@ == base + suffix@.take(i as int),
                    decreases suffix@.len() - i,
                {
                    v.push(suffix[i]);
                    i = i + 1;
                    assert(v@ =~= base + suffix@.take(i as int));
                }
                assert(suffix@.take(suffix@.len() as int) =~= suffix@);
            },
        }
        string_from_chars(v.as_slice())
    }
}

pub open spec fn discovery_error_text(e: DiscoveryError) -> Seq<char> {
    match e {
        DiscoveryError::Empty => "Empty discovery packet"@,
        DiscoveryError::UnknownType(b) => "Unknown discovery packet type: "@ + hex_byte_lower(b),
        DiscoveryError::LegacyTooShort(n) => "Legacy discovery packet too short: "@ + decimal(n as nat)
            + " bytes"@,
    }
}

/// The entries of a TLV request body, read from `offset` on: each entry is
/// a four-byte tag, a length byte and that many value bytes; reading stops
/// at the first entry that does not fit.
pub open spec fn parse_tlvs_from(data: Seq<u8>, offset: int) -> Seq<(Seq<u8>, Seq<u8>)>
    decreases data.len() - offset,
{
    if offset < 0 || offset + 5 > data.len() {
        Seq::empty()
    } else {
        let len = data[offset + 4] as int;
        if offset + 5 + len > data.len() {
            Seq::empty()
        } else {
            seq![(data.subrange(offset, offset + 4), data.subrange(offset + 5, offset + 5 + len))]
                + parse_tlvs_from(data, offset + 5 + len)
        }
    }
}

/// The (tag, value) pairs of a list of TLV entries.
pub open spec fn tlv_pairs(tlvs: Seq<TlvEntry>) -> Seq<(Seq<u8>, Seq<u8>)> {
    tlvs.map_values(|t: TlvEntry| (t.tag@, t.value@))
}

/// `r` is the request the packet `data` carries.
pub open spec fn request_of(r: DiscoveryRequest, data: Seq<u8>) -> bool {
    if data[0] == 'd' as u8 {
        r matches DiscoveryRequest::Legacy { device_id, revision, mac } && device_id == data[2]
            && revision == data[3] && mac@ == data.subrange(12, 18)
    } else {
        r matches DiscoveryRequest::Tlv { tlvs } && tlv_pairs(tlvs@) == parse_tlvs_from(data, 1)
    }
}

/// Parses a discovery packet.
pub fn parse_discovery_request(data: &[u8]) -> (r: Result<DiscoveryRequest, DiscoveryError>)
    ensures
        data@.len() == 0 <==> r == Err::<DiscoveryRequest, DiscoveryError>(DiscoveryError::Empty),
        data@.len() > 0 && data@[0] != 'd' as u8 && data@[0] != 'e' as u8 <==> r == Err::<
            DiscoveryRequest,
            DiscoveryError,
        >(DiscoveryError::UnknownType(data@[0])),
        data@.len() > 0 && data@[0] == 'd' as u8 && data@.len() < 18 <==> r == Err::<
            DiscoveryRequest,
            DiscoveryError,
        >(DiscoveryError::LegacyTooShort(data@.len() as usize)),
        r matches Ok(req) ==> request_of(req, data@),
        data@.len() > 0 && (data@[0] == 'e' as u8 || (data@[0] == 'd' as u8 && data@.len() >= 18)) ==> r is Ok,
{
    if data.len() == 0 {
        return Err(DiscoveryError::Empty);
    }
    if data[0] == 'd' as u8 {
        parse_legacy_discovery(data)
    } else if data[0] == 'e' as u8 {
        Ok(parse_tlv_discovery(data))
    } else {
        Err(DiscoveryError::UnknownType(data[0]))
    }
}

/// Legacy layout: `'d'`, padding, device byte, revision, 8 bytes of padding, MAC.
fn parse_legacy_discovery(data: &[u8]) -> (r: Result<DiscoveryRequest, DiscoveryError>)
    requires
        data@.len() > 0,
        data@[0] == 'd' as u8,
    ensures
        data@.len() < 18 ==> r == Err::<DiscoveryRequest, DiscoveryError>(
            DiscoveryError::LegacyTooShort(data@.len() as usize),
        ),
        data@.len() >= 18 ==> (r matches Ok(req) && request_of(req, data@)),
{
    if data.len() < 18 {
        return Err(DiscoveryError::LegacyTooShort(data.len()));
    }
    let mac = [data[12], data[13], data[14], data[15], data[16], data[17]];
    assert(mac@ =~= data@.subrange(12, 18));
    Ok(DiscoveryRequest::Legacy { device_id: data[2], revision: data[3], mac })
}

/// TLV layout: `'e'` then entries; a truncated last entry is dropped.
fn parse_tlv_discovery(data: &[u8]) -> (r: DiscoveryRequest)
    requires
        data@.len() > 0,
    ensures
        r matches DiscoveryRequest::Tlv { tlvs } && tlv_pairs(tlvs@) == parse_tlvs_from(data@, 1),
{
    let mut tlvs: Vec<TlvEntry> = Vec::new();
    let mut offset: usize = 1;
    while offset <= data.len() && 5 <= data.len() - offset
        invariant
            1 <= offset,
            tlv_pairs(tlvs@) + parse_tlvs_from(data@, offset as int) == parse_tlvs_from(data@, 1),
        ensures
            tlv_pairs(tlvs@) == parse_tlvs_from(data@, 1),
        decreases data@.len() - offset,
    {
        let tag = [data[offset], data[offset + 1], data[offset + 2], data[offset + 3]];
        let length = data[offset + 4] as usize;
        if length > data.len() - offset - 5 {
            assert(parse_tlvs_from(data@, offset as int) =~= Seq::empty());
            assert(tlv_pairs(tlvs@) + Seq::<(Seq<u8>, Seq<u8>)>::empty() =~= tlv_pairs(tlvs@));
            break;
        }
        let value = copy_range(data, offset + 5, offset + 5 + length);
        assert(tag@ =~= data@.subrange(offset as int, offset + 4));
        let ghost old_tlvs = tlvs@;
        let entry = TlvEntry { tag, value };
        tlvs.push(entry);
        assert(tlv_pairs(tlvs@) =~= tlv_pairs(old_tlvs).push((entry.tag@, entry.value@)));
        assert(parse_tlvs_from(data@, offset as int) =~= seq![(entry.tag@, entry.value@)]
            + parse_tlvs_from(data@, offset + 5 + length));
        assert(tlv_pairs(tlvs@) + parse_tlvs_from(data@, offset + 5 + length) =~= tlv_pairs(old_tlvs)
            + parse_tlvs_from(data@, offset as int));
        offset = offset + 5 + length;
    }
    DiscoveryRequest::Tlv { tlvs }
}

/// Builds the replies to discovery requests for one server.
pub struct DiscoveryResponse {
    pub server_name: String,
    pub server_uuid: String,
    pub server_version: String,
    pub http_port: u16,
    pub bind_addr: String,
}

/// The legacy reply: `'D'`, the first 16 bytes of the server name, then zero
/// bytes up to 18 bytes in all.
pub open spec fn legacy_reply(name: Seq<u8>) -> Seq<u8> {
    let k = if name.len() < 16 { name.len() as int } else { 16 };
    seq!['D' as u8] + name.take(k) + Seq::new((17 - k) as nat, |i: int| 0u8)
}

/// One reply entry: tag, length byte and the value cut to 255 bytes.
pub open spec fn tlv_reply_entry(tag: Seq<u8>, value: Seq<u8>) -> Seq<u8> {
    let v = if value.len() > 255 { value.take(255) } else { value };
    tag + seq![v.len() as u8] + v
}

/// Builds reply entries for the requested tags, skipping tags the server has no value for.
pub open spec fn tlv_reply_body(resp: DiscoveryResponse, tags: Seq<Seq<u8>>) -> Seq<u8>
    decreases tags.len(),
{
    if tags.len() == 0 {
        Seq::empty()
    } else {
        tlv_reply_body(resp, tags.drop_last()) + match tlv_value(resp, tags.last()) {
            Some(v) => tlv_reply_entry(tags.last(), v),
            None => Seq::empty(),
        }
    }
}

/// The value the server reports for a tag: its name (`NAME`), address
/// (`IPAD`), HTTP port in decimal (`JSON`), version (`VERS`) or UUID
/// (`UUID`); other tags, the player's `JVID` among them, have none.
pub open spec fn tlv_value(resp: DiscoveryResponse, tag: Seq<u8>) -> Option<Seq<u8>> {
    if tag == tag4('N', 'A', 'M', 'E') {
        Some(vstd::utf8::encode_utf8(resp.server_name@))
    } else if tag == tag4('I', 'P', 'A', 'D') {
        Some(vstd::utf8::encode_utf8(resp.bind_addr@))
    } else if tag == tag4('J', 'S', 'O', 'N') {
        Some(vstd::utf8::encode_utf8(decimal(resp.http_port as nat)))
    } else if tag == tag4('V', 'E', 'R', 'S') {
        Some(vstd::utf8::encode_utf8(resp.server_version@))
    } else if tag == tag4('U', 'U', 'I', 'D') {
        Some(vstd::utf8::encode_utf8(resp.server_uuid@))
    } else {
        None
    }
}

/// The TLV reply: `'E'` and the reply entries, cut to 1450 bytes.
pub open spec fn tlv_reply(resp: DiscoveryResponse, tags: Seq<Seq<u8>>) -> Seq<u8> {
    let full = seq!['E' as u8] + tlv_reply_body(resp, tags);
    if full.len() > 1450 { full.take(1450) } else { full }
}

pub open spec fn tlv_tags(tlvs: Seq<TlvEntry>) -> Seq<Seq<u8>> {
    tlvs.map_values(|t: TlvEntry| t.tag@)
}

fn tag_is(tag: &[u8; 4], a: char, b: char, c: char, d: char) -> (r: bool)
    requires
        (a as u32) < 128,
        (b as u32) < 128,
        (c as u32) < 128,
        (d as u32) < 128,
    ensures
        r == (tag@ == tag4(a, b, c, d)),
{
    let r = tag[0] == a as u8 && tag[1] == b as u8 && tag[2] == c as u8 && tag[3] == d as u8;
    if r {
        assert(tag@ =~= tag4(a, b, c, d));
    } else {
        assert(tag@[0] != tag4(a, b, c, d)[0] || tag@[1] != tag4(a, b, c, d)[1] || tag@[2] != tag4(
            a,
            b,
            c,
            d,
        )[2] || tag@[3] != tag4(a, b, c, d)[3]);
    }
    r
}

impl DiscoveryResponse {
    pub fn new(
        server_name: String,
        server_uuid: String,
        server_version: String,
        http_port: u16,
        bind_addr: String,
    ) -> (r: Self)
        ensures
            r.server_name@ == server_name@,
            r.server_uuid@ == server_uuid@,
            r.server_version@ == server_version@,
            r.http_port == http_port,
            r.bind_addr@ == bind_addr@,
    {
        Self { server_name, server_uuid, server_version, http_port, bind_addr }
    }

    /// Legacy reply: `'D'` and the server name, cut to 16 bytes and padded
    /// with zero bytes to 18 bytes in all.
    pub fn build_legacy(&self) -> (r: Vec<u8>)
        ensures
            r@ == legacy_reply(vstd::utf8::encode_utf8(self.server_name@)),
            r@.len() == 18,
    {
        let mut response: Vec<u8> = Vec::new();
        response.push('D' as u8);
        let hostname_bytes = self.server_name.as_str().as_bytes();
        let hostname_len = if hostname_bytes.len() < 16 { hostname_bytes.len() } else { 16 };
        let part = vstd::slice::slice_subrange(hostname_bytes, 0, hostname_len);
        push_all(&mut response, part);
        let ghost base = response@;
        while response.len() < 18
            invariant
                base.len() <= response@.len() <= 18,
                base.len() == 1 + hostname_len,
                response@ == base + Seq::new((response@.len() - base.len()) as nat, |i: int| 0u8),
            decreases 18 - response@.len(),
        {
            response.push(0);
            assert(response@ =~= base + Seq::new((response@.len() - base.len()) as nat, |i: int| 0u8));
        }
        assert(response@ =~= legacy_reply(vstd::utf8::encode_utf8(self.server_name@)));
        response
    }

    /// TLV reply for the requested tags.
    pub fn build_tlv(&self, request_tlvs: &[TlvEntry]) -> (r: Vec<u8>)
        ensures
            r@ == tlv_reply(*self, tlv_tags(request_tlvs@)),
    {
        let mut response: Vec<u8> = Vec::new();
        response.push('E' as u8);
        let mut i: usize = 0;
        while i < request_tlvs.len()
            invariant
                i <= request_tlvs@.len(),
                response@ == seq!['E' as u8] + tlv_reply_body(*self, tlv_tags(request_tlvs@.take(i as int))),
            decreases request_tlvs@.len() - i,
        {
            let tlv = &request_tlvs[i];
            let ghost before = response@;
            match self.get_tlv_value(&tlv.tag) {
                Some(value) => {
                    let n = if value.len() > 255 { 255 } else { value.len() };
                    let part = vstd::slice::slice_subrange(value.as_slice(), 0, n);
                    push_all(&mut response, &tlv.tag);
                    response.push(n as u8);
                    push_all(&mut response, part);
                    assert(response@ =~= before + tlv_reply_entry(tlv.tag@, value@));
                },
                None => {},
            }
            i = i + 1;
            assert(tlv_tags(request_tlvs@.take(i as int)).drop_last() =~= tlv_tags(request_tlvs@.take(i - 1)));
            assert(tlv_tags(request_tlvs@.take(i as int)).last() == request_tlvs@[i - 1].tag@);
        }
        assert(request_tlvs@.take(request_tlvs@.len() as int) =~= request_tlvs@);
        if response.len() > 1450 {
            response.truncate(1450);
        }
        response
    }

    /// The value reported for `tag`, if the server has one.
    fn get_tlv_value(&self, tag: &[u8; 4]) -> (r: Option<Vec<u8>>)
        ensures
            r matches Some(v) ==> tlv_value(*self, tag@) == Some(v@),
            r is None ==> tlv_value(*self, tag@) is None,
    {
        if tag_is(tag, 'N', 'A', 'M', 'E') {
            Some(utf8_bytes(self.server_name.as_str()))
        } else if tag_is(tag, 'I', 'P', 'A', 'D') {
            Some(utf8_bytes(self.bind_addr.as_str()))
        } else if tag_is(tag, 'J', 'S', 'O', 'N') {
            let port = decimal_string(self.http_port as u64);
            Some(utf8_bytes(port.as_str()))
        } else if tag_is(tag, 'V', 'E', 'R', 'S') {
            Some(utf8_bytes(self.server_version.as_str()))
        } else if tag_is(tag, 'U', 'U', 'I', 'D') {
            Some(utf8_bytes(self.server_uuid.as_str()))
        } else {
            None
        }
    }
}

/// The reply to a discovery packet for the server `resp` describes: the
/// legacy reply to a legacy request, the TLV reply to the tags of a TLV
/// request; an unreadable packet is refused with its error.
pub open spec fn discovery_reply_spec(resp: DiscoveryResponse, data: Seq<u8>) -> Result<Seq<u8>, DiscoveryError> {
    if data.len() == 0 {
        Err(DiscoveryError::Empty)
    } else if data[0] == 'd' as u8 {
        if data.len() < 18 {
            Err(DiscoveryError::LegacyTooShort(data.len() as usize))
        } else {
            Ok(legacy_reply(vstd::utf8::encode_utf8(resp.server_name@)))
        }
    } else if data[0] == 'e' as u8 {
        Ok(tlv_reply(resp, parse_tlvs_from(data, 1).map_values(|e: (Seq<u8>, Seq<u8>)| e.0)))
    } else {
        Err(DiscoveryError::UnknownType(data[0]))
    }
}

impl DiscoveryResponse {
    /// The reply to a discovery packet.
    pub fn reply_to(&self, data: &[u8]) -> (r: Result<Vec<u8>, DiscoveryError>)
        ensures
            match discovery_reply_spec(*self, data@) {
                Ok(bytes) => r matches Ok(v) && v@ == bytes,
                Err(e) => r == Err::<Vec<u8>, DiscoveryError>(e),
            },
    {
        match parse_discovery_request(data) {
            Ok(DiscoveryRequest::Legacy { .. }) => Ok(self.build_legacy()),
            Ok(DiscoveryRequest::Tlv { tlvs }) => {
                assert(tlv_tags(tlvs@) =~= parse_tlvs_from(data@, 1).map_values(|e: (Seq<u8>, Seq<u8>)| e.0)) by {
                    assert(tlv_pairs(tlvs@) == parse_tlvs_from(data@, 1));
                    assert forall|i: int| 0 <= i < tlvs@.len() implies tlv_tags(tlvs@)[i] == parse_tlvs_from(data@, 1)[i].0 by {
                        assert(tlv_pairs(tlvs@)[i] == (tlvs@[i].tag@, tlvs@[i].value@));
                    }
                }
                Ok(self.build_tlv(tlvs.as_slice()))
            },
            Err(e) => Err(e),
        }
    }
}

/// The request body a player would send for a list of entries: for each,
/// the tag, a length byte and the value.
pub open spec fn encode_tlvs(tlvs: Seq<(Seq<u8>, Seq<u8>)>) -> Seq<u8>
    decreases tlvs.len(),
{
    if tlvs.len() == 0 {
        Seq::empty()
    } else {
        tlvs[0].0 + seq![tlvs[0].1.len() as u8] + tlvs[0].1 + encode_tlvs(tlvs.drop_first())
    }
}

/// Entries with four-byte tags and values of at most 255 bytes.
pub open spec fn well_formed_tlvs(tlvs: Seq<(Seq<u8>, Seq<u8>)>) -> bool {
    forall|i: int| 0 <= i < tlvs.len() ==> (#[trigger] tlvs[i]).0.len() == 4 && tlvs[i].1.len() <= 255
}

proof fn lemma_parse_encoded_tlvs(prefix: Seq<u8>, tlvs: Seq<(Seq<u8>, Seq<u8>)>)
    requires
        well_formed_tlvs(tlvs),
    ensures
        parse_tlvs_from(prefix + encode_tlvs(tlvs), prefix.len() as int) == tlvs,
    decreases tlvs.len(),
{
    let data = prefix + encode_tlvs(tlvs);
    let off = prefix.len() as int;
    if tlvs.len() == 0 {
        assert(data.len() == off);
        assert(parse_tlvs_from(data, off) =~= tlvs);
    } else {
        let (tag, value) = tlvs[0];
        let rest = tlvs.drop_first();
        assert(well_formed_tlvs(rest)) by {
            assert forall|i: int| 0 <= i < rest.len() implies (#[trigger] rest[i]).0.len() == 4
                && rest[i].1.len() <= 255 by {
                assert(rest[i] == tlvs[i + 1]);
            }
        }
        let entry = tag + seq![value.len() as u8] + value;
        let prefix2 = prefix + entry;
        assert(encode_tlvs(tlvs) == entry + encode_tlvs(rest));
        assert(data =~= prefix2 + encode_tlvs(rest));
        lemma_parse_encoded_tlvs(prefix2, rest);
        assert(data[off + 4] == value.len() as u8);
        assert(data.subrange(off, off + 4) =~= tag);
        assert(data.subrange(off + 5, off + 5 + value.len()) =~= value);
        assert(prefix2.len() == off + 5 + value.len());
        assert(parse_tlvs_from(data, off) =~= seq![(tag, value)] + rest);
        assert(seq![(tag, value)] + rest =~= tlvs);
    }
}

/// A TLV request body written from well-formed entries parses back to the
/// same entries.
pub proof fn lemma_tlv_request_roundtrip(tlvs: Seq<(Seq<u8>, Seq<u8>)>)
    requires
        well_formed_tlvs(tlvs),
    ensures
        parse_tlvs_from(seq!['e' as u8] + encode_tlvs(tlvs), 1) == tlvs,
{
    lemma_parse_encoded_tlvs(seq!['e' as u8], tlvs);
}

} // verus!
