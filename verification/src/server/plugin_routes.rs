//! Handing HTTP requests under `/plugins/` to the plugin that registered
//! the route: the query string as parameters, the request the plugin gets,
//! the routing decision and the texts of the error answers.
use vstd::prelude::*;
use crate::assoc::{assoc_map, distinct_keys, lemma_assoc_absent, lemma_assoc_push, lemma_assoc_update};
use crate::plugins::registry::{pattern_matches, PluginRegistry};
use crate::plugins::{concat_str, push_str_chars, HttpRequest};
use crate::text::{str_eq, string_from_chars};

verus! {

/// Name/value pairs as character sequences.
pub open spec fn pairs_view(v: Seq<(String, String)>) -> Seq<(Seq<char>, Seq<char>)> {
    v.map_values(|e: (String, String)| (e.0@, e.1@))
}

/// The name/value pairs `form_urlencoded::parse` decodes from a query
/// string, in order.
pub uninterp spec fn urlencoded_pairs(query: Seq<u8>) -> Seq<(Seq<char>, Seq<char>)>;

/// Decodes an `application/x-www-form-urlencoded` query
/// (`url::form_urlencoded::parse`, each pair made owned).
#[verifier::external_body]
fn decode_query(query: &[u8]) -> (r: Vec<(String, String)>)
    ensures
        pairs_view(r@) == urlencoded_pairs(query@),
{
    url::form_urlencoded::parse(query).into_owned().collect()
}

/// The position of the pair named `k`.
fn find_key(v: &Vec<(String, String)>, k: &str) -> (r: Option<usize>)
    ensures
        r matches Some(j) ==> j < v@.len() && pairs_view(v@)[j as int].0 == k@,
        r is None ==> forall|t: int| 0 <= t < v@.len() ==> (#[trigger] pairs_view(v@)[t]).0 != k@,
{
    let ghost pv = pairs_view(v@);
    let mut j: usize = 0;
    while j < v.len()
        invariant
            pv == pairs_view(v@),
            j <= v@.len(),
            forall|t: int| 0 <= t < j ==> (#[trigger] pv[t]).0 != k@,
        decreases v@.len() - j,
    {
        assert(pv[j as int] == (v@[j as int].0@, v@[j as int].1@));
        if str_eq(v[j].0.as_str(), k) {
            return Some(j);
        }
        j = j + 1;
    }
    None
}

/// The pairs with each name kept once, holding its last value.
pub fn last_wins(pairs: Vec<(String, String)>) -> (r: Vec<(String, String)>)
    ensures
        distinct_keys(pairs_view(r@)),
        assoc_map(pairs_view(r@)) == assoc_map(pairs_view(pairs@)),
{
    let mut out: Vec<(String, String)> = Vec::new();
    let mut i: usize = 0;
    assert(pairs_view(out@) =~= Seq::empty());
    assert(pairs_view(pairs@).take(0) =~= Seq::empty());
    while i < pairs.len()
        invariant
            i <= pairs@.len(),
            distinct_keys(pairs_view(out@)),
            assoc_map(pairs_view(out@)) == assoc_map(pairs_view(pairs@).take(i as int)),
        decreases pairs@.len() - i,
    {
        let k = &pairs[i].0;
        let v = &pairs[i].1;
        let ghost ov = pairs_view(out@);
        assert(pairs_view(pairs@).take(i + 1).drop_last() =~= pairs_view(pairs@).take(i as int));
        assert(pairs_view(pairs@).take(i + 1).last() == (k@, v@));
        match find_key(&out, k.as_str()) {
            Some(j) => {
                proof {
                    lemma_assoc_update(ov, j as int, v@);
                }
                out.set(j, (k.clone(), v.clone()));
                assert(pairs_view(out@) =~= ov.update(j as int, (ov[j as int].0, v@)));
            },
            None => {
                proof {
                    lemma_assoc_absent(ov, k@);
                    lemma_assoc_push(ov, k@, v@);
                }
                out.push((k.clone(), v.clone()));
                assert(pairs_view(out@) =~= ov.push((k@, v@)));
            },
        }
        i = i + 1;
    }
    assert(pairs_view(pairs@).take(pairs@.len() as int) =~= pairs_view(pairs@));
    out
}

/// The parameters of a query string: decoded pairs, a repeated name
/// keeping its last value; none without a query.
pub fn query_params(query: Option<&str>) -> (r: Vec<(String, String)>)
    ensures
        distinct_keys(pairs_view(r@)),
        match query {
            Some(q) => assoc_map(pairs_view(r@)) == assoc_map(urlencoded_pairs(vstd::utf8::encode_utf8(q@))),
            None => r@.len() == 0,
        },
{
    match query {
        Some(q) => last_wins(decode_query(q.as_bytes())),
        None => {
            let r: Vec<(String, String)> = Vec::new();
            assert(pairs_view(r@) =~= Seq::empty());
            r
        },
    }
}

/// The request a plugin gets: method, path, headers and query parameters
/// (a repeated name keeping its last value) and the body.
pub fn plugin_request(
    method: String,
    path: String,
    headers: Vec<(String, String)>,
    body: Vec<u8>,
    query: Option<&str>,
) -> (r: HttpRequest)
    ensures
        r.method@ == method@,
        r.path@ == path@,
        r.body@ == body@,
        distinct_keys(pairs_view(r.headers@)),
        assoc_map(pairs_view(r.headers@)) == assoc_map(pairs_view(headers@)),
        distinct_keys(pairs_view(r.query@)),
        match query {
            Some(q) => assoc_map(pairs_view(r.query@)) == assoc_map(urlencoded_pairs(vstd::utf8::encode_utf8(q@))),
            None => r.query@.len() == 0,
        },
{
    HttpRequest { method, path, headers: last_wins(headers), body, query: query_params(query) }
}

/// Where a plugin request goes.
#[derive(Debug)]
pub enum PluginDispatch {
    /// To this plugin's handler.
    Route { plugin: String, handler: String },
    /// Nowhere: the message says so.
    NoHandler { message: String },
}

/// Routes a plugin request through the registry.
pub fn dispatch(registry: &PluginRegistry, method: &str, path: &str) -> (r: PluginDispatch)
    requires
        registry.wf(),
    ensures
        registry.routes().contains_key((method@, path@)) ==> (r matches PluginDispatch::Route { plugin, handler }
            && (plugin@, handler@) == registry.routes()[(method@, path@)]),
        !registry.routes().contains_key((method@, path@)) ==> (r matches PluginDispatch::Route { plugin, handler }
            ==> exists|k: (Seq<char>, Seq<char>)|
            #[trigger] registry.routes().contains_key(k) && k.0 == method@ && pattern_matches(k.1, path@)
                && registry.routes()[k] == (plugin@, handler@)),
        (r is NoHandler) <==> !registry.routes().contains_key((method@, path@)) && !(exists|k: (Seq<char>, Seq<char>)|
            #[trigger] registry.routes().contains_key(k) && k.0 == method@ && pattern_matches(k.1, path@)),
        r matches PluginDispatch::NoHandler { message } ==> message@ == "No plugin handler for "@ + method@ + " "@
            + path@,
{
    match registry.route_http_request(method, path) {
        Some((p, h)) => PluginDispatch::Route { plugin: crate::text::string_of(p), handler: crate::text::string_of(h) },
        None => {
            let mut v: Vec<char> = Vec::new();
            push_str_chars(&mut v, "No plugin handler for ");
            push_str_chars(&mut v, method);
            push_str_chars(&mut v, " ");
            push_str_chars(&mut v, path);
            PluginDispatch::NoHandler { message: string_from_chars(v.as_slice()) }
        },
    }
}

/// The status sent for a plugin's response: its own where it is a valid
/// HTTP status code (100 to 999), else 200.
pub fn response_status(status: u16) -> (r: u16)
    ensures
        r == if 100 <= status <= 999 {
            status
        } else {
            200
        },
{
    if 100 <= status && status <= 999 {
        status
    } else {
        200
    }
}

/// `Plugin not found: <name>`.
pub fn plugin_not_found_message(name: &str) -> (r: String)
    ensures
        r@ == "Plugin not found: "@ + name@,
{
    concat_str("Plugin not found: ", name)
}

/// `Plugin error: <error>`.
pub fn plugin_error_message(error: &str) -> (r: String)
    ensures
        r@ == "Plugin error: "@ + error@,
{
    concat_str("Plugin error: ", error)
}

/// `Failed to read request body: <error>`.
pub fn body_error_message(error: &str) -> (r: String)
    ensures
        r@ == "Failed to read request body: "@ + error@,
{
    concat_str("Failed to read request body: ", error)
}

} // verus!
