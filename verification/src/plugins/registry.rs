//! The plugin registry: which plugin serves which HTTP route and CLI
//! command, and which capabilities each plugin has.
use vstd::prelude::*;
use crate::assoc::{
    assoc_map, distinct_keys, filtering, lemma_assoc_map, lemma_assoc_push, lemma_assoc_update,
    lemma_filtering_done, lemma_filtering_remove, lemma_filtering_skip, lemma_filtering_start,
    map_filter,
};
use crate::plugins::HttpRoute;
use crate::text::{chars_eq, split_chars, split_on, str_eq, strings_view};

verus! {

/// A registered route: its method and path (or pattern), and the plugin
/// and handler it leads to.
#[derive(Debug)]
pub struct RegisteredRoute {
    pub method: String,
    pub path: String,
    pub plugin: String,
    pub handler: String,
}

/// A route as key (method, path) and value (plugin, handler).
pub open spec fn route_pair(e: RegisteredRoute) -> ((Seq<char>, Seq<char>), (Seq<char>, Seq<char>)) {
    ((e.method@, e.path@), (e.plugin@, e.handler@))
}

pub open spec fn route_pairs(v: Seq<RegisteredRoute>) -> Seq<((Seq<char>, Seq<char>), (Seq<char>, Seq<char>))> {
    v.map_values(|e: RegisteredRoute| route_pair(e))
}

pub open spec fn string_pairs(v: Seq<(String, String)>) -> Seq<(Seq<char>, Seq<char>)> {
    v.map_values(|e: (String, String)| (e.0@, e.1@))
}

pub open spec fn capability_pairs(v: Seq<(String, Vec<String>)>) -> Seq<(Seq<char>, Seq<Seq<char>>)> {
    v.map_values(|e: (String, Vec<String>)| (e.0@, strings_view(e.1@)))
}

/// A route to register, as (method, path, handler).
pub open spec fn route_triples(v: Seq<HttpRoute>) -> Seq<(Seq<char>, Seq<char>, Seq<char>)> {
    v.map_values(|r: HttpRoute| (r.method@, r.path@, r.handler_id@))
}

/// The route table after registering `routes` for `plugin`, one after the
/// other: a route whose method and path are already taken replaces the
/// old entry.
pub open spec fn register_routes_spec(
    m: Map<(Seq<char>, Seq<char>), (Seq<char>, Seq<char>)>,
    plugin: Seq<char>,
    routes: Seq<(Seq<char>, Seq<char>, Seq<char>)>,
) -> Map<(Seq<char>, Seq<char>), (Seq<char>, Seq<char>)>
    decreases routes.len(),
{
    if routes.len() == 0 {
        m
    } else {
        register_routes_spec(m, plugin, routes.drop_last()).insert(
            (routes.last().0, routes.last().1),
            (plugin, routes.last().2),
        )
    }
}

/// A pattern piece that stands for any one piece of a path (`:name`).
pub open spec fn is_param(part: Seq<char>) -> bool {
    part.len() > 0 && part[0] == ':'
}

/// The pattern pieces match the path pieces they are paired with; pieces
/// beyond the shorter list are not looked at.
pub open spec fn parts_match(pattern: Seq<Seq<char>>, path: Seq<Seq<char>>) -> bool {
    forall|i: int| 0 <= i < pattern.len() && i < path.len() ==> is_param(#[trigger] pattern[i]) || pattern[i] == path[i]
}

/// Whether `path` matches the route pattern `pattern`: split at `/`, the
/// same number of pieces, each either a parameter or equal; or, where the
/// counts differ and the pattern ends in a `*` piece, its other pieces
/// matched against a path of at least that many pieces.
pub open spec fn pattern_matches(pattern: Seq<char>, path: Seq<char>) -> bool {
    let pp = split_on(pattern, '/');
    let ph = split_on(path, '/');
    if pp.len() != ph.len() {
        pp.len() > 0 && pp.last() == seq!['*'] && ph.len() >= pp.len() - 1 && parts_match(pp.drop_last(), ph)
    } else {
        parts_match(pp, ph)
    }
}

/// Routes, CLI commands and capabilities of the loaded plugins.
pub struct PluginRegistry {
    http_routes: Vec<RegisteredRoute>,
    cli_commands: Vec<(String, String)>,
    capabilities: Vec<(String, Vec<String>)>,
}

pub open spec fn chars_view(v: Seq<Vec<char>>) -> Seq<Seq<char>> {
    v.map_values(|p: Vec<char>| p@)
}

impl PluginRegistry {
    /// (method, path) to (plugin, handler).
    pub closed spec fn routes(&self) -> Map<(Seq<char>, Seq<char>), (Seq<char>, Seq<char>)> {
        assoc_map(route_pairs(self.http_routes@))
    }

    /// Command to plugin.
    pub closed spec fn commands(&self) -> Map<Seq<char>, Seq<char>> {
        assoc_map(string_pairs(self.cli_commands@))
    }

    /// Plugin to its capabilities.
    pub closed spec fn capability_map(&self) -> Map<Seq<char>, Seq<Seq<char>>> {
        assoc_map(capability_pairs(self.capabilities@))
    }

    /// No route, command or plugin is held twice.
    pub closed spec fn wf(&self) -> bool {
        &&& distinct_keys(route_pairs(self.http_routes@))
        &&& distinct_keys(string_pairs(self.cli_commands@))
        &&& distinct_keys(capability_pairs(self.capabilities@))
    }

    /// An empty registry.
    pub fn new() -> (r: Self)
        ensures
            r.wf(),
            r.routes() == Map::<(Seq<char>, Seq<char>), (Seq<char>, Seq<char>)>::empty(),
            r.commands() == Map::<Seq<char>, Seq<char>>::empty(),
            r.capability_map() == Map::<Seq<char>, Seq<Seq<char>>>::empty(),
    {
        let r = Self { http_routes: Vec::new(), cli_commands: Vec::new(), capabilities: Vec::new() };
        assert(route_pairs(r.http_routes@) =~= Seq::empty());
        assert(string_pairs(r.cli_commands@) =~= Seq::empty());
        assert(capability_pairs(r.capabilities@) =~= Seq::empty());
        r
    }

    /// Sets the route for (method, path), replacing an entry with the same key.
    fn insert_route(&mut self, method: String, path: String, plugin: String, handler: String)
        requires
            old(self).wf(),
        ensures
            final(self).wf(),
            final(self).routes() == old(self).routes().insert((method@, path@), (plugin@, handler@)),
            final(self).commands() == old(self).commands(),
            final(self).capability_map() == old(self).capability_map(),
    {
        let ghost pairs = route_pairs(self.http_routes@);
        let ghost key = (method@, path@);
        let mut i: usize = 0;
        while i < self.http_routes.len()
            invariant
                self.wf(),
                self.http_routes@ == old(self).http_routes@,
                self.cli_commands@ == old(self).cli_commands@,
                self.capabilities@ == old(self).capabilities@,
                pairs == route_pairs(self.http_routes@),
                key == (method@, path@),
                i <= self.http_routes@.len(),
                forall|j: int| 0 <= j < i ==> (#[trigger] pairs[j]).0 != key,
            decreases self.http_routes@.len() - i,
        {
            let same = str_eq(self.http_routes[i].method.as_str(), method.as_str()) && str_eq(
                self.http_routes[i].path.as_str(),
                path.as_str(),
            );
            if same {
                let entry = RegisteredRoute { method, path, plugin, handler };
                proof {
                    assert(pairs[i as int].0 == key);
                    lemma_assoc_update(pairs, i as int, (entry.plugin@, entry.handler@));
                }
                self.http_routes.set(i, entry);
                assert(route_pairs(self.http_routes@) =~= pairs.update(i as int, (pairs[i as int].0, (entry.plugin@, entry.handler@))));
                return;
            }
            assert(pairs[i as int].0 != key);
            i = i + 1;
        }
        let entry = RegisteredRoute { method, path, plugin, handler };
        proof {
            lemma_assoc_map(pairs);
            if assoc_map(pairs).contains_key(key) {
                let j = choose|j: int| 0 <= j < pairs.len() && pairs[j].0 == key;
                assert(pairs[j].0 != key);
            }
            lemma_assoc_push(pairs, key, (entry.plugin@, entry.handler@));
        }
        self.http_routes.push(entry);
        assert(route_pairs(self.http_routes@) =~= pairs.push((key, (entry.plugin@, entry.handler@))));
    }

    /// Registers the routes of a plugin, in order; a route already taken
    /// is overwritten.
    pub fn register_http_routes(&mut self, plugin_name: &str, routes: Vec<HttpRoute>)
        requires
            old(self).wf(),
        ensures
            final(self).wf(),
            final(self).routes() == register_routes_spec(old(self).routes(), plugin_name@, route_triples(routes@)),
            final(self).commands() == old(self).commands(),
            final(self).capability_map() == old(self).capability_map(),
    {
        let ghost rs = route_triples(routes@);
        let mut i: usize = 0;
        while i < routes.len()
            invariant
                self.wf(),
                rs == route_triples(routes@),
                i <= routes@.len(),
                self.routes() == register_routes_spec(old(self).routes(), plugin_name@, rs.take(i as int)),
                self.commands() == old(self).commands(),
                self.capability_map() == old(self).capability_map(),
            decreases routes@.len() - i,
        {
            let route = &routes[i];
            let plugin = crate::text::string_of(plugin_name);
            self.insert_route(route.method.clone(), route.path.clone(), plugin, route.handler_id.clone());
            assert(rs.take(i + 1).drop_last() =~= rs.take(i as int));
            i = i + 1;
        }
        assert(rs.take(rs.len() as int) =~= rs);
    }

    /// The plugin and handler for a request: the route registered for
    /// exactly this method and path if there is one, else some route of
    /// this method whose pattern matches the path.
    pub fn route_http_request(&self, method: &str, path: &str) -> (r: Option<(&str, &str)>)
        requires
            self.wf(),
        ensures
            self.routes().contains_key((method@, path@)) ==> (r matches Some((p, h)) && (p@, h@) == self.routes()[(
                method@,
                path@,
            )]),
            !self.routes().contains_key((method@, path@)) ==> (r matches Some((p, h)) ==> exists|
                k: (Seq<char>, Seq<char>),
            |
                #[trigger] self.routes().contains_key(k) && k.0 == method@ && pattern_matches(k.1, path@)
                    && self.routes()[k] == (p@, h@)),
            r is None <==> !self.routes().contains_key((method@, path@)) && !(exists|k: (Seq<char>, Seq<char>)|
                #[trigger] self.routes().contains_key(k) && k.0 == method@ && pattern_matches(k.1, path@)),
    {
        let ghost pairs = route_pairs(self.http_routes@);
        proof {
            lemma_assoc_map(pairs);
        }
        let mut i: usize = 0;
        while i < self.http_routes.len()
            invariant
                pairs == route_pairs(self.http_routes@),
                distinct_keys(pairs),
                pairs == route_pairs(self.http_routes@),
                i <= self.http_routes@.len(),
                forall|j: int| 0 <= j < i ==> (#[trigger] pairs[j]).0 != (method@, path@),
            decreases self.http_routes@.len() - i,
        {
            let e = &self.http_routes[i];
            if str_eq(e.method.as_str(), method) && str_eq(e.path.as_str(), path) {
                proof {
                    lemma_assoc_map(pairs);
                    assert(pairs[i as int] == route_pair(*e));
                    assert(pairs[i as int].0 == (method@, path@));
                    assert(assoc_map(pairs)[pairs[i as int].0] == pairs[i as int].1);
                    assert(self.routes()[(method@, path@)] == (e.plugin@, e.handler@));
                }
                return Some((e.plugin.as_str(), e.handler.as_str()));
            }
            assert(pairs[i as int] == route_pair(*e));
            i = i + 1;
        }
        assert(!self.routes().contains_key((method@, path@))) by {
            lemma_assoc_map(pairs);
            if self.routes().contains_key((method@, path@)) {
                let j = choose|j: int| 0 <= j < pairs.len() && pairs[j].0 == (method@, path@);
                assert(pairs[j].0 != (method@, path@));
            }
        }
        let mut i: usize = 0;
        while i < self.http_routes.len()
            invariant
                pairs == route_pairs(self.http_routes@),
                distinct_keys(pairs),
                !assoc_map(pairs).contains_key((method@, path@)),
                i <= self.http_routes@.len(),
                forall|j: int| 0 <= j < i ==> !((#[trigger] pairs[j]).0.0 == method@ && pattern_matches(pairs[j].0.1, path@)),
            decreases self.http_routes@.len() - i,
        {
            let e = &self.http_routes[i];
            assert(pairs[i as int] == route_pair(*e));
            if str_eq(e.method.as_str(), method) && Self::matches_pattern(e.path.as_str(), path) {
                proof {
                    lemma_assoc_map(pairs);
                }
                assert(assoc_map(pairs)[pairs[i as int].0] == pairs[i as int].1);
                assert(self.routes().contains_key(pairs[i as int].0));
                return Some((e.plugin.as_str(), e.handler.as_str()));
            }
            i = i + 1;
        }
        assert(!(exists|k: (Seq<char>, Seq<char>)|
            #[trigger] self.routes().contains_key(k) && k.0 == method@ && pattern_matches(k.1, path@))) by {
            lemma_assoc_map(pairs);
            if exists|k: (Seq<char>, Seq<char>)|
                #[trigger] self.routes().contains_key(k) && k.0 == method@ && pattern_matches(k.1, path@) {
                let k = choose|k: (Seq<char>, Seq<char>)|
                    #[trigger] self.routes().contains_key(k) && k.0 == method@ && pattern_matches(k.1, path@);
                let j = choose|j: int| 0 <= j < pairs.len() && pairs[j].0 == k;
                assert(!(pairs[j].0.0 == method@ && pattern_matches(pairs[j].0.1, path@)));
            }
        }
        None
    }

    /// Whether `path` matches the route pattern `pattern`.
    pub fn matches_pattern(pattern: &str, path: &str) -> (r: bool)
        ensures
            r == pattern_matches(pattern@, path@),
    {
        let pattern_parts = split_chars(pattern, '/');
        let path_parts = split_chars(path, '/');
        let ghost pp = chars_view(pattern_parts@);
        let ghost ph = chars_view(path_parts@);
        assert(pp == split_on(pattern@, '/'));
        assert(ph == split_on(path@, '/'));
        if pattern_parts.len() != path_parts.len() {
            let n = pattern_parts.len();
            let last = &pattern_parts[n - 1];
            let is_star = last.len() == 1 && last[0] == '*';
            assert(is_star == (pp.last() == seq!['*'])) by {
                assert(pp.last() == last@);
                if is_star {
                    assert(last@ =~= seq!['*']);
                }
            }
            if is_star && path_parts.len() >= n - 1 {
                let prefix = vstd::slice::slice_subrange(pattern_parts.as_slice(), 0, n - 1);
                assert(chars_view(prefix@) =~= pp.drop_last());
                return Self::matches_pattern_parts(prefix, path_parts.as_slice());
            }
            return false;
        }
        Self::matches_pattern_parts(pattern_parts.as_slice(), path_parts.as_slice())
    }

    /// Whether each pattern piece is a parameter or equals the path piece
    /// paired with it.
    pub fn matches_pattern_parts(pattern_parts: &[Vec<char>], path_parts: &[Vec<char>]) -> (r: bool)
        ensures
            r == parts_match(chars_view(pattern_parts@), chars_view(path_parts@)),
    {
        let ghost pp = chars_view(pattern_parts@);
        let ghost ph = chars_view(path_parts@);
        let mut i: usize = 0;
        while i < pattern_parts.len() && i < path_parts.len()
            invariant
                pp == chars_view(pattern_parts@),
                ph == chars_view(path_parts@),
                i <= pattern_parts@.len(),
                forall|j: int| 0 <= j < i && j < ph.len() ==> is_param(#[trigger] pp[j]) || pp[j] == ph[j],
            decreases pattern_parts@.len() - i,
        {
            let part = &pattern_parts[i];
            assert(pp[i as int] == part@);
            assert(ph[i as int] == path_parts[i as int]@);
            let param = part.len() > 0 && part[0] == ':';
            if !param && !chars_eq(part.as_slice(), path_parts[i].as_slice()) {
                assert(!(is_param(pp[i as int]) || pp[i as int] == ph[i as int]));
                return false;
            }
            i = i + 1;
        }
        true
    }

    /// Registers a CLI command for a plugin, replacing an earlier owner.
    pub fn register_cli_command(&mut self, plugin_name: &str, command: &str)
        requires
            old(self).wf(),
        ensures
            final(self).wf(),
            final(self).commands() == old(self).commands().insert(command@, plugin_name@),
            final(self).routes() == old(self).routes(),
            final(self).capability_map() == old(self).capability_map(),
    {
        let ghost pairs = string_pairs(self.cli_commands@);
        let mut i: usize = 0;
        while i < self.cli_commands.len()
            invariant
                self.wf(),
                self.http_routes@ == old(self).http_routes@,
                self.cli_commands@ == old(self).cli_commands@,
                self.capabilities@ == old(self).capabilities@,
                pairs == string_pairs(self.cli_commands@),
                i <= self.cli_commands@.len(),
                forall|j: int| 0 <= j < i ==> (#[trigger] pairs[j]).0 != command@,
            decreases self.cli_commands@.len() - i,
        {
            if str_eq(self.cli_commands[i].0.as_str(), command) {
                assert(pairs[i as int] == (self.cli_commands@[i as int].0@, self.cli_commands@[i as int].1@));
                let entry = (crate::text::string_of(command), crate::text::string_of(plugin_name));
                proof {
                    lemma_assoc_update(pairs, i as int, plugin_name@);
                }
                self.cli_commands.set(i, entry);
                assert(string_pairs(self.cli_commands@) =~= pairs.update(i as int, (pairs[i as int].0, plugin_name@)));
                return;
            }
            assert(pairs[i as int] == (self.cli_commands@[i as int].0@, self.cli_commands@[i as int].1@));
            i = i + 1;
        }
        let entry = (crate::text::string_of(command), crate::text::string_of(plugin_name));
        proof {
            lemma_assoc_map(pairs);
            if assoc_map(pairs).contains_key(command@) {
                let j = choose|j: int| 0 <= j < pairs.len() && pairs[j].0 == command@;
                assert(pairs[j].0 != command@);
            }
            lemma_assoc_push(pairs, command@, plugin_name@);
        }
        self.cli_commands.push(entry);
        assert(string_pairs(self.cli_commands@) =~= pairs.push((command@, plugin_name@)));
    }

    /// The plugin that handles a CLI command.
    pub fn find_command_handler(&self, command: &str) -> (r: Option<&str>)
        requires
            self.wf(),
        ensures
            r is Some <==> self.commands().contains_key(command@),
            r matches Some(p) ==> p@ == self.commands()[command@],
    {
        let ghost pairs = string_pairs(self.cli_commands@);
        proof {
            lemma_assoc_map(pairs);
        }
        let mut i: usize = 0;
        while i < self.cli_commands.len()
            invariant
                pairs == string_pairs(self.cli_commands@),
                distinct_keys(pairs),
                i <= self.cli_commands@.len(),
                forall|j: int| 0 <= j < i ==> (#[trigger] pairs[j]).0 != command@,
            decreases self.cli_commands@.len() - i,
        {
            if str_eq(self.cli_commands[i].0.as_str(), command) {
                proof {
                    lemma_assoc_map(pairs);
                }
                assert(pairs[i as int] == (self.cli_commands@[i as int].0@, self.cli_commands@[i as int].1@));
                assert(assoc_map(pairs)[pairs[i as int].0] == pairs[i as int].1);
                return Some(self.cli_commands[i].1.as_str());
            }
            i = i + 1;
        }
        proof {
            lemma_assoc_map(pairs);
            if self.commands().contains_key(command@) {
                let j = choose|j: int| 0 <= j < pairs.len() && pairs[j].0 == command@;
                assert(pairs[j].0 != command@);
            }
        }
        None
    }

    /// Sets the capabilities of a plugin, replacing earlier ones.
    pub fn register_capabilities(&mut self, plugin_name: &str, capabilities: Vec<String>)
        requires
            old(self).wf(),
        ensures
            final(self).wf(),
            final(self).capability_map() == old(self).capability_map().insert(plugin_name@, strings_view(capabilities@)),
            final(self).routes() == old(self).routes(),
            final(self).commands() == old(self).commands(),
    {
        let ghost pairs = capability_pairs(self.capabilities@);
        let ghost caps = strings_view(capabilities@);
        let mut i: usize = 0;
        while i < self.capabilities.len()
            invariant
                self.wf(),
                self.http_routes@ == old(self).http_routes@,
                self.cli_commands@ == old(self).cli_commands@,
                self.capabilities@ == old(self).capabilities@,
                pairs == capability_pairs(self.capabilities@),
                caps == strings_view(capabilities@),
                i <= self.capabilities@.len(),
                forall|j: int| 0 <= j < i ==> (#[trigger] pairs[j]).0 != plugin_name@,
            decreases self.capabilities@.len() - i,
        {
            if str_eq(self.capabilities[i].0.as_str(), plugin_name) {
                assert(pairs[i as int] == (self.capabilities@[i as int].0@, strings_view(self.capabilities@[i as int].1@)));
                let entry = (crate::text::string_of(plugin_name), capabilities);
                assert(strings_view(entry.1@) == caps);
                assert(pairs[i as int].0 == entry.0@);
                proof {
                    lemma_assoc_update(pairs, i as int, caps);
                }
                self.capabilities.set(i, entry);
                assert(capability_pairs(self.capabilities@) =~= pairs.update(i as int, (pairs[i as int].0, caps)));
                return;
            }
            assert(pairs[i as int] == (self.capabilities@[i as int].0@, strings_view(self.capabilities@[i as int].1@)));
            i = i + 1;
        }
        let entry = (crate::text::string_of(plugin_name), capabilities);
        proof {
            lemma_assoc_map(pairs);
            if assoc_map(pairs).contains_key(plugin_name@) {
                let j = choose|j: int| 0 <= j < pairs.len() && pairs[j].0 == plugin_name@;
                assert(pairs[j].0 != plugin_name@);
            }
            lemma_assoc_push(pairs, plugin_name@, caps);
        }
        self.capabilities.push(entry);
        assert(capability_pairs(self.capabilities@) =~= pairs.push((plugin_name@, caps)));
    }

    /// The position of a plugin in the capability list.
    fn capability_index(&self, plugin_name: &str) -> (r: Option<usize>)
        requires
            self.wf(),
        ensures
            r is Some <==> self.capability_map().contains_key(plugin_name@),
            r matches Some(i) ==> i < self.capabilities@.len() && self.capabilities@[i as int].0@ == plugin_name@
                && strings_view(self.capabilities@[i as int].1@) == self.capability_map()[plugin_name@],
    {
        let ghost pairs = capability_pairs(self.capabilities@);
        proof {
            lemma_assoc_map(pairs);
        }
        let mut i: usize = 0;
        while i < self.capabilities.len()
            invariant
                pairs == capability_pairs(self.capabilities@),
                distinct_keys(pairs),
                i <= self.capabilities@.len(),
                forall|j: int| 0 <= j < i ==> (#[trigger] pairs[j]).0 != plugin_name@,
            decreases self.capabilities@.len() - i,
        {
            if str_eq(self.capabilities[i].0.as_str(), plugin_name) {
                proof {
                    lemma_assoc_map(pairs);
                }
                assert(pairs[i as int] == (self.capabilities@[i as int].0@, strings_view(self.capabilities@[i as int].1@)));
                assert(assoc_map(pairs)[pairs[i as int].0] == pairs[i as int].1);
                return Some(i);
            }
            i = i + 1;
        }
        proof {
            lemma_assoc_map(pairs);
            if self.capability_map().contains_key(plugin_name@) {
                let j = choose|j: int| 0 <= j < pairs.len() && pairs[j].0 == plugin_name@;
                assert(pairs[j].0 != plugin_name@);
            }
        }
        None
    }

    /// The capabilities of a plugin.
    pub fn get_capabilities(&self, plugin_name: &str) -> (r: Option<&[String]>)
        requires
            self.wf(),
        ensures
            r is Some <==> self.capability_map().contains_key(plugin_name@),
            r matches Some(c) ==> strings_view(c@) == self.capability_map()[plugin_name@],
    {
        match self.capability_index(plugin_name) {
            Some(i) => Some(self.capabilities[i].1.as_slice()),
            None => None,
        }
    }

    /// Whether a plugin has a capability.
    pub fn has_capability(&self, plugin_name: &str, capability: &str) -> (r: bool)
        requires
            self.wf(),
        ensures
            r == (self.capability_map().contains_key(plugin_name@) && self.capability_map()[plugin_name@].contains(
                capability@,
            )),
    {
        match self.capability_index(plugin_name) {
            Some(i) => {
                let caps = &self.capabilities[i].1;
                let ghost cv = strings_view(caps@);
                assert(cv == self.capability_map()[plugin_name@]);
                let mut j: usize = 0;
                while j < caps.len()
                    invariant
                        cv == strings_view(caps@),
                        self.capability_map().contains_key(plugin_name@),
                        cv == self.capability_map()[plugin_name@],
                        j <= caps@.len(),
                        forall|t: int| 0 <= t < j ==> cv[t] != capability@,
                    decreases caps@.len() - j,
                {
                    if str_eq(caps[j].as_str(), capability) {
                        assert(cv[j as int] == caps@[j as int]@);
                        assert(cv[j as int] == capability@);
                        assert(cv.contains(capability@));
                        return true;
                    }
                    j = j + 1;
                }
                assert(!cv.contains(capability@));
                false
            },
            None => false,
        }
    }

    /// Removes every route, command and capability entry of a plugin.
    pub fn unregister_plugin(&mut self, plugin_name: &str)
        requires
            old(self).wf(),
        ensures
            final(self).wf(),
            final(self).routes() == map_filter(
                old(self).routes(),
                |k: (Seq<char>, Seq<char>), v: (Seq<char>, Seq<char>)| v.0 != plugin_name@,
            ),
            final(self).commands() == map_filter(old(self).commands(), |k: Seq<char>, v: Seq<char>| v != plugin_name@),
            final(self).capability_map() == old(self).capability_map().remove(plugin_name@),
    {
        let ghost keep_route = |k: (Seq<char>, Seq<char>), v: (Seq<char>, Seq<char>)| v.0 != plugin_name@;
        let ghost m0 = self.routes();
        proof {
            lemma_filtering_start(route_pairs(self.http_routes@), keep_route);
        }
        let mut i: usize = 0;
        while i < self.http_routes.len()
            invariant
                filtering(route_pairs(self.http_routes@), i as int, m0, keep_route),
                keep_route == (|k: (Seq<char>, Seq<char>), v: (Seq<char>, Seq<char>)| v.0 != plugin_name@),
                i <= self.http_routes@.len(),
                self.cli_commands@ == old(self).cli_commands@,
                self.capabilities@ == old(self).capabilities@,
                m0 == old(self).routes(),
            decreases self.http_routes@.len() - i,
        {
            let ghost pairs = route_pairs(self.http_routes@);
            assert(pairs[i as int] == route_pair(self.http_routes@[i as int]));
            if str_eq(self.http_routes[i].plugin.as_str(), plugin_name) {
                proof {
                    lemma_filtering_remove(pairs, i as int, m0, keep_route);
                }
                self.http_routes.remove(i);
                assert(route_pairs(self.http_routes@) =~= pairs.remove(i as int));
            } else {
                proof {
                    lemma_filtering_skip(pairs, i as int, m0, keep_route);
                }
                i = i + 1;
            }
        }
        proof {
            lemma_filtering_done(route_pairs(self.http_routes@), m0, keep_route);
        }
        let ghost keep_cmd = |k: Seq<char>, v: Seq<char>| v != plugin_name@;
        let ghost c0 = self.commands();
        proof {
            lemma_filtering_start(string_pairs(self.cli_commands@), keep_cmd);
        }
        let mut i: usize = 0;
        while i < self.cli_commands.len()
            invariant
                filtering(string_pairs(self.cli_commands@), i as int, c0, keep_cmd),
                keep_cmd == (|k: Seq<char>, v: Seq<char>| v != plugin_name@),
                keep_route == (|k: (Seq<char>, Seq<char>), v: (Seq<char>, Seq<char>)| v.0 != plugin_name@),
                i <= self.cli_commands@.len(),
                self.routes() == map_filter(m0, keep_route),
                distinct_keys(route_pairs(self.http_routes@)),
                self.capabilities@ == old(self).capabilities@,
                c0 == old(self).commands(),
            decreases self.cli_commands@.len() - i,
        {
            let ghost pairs = string_pairs(self.cli_commands@);
            assert(pairs[i as int] == (self.cli_commands@[i as int].0@, self.cli_commands@[i as int].1@));
            if str_eq(self.cli_commands[i].1.as_str(), plugin_name) {
                proof {
                    lemma_filtering_remove(pairs, i as int, c0, keep_cmd);
                }
                self.cli_commands.remove(i);
                assert(string_pairs(self.cli_commands@) =~= pairs.remove(i as int));
            } else {
                proof {
                    lemma_filtering_skip(pairs, i as int, c0, keep_cmd);
                }
                i = i + 1;
            }
        }
        proof {
            lemma_filtering_done(string_pairs(self.cli_commands@), c0, keep_cmd);
        }
        match self.capability_index(plugin_name) {
            Some(i) => {
                let ghost pairs = capability_pairs(self.capabilities@);
                proof {
                    crate::assoc::lemma_assoc_remove(pairs, i as int);
                }
                self.capabilities.remove(i);
                assert(capability_pairs(self.capabilities@) =~= pairs.remove(i as int));
            },
            None => {
                assert(self.capability_map().remove(plugin_name@) =~= self.capability_map());
            },
        }
    }

    /// Every route as (method, path, plugin), each once.
    pub fn list_http_routes(&self) -> (r: Vec<(String, String, String)>)
        requires
            self.wf(),
        ensures
            forall|i: int| 0 <= i < r@.len() ==> #[trigger] self.routes().contains_key((r@[i].0@, r@[i].1@))
                && self.routes()[(r@[i].0@, r@[i].1@)].0 == r@[i].2@,
            forall|k: (Seq<char>, Seq<char>)| #[trigger] self.routes().contains_key(k) ==> exists|i: int|
                0 <= i < r@.len() && r@[i].0@ == k.0 && r@[i].1@ == k.1,
            forall|i: int, j: int| 0 <= i < r@.len() && 0 <= j < r@.len() && i != j ==> (#[trigger] r@[i].0@, r@[i].1@) != (
                #[trigger] r@[j].0@,
                r@[j].1@,
            ),
    {
        let ghost pairs = route_pairs(self.http_routes@);
        proof {
            lemma_assoc_map(pairs);
        }
        let mut out: Vec<(String, String, String)> = Vec::new();
        let mut i: usize = 0;
        while i < self.http_routes.len()
            invariant
                pairs == route_pairs(self.http_routes@),
                distinct_keys(pairs),
                i <= self.http_routes@.len(),
                out@.len() == i,
                forall|t: int| 0 <= t < i ==> (#[trigger] out@[t].0@, out@[t].1@) == pairs[t].0 && out@[t].2@ == pairs[t].1.0,
            decreases self.http_routes@.len() - i,
        {
            let e = &self.http_routes[i];
            assert(pairs[i as int] == route_pair(*e));
            out.push((e.method.clone(), e.path.clone(), e.plugin.clone()));
            i = i + 1;
        }
        assert forall|t: int| 0 <= t < out@.len() implies #[trigger] self.routes().contains_key((out@[t].0@, out@[t].1@))
            && self.routes()[(out@[t].0@, out@[t].1@)].0 == out@[t].2@ by {
            assert((out@[t].0@, out@[t].1@) == pairs[t].0);
        }
        assert forall|k: (Seq<char>, Seq<char>)| #[trigger] self.routes().contains_key(k) implies exists|i: int|
            0 <= i < out@.len() && out@[i].0@ == k.0 && out@[i].1@ == k.1 by {
            let j = choose|j: int| 0 <= j < pairs.len() && pairs[j].0 == k;
            assert((out@[j].0@, out@[j].1@) == pairs[j].0);
        }
        assert forall|a: int, b: int| 0 <= a < out@.len() && 0 <= b < out@.len() && a != b implies (
            #[trigger] out@[a].0@,
            out@[a].1@,
        ) != (#[trigger] out@[b].0@, out@[b].1@) by {
            assert((out@[a].0@, out@[a].1@) == pairs[a].0);
            assert((out@[b].0@, out@[b].1@) == pairs[b].0);
        }
        out
    }

    /// Every CLI command as (command, plugin), each once.
    pub fn list_cli_commands(&self) -> (r: Vec<(String, String)>)
        requires
            self.wf(),
        ensures
            forall|i: int| 0 <= i < r@.len() ==> #[trigger] self.commands().contains_key(r@[i].0@)
                && self.commands()[r@[i].0@] == r@[i].1@,
            forall|k: Seq<char>| #[trigger] self.commands().contains_key(k) ==> exists|i: int|
                0 <= i < r@.len() && r@[i].0@ == k,
            forall|i: int, j: int| 0 <= i < r@.len() && 0 <= j < r@.len() && i != j ==> #[trigger] r@[i].0@ != #[trigger] r@[j].0@,
    {
        let ghost pairs = string_pairs(self.cli_commands@);
        proof {
            lemma_assoc_map(pairs);
        }
        let mut out: Vec<(String, String)> = Vec::new();
        let mut i: usize = 0;
        while i < self.cli_commands.len()
            invariant
                pairs == string_pairs(self.cli_commands@),
                distinct_keys(pairs),
                i <= self.cli_commands@.len(),
                out@.len() == i,
                forall|t: int| 0 <= t < i ==> (#[trigger] out@[t].0@, out@[t].1@) == pairs[t],
            decreases self.cli_commands@.len() - i,
        {
            let e = &self.cli_commands[i];
            assert(pairs[i as int] == (e.0@, e.1@));
            out.push((e.0.clone(), e.1.clone()));
            i = i + 1;
        }
        assert forall|t: int| 0 <= t < out@.len() implies #[trigger] self.commands().contains_key(out@[t].0@)
            && self.commands()[out@[t].0@] == out@[t].1@ by {
            assert((out@[t].0@, out@[t].1@) == pairs[t]);
        }
        assert forall|k: Seq<char>| #[trigger] self.commands().contains_key(k) implies exists|i: int|
            0 <= i < out@.len() && out@[i].0@ == k by {
            let j = choose|j: int| 0 <= j < pairs.len() && pairs[j].0 == k;
            assert((out@[j].0@, out@[j].1@) == pairs[j]);
        }
        assert forall|a: int, b: int| 0 <= a < out@.len() && 0 <= b < out@.len() && a != b implies #[trigger] out@[a].0@
            != #[trigger] out@[b].0@ by {
            assert((out@[a].0@, out@[a].1@) == pairs[a]);
            assert((out@[b].0@, out@[b].1@) == pairs[b]);
            assert(pairs[a].0 != pairs[b].0);
        }
        out
    }
}

impl Default for PluginRegistry {
    fn default() -> (r: Self)
        ensures
            r.wf(),
            r.routes() == Map::<(Seq<char>, Seq<char>), (Seq<char>, Seq<char>)>::empty(),
            r.commands() == Map::<Seq<char>, Seq<char>>::empty(),
            r.capability_map() == Map::<Seq<char>, Seq<Seq<char>>>::empty(),
    {
        Self::new()
    }
}

/// Registering a batch of routes: a route that no later route of the
/// batch overrides is in the table with its handler, and every route
/// outside the batch is left as it was.
pub proof fn lemma_register_routes_lookup(
    m: Map<(Seq<char>, Seq<char>), (Seq<char>, Seq<char>)>,
    plugin: Seq<char>,
    routes: Seq<(Seq<char>, Seq<char>, Seq<char>)>,
)
    ensures
        forall|i: int|
            0 <= i < routes.len() && (forall|j: int| i < j < routes.len() ==> (routes[j].0, routes[j].1) != (
                routes[i].0,
                routes[i].1,
            )) ==> #[trigger] register_routes_spec(m, plugin, routes).contains_key((routes[i].0, routes[i].1))
                && register_routes_spec(m, plugin, routes)[(routes[i].0, routes[i].1)] == (plugin, routes[i].2),
        forall|k: (Seq<char>, Seq<char>)|
            (forall|i: int| 0 <= i < routes.len() ==> (routes[i].0, routes[i].1) != k) ==> (
            #[trigger] register_routes_spec(m, plugin, routes).contains_key(k) == m.contains_key(k)
                && register_routes_spec(m, plugin, routes)[k] == m[k]),
    decreases routes.len(),
{
    if routes.len() > 0 {
        let init = routes.drop_last();
        lemma_register_routes_lookup(m, plugin, init);
        let n = routes.len() - 1;
        let prev = register_routes_spec(m, plugin, init);
        assert(register_routes_spec(m, plugin, routes) == prev.insert((routes[n].0, routes[n].1), (plugin, routes[n].2)));
        assert forall|i: int|
            0 <= i < routes.len() && (forall|j: int| i < j < routes.len() ==> (routes[j].0, routes[j].1) != (
                routes[i].0,
                routes[i].1,
            )) implies #[trigger] register_routes_spec(m, plugin, routes).contains_key((routes[i].0, routes[i].1))
            && register_routes_spec(m, plugin, routes)[(routes[i].0, routes[i].1)] == (plugin, routes[i].2) by {
            if i < n {
                assert(init[i] == routes[i]);
                assert forall|j: int| i < j < init.len() implies (init[j].0, init[j].1) != (init[i].0, init[i].1) by {
                    assert(init[j] == routes[j]);
                }
                assert((routes[n].0, routes[n].1) != (routes[i].0, routes[i].1));
                assert(prev.contains_key((init[i].0, init[i].1)));
            }
        }
        assert forall|k: (Seq<char>, Seq<char>)|
            (forall|i: int| 0 <= i < routes.len() ==> (routes[i].0, routes[i].1) != k) implies (
            #[trigger] register_routes_spec(m, plugin, routes).contains_key(k) == m.contains_key(k)
                && register_routes_spec(m, plugin, routes)[k] == m[k]) by {
            assert forall|i: int| 0 <= i < init.len() implies (init[i].0, init[i].1) != k by {
                assert(init[i] == routes[i]);
            }
            assert((routes[n].0, routes[n].1) != k);
            assert(prev.contains_key(k) == m.contains_key(k));
        }
    }
}


/// The (method, path) keys of a batch of routes.
pub open spec fn route_keys(routes: Seq<(Seq<char>, Seq<char>, Seq<char>)>) -> Set<(Seq<char>, Seq<char>)> {
    Set::new(|k: (Seq<char>, Seq<char>)| exists|i: int| 0 <= i < routes.len() && (routes[i].0, routes[i].1) == k)
}

/// Registering a plugin's routes and then unregistering the plugin leaves
/// exactly the routes of the other plugins, less those that the plugin's
/// routes took over.
pub proof fn lemma_register_then_unregister(
    m: Map<(Seq<char>, Seq<char>), (Seq<char>, Seq<char>)>,
    plugin: Seq<char>,
    routes: Seq<(Seq<char>, Seq<char>, Seq<char>)>,
)
    ensures
        map_filter(
            register_routes_spec(m, plugin, routes),
            |k: (Seq<char>, Seq<char>), v: (Seq<char>, Seq<char>)| v.0 != plugin,
        ) == map_filter(m, |k: (Seq<char>, Seq<char>), v: (Seq<char>, Seq<char>)| v.0 != plugin).remove_keys(
            route_keys(routes),
        ),
    decreases routes.len(),
{
    let keep = |k: (Seq<char>, Seq<char>), v: (Seq<char>, Seq<char>)| v.0 != plugin;
    if routes.len() == 0 {
        assert(route_keys(routes) =~= Set::empty());
        assert(map_filter(m, keep).remove_keys(route_keys(routes)) =~= map_filter(m, keep));
        assert(map_filter(register_routes_spec(m, plugin, routes), keep) =~= map_filter(m, keep));
    } else {
        let init = routes.drop_last();
        let n = routes.len() - 1;
        let key = (routes[n].0, routes[n].1);
        lemma_register_routes_lookup(m, plugin, init);
        lemma_register_then_unregister(m, plugin, init);
        let prev = register_routes_spec(m, plugin, init);
        assert(register_routes_spec(m, plugin, routes) == prev.insert(key, (plugin, routes[n].2)));
        assert(route_keys(routes) =~= route_keys(init).insert(key)) by {
            assert forall|k: (Seq<char>, Seq<char>)| route_keys(routes).contains(k) implies route_keys(init).insert(
                key,
            ).contains(k) by {
                let i = choose|i: int| 0 <= i < routes.len() && (routes[i].0, routes[i].1) == k;
                if i < n {
                    assert(init[i] == routes[i]);
                }
            }
            assert forall|k: (Seq<char>, Seq<char>)| route_keys(init).insert(key).contains(k) implies route_keys(
                routes,
            ).contains(k) by {
                if k != key {
                    let i = choose|i: int| 0 <= i < init.len() && (init[i].0, init[i].1) == k;
                    assert(init[i] == routes[i]);
                }
            }
        }
        assert(map_filter(prev.insert(key, (plugin, routes[n].2)), keep) =~= map_filter(prev, keep).remove(key));
        assert(map_filter(m, keep).remove_keys(route_keys(init)).remove(key) =~= map_filter(m, keep).remove_keys(
            route_keys(init).insert(key),
        ));
    }
}

} // verus!
