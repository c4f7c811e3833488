//! The plugin manager's bookkeeping: which plugins are loaded, in which
//! state each plugin is, the routes they registered, and the order in which
//! discovered plugins are loaded so that dependencies come first.
//!
//! Reading manifests from disk and loading shared libraries is left to the
//! caller, which asks `check_load` before it loads a library and records the
//! loaded plugin with `load_plugin`.
use vstd::prelude::*;
use crate::assoc::{assoc_map, distinct_keys, lemma_assoc_map, lemma_assoc_push, lemma_assoc_update, map_filter};
use crate::plugins::registry::{register_routes_spec, route_triples, PluginRegistry};
use crate::plugins::{push_str_chars, HttpRoute, PluginConfig, PluginError, PluginManifest, PluginState};
use crate::text::{str_eq, string_from_chars, string_of, strings_view};

verus! {

/// The names of a list of manifests.
pub open spec fn manifest_names(v: Seq<PluginManifest>) -> Seq<Seq<char>> {
    v.map_values(|m: PluginManifest| m.name@)
}

/// The dependencies a manifest names.
pub open spec fn dependency_names(m: PluginManifest) -> Seq<Seq<char>> {
    strings_view(m.dependencies@)
}

pub open spec fn state_pairs(v: Seq<(String, PluginState)>) -> Seq<(Seq<char>, PluginState)> {
    v.map_values(|e: (String, PluginState)| (e.0@, e.1))
}

/// The position of the first of `deps`, from `i` on, that is not in `names`.
pub open spec fn first_missing_from(deps: Seq<Seq<char>>, names: Seq<Seq<char>>, i: int) -> Option<int>
    decreases deps.len() - i,
{
    if i < 0 || i >= deps.len() {
        None
    } else if !names.contains(deps[i]) {
        Some(i)
    } else {
        first_missing_from(deps, names, i + 1)
    }
}

/// The text of a missing dependency: "Plugin {name} requires {dep}".
pub open spec fn requires_text(name: Seq<char>, dep: Seq<char>) -> Seq<char> {
    "Plugin "@ + name + " requires "@ + dep
}

/// Whether `r` is the answer to "may the plugin of manifest `m` be loaded
/// beside the plugins `loaded`": not when a plugin of that name is loaded,
/// nor while one of its dependencies is not loaded (the first such one is
/// named); otherwise yes.
pub open spec fn load_verdict(loaded: Seq<Seq<char>>, m: PluginManifest, r: Result<(), PluginError>) -> bool {
    if loaded.contains(m.name@) {
        r matches Err(PluginError::AlreadyLoaded(s)) && s@ == m.name@
    } else {
        match first_missing_from(dependency_names(m), loaded, 0) {
            Some(i) => r matches Err(PluginError::MissingDependency(s)) && s@ == requires_text(
                m.name@,
                dependency_names(m)[i],
            ),
            None => r is Ok,
        }
    }
}

/// Taking one more element of a list adds exactly that element.
pub proof fn lemma_take_one_more(s: Seq<Seq<char>>, d: int)
    requires
        0 <= d < s.len(),
    ensures
        forall|x: Seq<char>| #[trigger] s.take(d + 1).contains(x) <==> (s.take(d).contains(x) || x == s[d]),
{
    assert forall|x: Seq<char>| #[trigger] s.take(d + 1).contains(x) <==> (s.take(d).contains(x) || x == s[d]) by {
        if s.take(d + 1).contains(x) {
            let i = choose|i: int| 0 <= i < s.take(d + 1).len() && #[trigger] s.take(d + 1)[i] == x;
            if i < d {
                assert(s.take(d)[i] == x);
            }
        }
        if s.take(d).contains(x) {
            let i = choose|i: int| 0 <= i < s.take(d).len() && #[trigger] s.take(d)[i] == x;
            assert(s.take(d + 1)[i] == x);
        }
        if x == s[d] {
            assert(s.take(d + 1)[d] == x);
        }
    }
}

/// The loaded plugins, their states, and the registry of their routes.
pub struct PluginManager {
    registry: PluginRegistry,
    plugins: Vec<PluginManifest>,
    states: Vec<(String, PluginState)>,
    config: PluginConfig,
}

impl PluginManager {
    /// The manifests of the loaded plugins, in the order they were loaded.
    pub closed spec fn manifests(&self) -> Seq<PluginManifest> {
        self.plugins@
    }

    /// The names of the loaded plugins, in the order they were loaded.
    pub open spec fn loaded(&self) -> Seq<Seq<char>> {
        manifest_names(self.manifests())
    }

    /// The last known state of each plugin that was ever loaded.
    pub closed spec fn states(&self) -> Map<Seq<char>, PluginState> {
        assoc_map(state_pairs(self.states@))
    }

    /// The registry of routes, commands and capabilities.
    pub closed spec fn routing(&self) -> PluginRegistry {
        self.registry
    }

    /// The settings the manager was made with.
    pub closed spec fn settings(&self) -> PluginConfig {
        self.config
    }

    /// The registry is well formed, no plugin is loaded twice and no state
    /// is kept twice.
    pub closed spec fn wf(&self) -> bool {
        &&& self.registry.wf()
        &&& manifest_names(self.plugins@).no_duplicates()
        &&& distinct_keys(state_pairs(self.states@))
    }

    /// A manager with nothing loaded.
    pub fn new(config: PluginConfig) -> (r: Self)
        ensures
            r.wf(),
            r.manifests().len() == 0,
            r.states() == Map::<Seq<char>, PluginState>::empty(),
            r.routing().routes() == Map::<(Seq<char>, Seq<char>), (Seq<char>, Seq<char>)>::empty(),
            r.routing().commands() == Map::<Seq<char>, Seq<char>>::empty(),
            r.routing().capability_map() == Map::<Seq<char>, Seq<Seq<char>>>::empty(),
            r.settings() == config,
    {
        let r = Self { registry: PluginRegistry::new(), plugins: Vec::new(), states: Vec::new(), config };
        assert(state_pairs(r.states@) =~= Seq::empty());
        assert(manifest_names(r.plugins@) =~= Seq::empty());
        r
    }

    /// The position of a loaded plugin.
    fn loaded_index(&self, name: &str) -> (r: Option<usize>)
        ensures
            r is Some <==> self.loaded().contains(name@),
            r matches Some(i) ==> i < self.plugins@.len() && self.loaded()[i as int] == name@,
    {
        let ghost names = manifest_names(self.plugins@);
        let mut i: usize = 0;
        while i < self.plugins.len()
            invariant
                names == manifest_names(self.plugins@),
                i <= self.plugins@.len(),
                forall|j: int| 0 <= j < i ==> names[j] != name@,
            decreases self.plugins@.len() - i,
        {
            if str_eq(self.plugins[i].name.as_str(), name) {
                assert(names[i as int] == name@);
                return Some(i);
            }
            assert(names[i as int] == self.plugins@[i as int].name@);
            i = i + 1;
        }
        None
    }

    /// Whether a plugin of this name is loaded.
    pub fn is_loaded(&self, name: &str) -> (r: bool)
        ensures
            r == self.loaded().contains(name@),
    {
        self.loaded_index(name).is_some()
    }

    /// Whether the plugin of `manifest` may be loaded now: not when one of
    /// that name is loaded already, nor while a plugin it depends on is not
    /// loaded.
    pub fn check_load(&self, manifest: &PluginManifest) -> (r: Result<(), PluginError>)
        ensures
            load_verdict(self.loaded(), *manifest, r),
    {
        if self.is_loaded(manifest.name.as_str()) {
            return Err(PluginError::AlreadyLoaded(manifest.name.clone()));
        }
        let ghost deps = dependency_names(*manifest);
        let mut i: usize = 0;
        while i < manifest.dependencies.len()
            invariant
                deps == dependency_names(*manifest),
                i <= deps.len(),
                first_missing_from(deps, self.loaded(), 0) == first_missing_from(deps, self.loaded(), i as int),
                !self.loaded().contains(manifest.name@),
            decreases deps.len() - i,
        {
            let dep = manifest.dependencies[i].as_str();
            assert(deps[i as int] == dep@);
            if !self.is_loaded(dep) {
                let mut text: Vec<char> = Vec::new();
                push_str_chars(&mut text, "Plugin ");
                push_str_chars(&mut text, manifest.name.as_str());
                push_str_chars(&mut text, " requires ");
                push_str_chars(&mut text, dep);
                let detail = string_from_chars(text.as_slice());
                assert(detail@ =~= requires_text(manifest.name@, deps[i as int]));
                assert(first_missing_from(deps, self.loaded(), i as int) == Some(i as int));
                return Err(PluginError::MissingDependency(detail));
            }
            i = i + 1;
        }
        Ok(())
    }

    /// The position of a plugin's state.
    fn state_index(&self, name: &str) -> (r: Option<usize>)
        requires
            self.wf(),
        ensures
            r is Some <==> self.states().contains_key(name@),
            r matches Some(i) ==> i < self.states@.len() && self.states@[i as int].0@ == name@,
    {
        let ghost pairs = state_pairs(self.states@);
        let mut i: usize = 0;
        while i < self.states.len()
            invariant
                pairs == state_pairs(self.states@),
                distinct_keys(pairs),
                i <= self.states@.len(),
                forall|j: int| 0 <= j < i ==> (#[trigger] pairs[j]).0 != name@,
            decreases self.states@.len() - i,
        {
            if str_eq(self.states[i].0.as_str(), name) {
                proof {
                    lemma_assoc_map(pairs);
                    assert(pairs[i as int].0 == name@);
                }
                return Some(i);
            }
            assert(pairs[i as int].0 == self.states@[i as int].0@);
            i = i + 1;
        }
        proof {
            lemma_assoc_map(pairs);
            if self.states().contains_key(name@) {
                let j = choose|j: int| 0 <= j < pairs.len() && pairs[j].0 == name@;
                assert(pairs[j].0 != name@);
            }
        }
        None
    }

    /// Sets a plugin's state.
    fn set_state(&mut self, name: &str, state: PluginState)
        requires
            old(self).wf(),
        ensures
            final(self).wf(),
            final(self).states() == old(self).states().insert(name@, state),
            final(self).plugins == old(self).plugins,
            final(self).registry == old(self).registry,
            final(self).config == old(self).config,
    {
        let ghost pairs = state_pairs(self.states@);
        match self.state_index(name) {
            Some(i) => {
                proof {
                    lemma_assoc_update(pairs, i as int, state);
                }
                self.states.set(i, (string_of(name), state));
                assert(state_pairs(self.states@) =~= pairs.update(i as int, (pairs[i as int].0, state)));
            },
            None => {
                proof {
                    lemma_assoc_push(pairs, name@, state);
                }
                self.states.push((string_of(name), state));
                assert(state_pairs(self.states@) =~= pairs.push((name@, state)));
            },
        }
    }

    /// The state of a plugin, if it was ever loaded.
    pub fn get_state(&self, name: &str) -> (r: Option<PluginState>)
        requires
            self.wf(),
        ensures
            r == (if self.states().contains_key(name@) {
                Some(self.states()[name@])
            } else {
                None
            }),
    {
        match self.state_index(name) {
            Some(i) => {
                proof {
                    let pairs = state_pairs(self.states@);
                    lemma_assoc_map(pairs);
                    assert(pairs[i as int] == (name@, self.states@[i as int].1));
                    assert(assoc_map(pairs)[pairs[i as int].0] == pairs[i as int].1);
                }
                Some(self.states[i].1)
            },
            None => None,
        }
    }

    /// Records a plugin whose library the caller has loaded and initialised:
    /// the checks of `check_load` come first; then its routes are
    /// registered, its state becomes `Loaded` and it joins the loaded
    /// plugins. Returns the plugin's name.
    pub fn load_plugin(&mut self, manifest: PluginManifest, routes: Vec<HttpRoute>) -> (r: Result<String, PluginError>)
        requires
            old(self).wf(),
        ensures
            final(self).wf(),
            load_verdict(
                old(self).loaded(),
                manifest,
                match r {
                    Ok(_) => Ok(()),
                    Err(e) => Err(e),
                },
            ),
            r is Err ==> *final(self) == *old(self),
            r matches Ok(name) ==> {
                &&& name@ == manifest.name@
                &&& final(self).manifests() == old(self).manifests().push(manifest)
                &&& final(self).routing().routes() == register_routes_spec(
                    old(self).routing().routes(),
                    manifest.name@,
                    route_triples(routes@),
                )
                &&& final(self).routing().commands() == old(self).routing().commands()
                &&& final(self).routing().capability_map() == old(self).routing().capability_map()
                &&& final(self).states() == old(self).states().insert(manifest.name@, PluginState::Loaded)
                &&& final(self).settings() == old(self).settings()
            },
    {
        match self.check_load(&manifest) {
            Err(e) => return Err(e),
            Ok(()) => {},
        }
        let name = manifest.name.clone();
        self.registry.register_http_routes(name.as_str(), routes);
        self.set_state(name.as_str(), PluginState::Loaded);
        let ghost before = self.plugins@;
        self.plugins.push(manifest);
        assert(manifest_names(self.plugins@) =~= manifest_names(before).push(manifest.name@));
        Ok(name)
    }

    /// Forgets a loaded plugin: it leaves the loaded plugins, its routes,
    /// commands and capabilities are unregistered and its state becomes
    /// `Unloaded`. A plugin that is not loaded is `NotFound`.
    pub fn unload_plugin(&mut self, name: &str) -> (r: Result<(), PluginError>)
        requires
            old(self).wf(),
        ensures
            final(self).wf(),
            r is Ok <==> old(self).loaded().contains(name@),
            r is Err ==> (r matches Err(PluginError::NotFound(s)) && s@ == name@) && *final(self) == *old(self),
            r is Ok ==> {
                &&& exists|i: int|
                    0 <= i < old(self).manifests().len() && old(self).loaded()[i] == name@
                        && final(self).manifests() == old(self).manifests().remove(i)
                &&& final(self).routing().routes() == map_filter(
                    old(self).routing().routes(),
                    |k: (Seq<char>, Seq<char>), v: (Seq<char>, Seq<char>)| v.0 != name@,
                )
                &&& final(self).routing().commands() == map_filter(
                    old(self).routing().commands(),
                    |k: Seq<char>, v: Seq<char>| v != name@,
                )
                &&& final(self).routing().capability_map() == old(self).routing().capability_map().remove(name@)
                &&& final(self).states() == old(self).states().insert(name@, PluginState::Unloaded)
                &&& final(self).settings() == old(self).settings()
            },
    {
        match self.loaded_index(name) {
            None => Err(PluginError::NotFound(string_of(name))),
            Some(i) => {
                let ghost before = self.plugins@;
                let _ = self.plugins.remove(i);
                assert(manifest_names(self.plugins@) =~= manifest_names(before).remove(i as int));
                self.registry.unregister_plugin(name);
                self.set_state(name, PluginState::Unloaded);
                Ok(())
            },
        }
    }

    /// The manifests of the loaded plugins, in load order.
    pub fn list_plugins(&self) -> (r: Vec<&PluginManifest>)
        ensures
            r@.len() == self.manifests().len(),
            forall|i: int| 0 <= i < r@.len() ==> *r@[i] == self.manifests()[i],
    {
        let mut out: Vec<&PluginManifest> = Vec::new();
        let mut i: usize = 0;
        while i < self.plugins.len()
            invariant
                i <= self.plugins@.len(),
                out@.len() == i,
                forall|j: int| 0 <= j < i ==> *out@[j] == self.plugins@[j],
            decreases self.plugins@.len() - i,
        {
            out.push(&self.plugins[i]);
            i = i + 1;
        }
        out
    }

    /// The registry, for routing requests and commands.
    pub fn registry(&self) -> (r: &PluginRegistry)
        ensures
            *r == self.routing(),
    {
        &self.registry
    }

    /// The registry, to register commands and capabilities; the rest of the
    /// manager stays as it was.
    pub fn registry_mut(&mut self) -> (r: &mut PluginRegistry)
        ensures
            *r == old(self).routing(),
            final(self).routing() == *final(r),
            final(self).manifests() == old(self).manifests(),
            final(self).states() == old(self).states(),
            final(self).settings() == old(self).settings(),
            old(self).wf() ==> (final(self).wf() <==> final(r).wf()),
    {
        &mut self.registry
    }

    /// Unloads every loaded plugin, first loaded first: none stays loaded,
    /// none of their routes, commands or capabilities stays registered, and
    /// each of them is now `Unloaded`.
    pub fn shutdown_all(&mut self)
        requires
            old(self).wf(),
        ensures
            final(self).wf(),
            final(self).manifests().len() == 0,
            final(self).routing().routes() == map_filter(
                old(self).routing().routes(),
                |k: (Seq<char>, Seq<char>), v: (Seq<char>, Seq<char>)| !old(self).loaded().contains(v.0),
            ),
            final(self).routing().commands() == map_filter(
                old(self).routing().commands(),
                |k: Seq<char>, v: Seq<char>| !old(self).loaded().contains(v),
            ),
            final(self).routing().capability_map() == map_filter(
                old(self).routing().capability_map(),
                |k: Seq<char>, v: Seq<Seq<char>>| !old(self).loaded().contains(k),
            ),
            forall|n: Seq<char>|
                #[trigger] final(self).states().contains_key(n) <==> (old(self).states().contains_key(n)
                    || old(self).loaded().contains(n)),
            forall|n: Seq<char>|
                old(self).loaded().contains(n) ==> #[trigger] final(self).states()[n] == PluginState::Unloaded,
            forall|n: Seq<char>|
                !old(self).loaded().contains(n) && old(self).states().contains_key(n)
                    ==> #[trigger] final(self).states()[n] == old(self).states()[n],
            final(self).settings() == old(self).settings(),
    {
        let ghost names0 = old(self).loaded();
        let ghost routes0 = old(self).routing().routes();
        let ghost commands0 = old(self).routing().commands();
        let ghost caps0 = old(self).routing().capability_map();
        let ghost states0 = old(self).states();
        let ghost mut done: int = 0;
        proof {
            assert(names0.take(0) =~= Seq::<Seq<char>>::empty());
            assert(names0.skip(0) =~= names0);
            assert(map_filter(routes0, |k: (Seq<char>, Seq<char>), v: (Seq<char>, Seq<char>)| !names0.take(0).contains(v.0)) =~= routes0);
            assert(map_filter(commands0, |k: Seq<char>, v: Seq<char>| !names0.take(0).contains(v)) =~= commands0);
            assert(map_filter(caps0, |k: Seq<char>, v: Seq<Seq<char>>| !names0.take(0).contains(k)) =~= caps0);
        }
        while self.plugins.len() > 0
            invariant
                self.wf(),
                names0 == old(self).loaded(),
                names0.no_duplicates(),
                0 <= done <= names0.len(),
                self.loaded() == names0.skip(done),
                self.routing().routes() == map_filter(
                    routes0,
                    |k: (Seq<char>, Seq<char>), v: (Seq<char>, Seq<char>)| !names0.take(done).contains(v.0),
                ),
                self.routing().commands() == map_filter(
                    commands0,
                    |k: Seq<char>, v: Seq<char>| !names0.take(done).contains(v),
                ),
                self.routing().capability_map() == map_filter(
                    caps0,
                    |k: Seq<char>, v: Seq<Seq<char>>| !names0.take(done).contains(k),
                ),
                forall|n: Seq<char>|
                    #[trigger] self.states().contains_key(n) <==> (states0.contains_key(n) || names0.take(
                        done,
                    ).contains(n)),
                forall|n: Seq<char>| names0.take(done).contains(n) ==> #[trigger] self.states()[n] == PluginState::Unloaded,
                forall|n: Seq<char>|
                    !names0.take(done).contains(n) && states0.contains_key(n) ==> #[trigger] self.states()[n]
                        == states0[n],
                self.settings() == old(self).settings(),
            decreases self.plugins@.len(),
        {
            let name = self.plugins[0].name.clone();
            let ghost before = self.loaded();
            let ghost before_m = self.manifests();
            proof {
                assert(before.len() == self.plugins@.len());
                assert(before[0] == name@);
                assert(names0.skip(done)[0] == names0[done]);
                assert(names0[done] == name@);
                lemma_take_one_more(names0, done);
                assert(before.contains(name@));
            }
            let res = self.unload_plugin(name.as_str());
            proof {
                assert(res is Ok);
                let i = choose|i: int|
                    0 <= i < before.len() && before[i] == name@
                        && self.manifests() == before_m.remove(i);
                assert(before.no_duplicates());
                assert(i == 0) by {
                    if i != 0 {
                        assert(before[0] == before[i]);
                    }
                }
                assert(manifest_names(before_m.remove(0)) =~= before.remove(0));
                assert(before.remove(0) =~= names0.skip(done + 1));
                assert(self.loaded() =~= names0.skip(done + 1));
                done = done + 1;
                assert(self.routing().routes() =~= map_filter(
                    routes0,
                    |k: (Seq<char>, Seq<char>), v: (Seq<char>, Seq<char>)| !names0.take(done).contains(v.0),
                ));
                assert(self.routing().commands() =~= map_filter(
                    commands0,
                    |k: Seq<char>, v: Seq<char>| !names0.take(done).contains(v),
                ));
                assert(self.routing().capability_map() =~= map_filter(
                    caps0,
                    |k: Seq<char>, v: Seq<Seq<char>>| !names0.take(done).contains(k),
                ));
            }
        }
        proof {
            assert(done == names0.len());
            assert(names0.take(done) =~= names0);
        }
    }
}


// ---------------------------------------------------------------------------
// Load order
// ---------------------------------------------------------------------------

/// The names of the manifests at the positions `order`.
pub open spec fn placed_names(ms: Seq<PluginManifest>, order: Seq<usize>) -> Seq<Seq<char>> {
    order.map_values(|j: usize| ms[j as int].name@)
}

/// Every dependency of manifest `j` is the name of a manifest at one of
/// the positions `order`.
pub open spec fn deps_met(ms: Seq<PluginManifest>, j: usize, order: Seq<usize>) -> bool {
    forall|d: int|
        0 <= d < ms[j as int].dependencies@.len() ==> placed_names(ms, order).contains(
            #[trigger] ms[j as int].dependencies@[d]@,
        )
}

/// One pass over the waiting positions `rem`, front to back: a position
/// whose dependencies are all placed is placed (and counts for those after
/// it); the others keep waiting, in their order. Gives what is placed and
/// what still waits.
pub open spec fn sort_pass(ms: Seq<PluginManifest>, sorted: Seq<usize>, rem: Seq<usize>) -> (Seq<usize>, Seq<usize>)
    decreases rem.len(),
{
    if rem.len() == 0 {
        (sorted, rem)
    } else if deps_met(ms, rem[0], sorted) {
        sort_pass(ms, sorted.push(rem[0]), rem.drop_first())
    } else {
        let (s, r) = sort_pass(ms, sorted, rem.drop_first());
        (s, seq![rem[0]] + r)
    }
}

/// Passes are repeated while they place something; what waits after a
/// pass that placed nothing (a cycle, or a dependency no manifest has)
/// follows, in its order.
pub open spec fn sort_rounds(ms: Seq<PluginManifest>, sorted: Seq<usize>, rem: Seq<usize>) -> Seq<usize>
    decreases rem.len(),
{
    if rem.len() == 0 {
        sorted
    } else {
        let (s, r) = sort_pass(ms, sorted, rem);
        if r.len() < rem.len() {
            sort_rounds(ms, s, r)
        } else {
            s + r
        }
    }
}

/// The positions 0, 1, ..., n - 1.
pub open spec fn positions(n: nat) -> Seq<usize> {
    Seq::new(n, |i: int| i as usize)
}

/// The load order of the manifests `ms`, as positions in `ms`.
pub open spec fn dependency_order(ms: Seq<PluginManifest>) -> Seq<usize> {
    sort_rounds(ms, Seq::empty(), positions(ms.len()))
}

/// A pass moves waiting positions to the placed ones: nothing is lost or
/// added, and the placed ones only grow at the end.
pub proof fn lemma_sort_pass_sizes(ms: Seq<PluginManifest>, sorted: Seq<usize>, rem: Seq<usize>)
    ensures
        sort_pass(ms, sorted, rem).0.len() + sort_pass(ms, sorted, rem).1.len() == sorted.len() + rem.len(),
        sort_pass(ms, sorted, rem).0.len() >= sorted.len(),
        sort_pass(ms, sorted, rem).0.take(sorted.len() as int) == sorted,
        (sort_pass(ms, sorted, rem).0 + sort_pass(ms, sorted, rem).1).to_multiset() == (sorted + rem).to_multiset(),
    decreases rem.len(),
{
    if rem.len() > 0 {
        let h = rem[0];
        let t = rem.drop_first();
        assert(rem =~= seq![h] + t);
        if deps_met(ms, h, sorted) {
            lemma_sort_pass_sizes(ms, sorted.push(h), t);
            let s = sort_pass(ms, sorted.push(h), t).0;
            assert(s.take(sorted.len() as int) =~= s.take((sorted.len() + 1) as int).take(sorted.len() as int));
            assert(sorted.push(h).take(sorted.len() as int) =~= sorted);
            assert(sorted.push(h) + t =~= sorted + rem);
        } else {
            lemma_sort_pass_sizes(ms, sorted, t);
            let (s, r) = sort_pass(ms, sorted, t);
            vstd::seq_lib::lemma_multiset_commutative(s, seq![h] + r);
            vstd::seq_lib::lemma_multiset_commutative(seq![h], r);
            vstd::seq_lib::lemma_multiset_commutative(s, r);
            vstd::seq_lib::lemma_multiset_commutative(sorted, t);
            vstd::seq_lib::lemma_multiset_commutative(sorted, rem);
            vstd::seq_lib::lemma_multiset_commutative(seq![h], t);
            assert((s + (seq![h] + r)).to_multiset() =~= s.to_multiset().add(seq![h].to_multiset()).add(r.to_multiset()));
            assert((s + r).to_multiset() =~= s.to_multiset().add(r.to_multiset()));
            assert((sorted + t).to_multiset() =~= sorted.to_multiset().add(t.to_multiset()));
            assert(rem.to_multiset() =~= seq![h].to_multiset().add(t.to_multiset()));
            assert((sorted + rem).to_multiset() =~= sorted.to_multiset().add(seq![h].to_multiset()).add(t.to_multiset()));
            assert forall|v: usize| #[trigger] (s + (seq![h] + r)).to_multiset().count(v) == (sorted
                + rem).to_multiset().count(v) by {
                assert((s + r).to_multiset().count(v) == (sorted + t).to_multiset().count(v));
            }
            assert((s + (seq![h] + r)).to_multiset() =~= (sorted + rem).to_multiset());
        }
    }
}

/// A pass that leaves every position waiting places nothing, and none of
/// the waiting positions has its dependencies placed.
pub proof fn lemma_sort_pass_stuck(ms: Seq<PluginManifest>, sorted: Seq<usize>, rem: Seq<usize>)
    requires
        sort_pass(ms, sorted, rem).1.len() >= rem.len(),
    ensures
        sort_pass(ms, sorted, rem).0 == sorted,
        sort_pass(ms, sorted, rem).1 == rem,
        forall|k: int| 0 <= k < rem.len() ==> !deps_met(ms, #[trigger] rem[k], sorted),
    decreases rem.len(),
{
    if rem.len() > 0 {
        let h = rem[0];
        let t = rem.drop_first();
        lemma_sort_pass_sizes(ms, sorted.push(h), t);
        lemma_sort_pass_sizes(ms, sorted, t);
        if deps_met(ms, h, sorted) {
            assert(false);
        } else {
            lemma_sort_pass_stuck(ms, sorted, t);
            assert(seq![h] + t =~= rem);
            assert forall|k: int| 0 <= k < rem.len() implies !deps_met(ms, #[trigger] rem[k], sorted) by {
                if k > 0 {
                    assert(rem[k] == t[k - 1]);
                }
            }
        }
    }
}

/// Every placed position has the dependencies of its manifest placed
/// before it.
pub open spec fn placed_in_order(ms: Seq<PluginManifest>, order: Seq<usize>) -> bool {
    forall|k: int| 0 <= k < order.len() ==> deps_met(ms, #[trigger] order[k], order.take(k))
}

/// A pass keeps the placed positions in dependency order.
pub proof fn lemma_sort_pass_in_order(ms: Seq<PluginManifest>, sorted: Seq<usize>, rem: Seq<usize>)
    requires
        placed_in_order(ms, sorted),
    ensures
        placed_in_order(ms, sort_pass(ms, sorted, rem).0),
    decreases rem.len(),
{
    if rem.len() > 0 {
        let h = rem[0];
        let t = rem.drop_first();
        if deps_met(ms, h, sorted) {
            let p = sorted.push(h);
            assert forall|k: int| 0 <= k < p.len() implies deps_met(ms, #[trigger] p[k], p.take(k)) by {
                if k < sorted.len() {
                    assert(p.take(k) =~= sorted.take(k));
                    assert(p[k] == sorted[k]);
                } else {
                    assert(p.take(k) =~= sorted);
                }
            }
            lemma_sort_pass_in_order(ms, p, t);
        } else {
            lemma_sort_pass_in_order(ms, sorted, t);
        }
    }
}

/// What the rounds give, from a start in dependency order: a rearrangement
/// of the placed and waiting positions, whose first `p` entries are in
/// dependency order and whose other entries each miss a dependency among
/// those first `p`.
pub proof fn lemma_sort_rounds(ms: Seq<PluginManifest>, sorted: Seq<usize>, rem: Seq<usize>)
    requires
        placed_in_order(ms, sorted),
    ensures
        sort_rounds(ms, sorted, rem).to_multiset() == (sorted + rem).to_multiset(),
        exists|p: int|
            0 <= p <= sort_rounds(ms, sorted, rem).len() && placed_in_order(
                ms,
                #[trigger] sort_rounds(ms, sorted, rem).take(p),
            ) && forall|k: int|
                p <= k < sort_rounds(ms, sorted, rem).len() ==> !deps_met(
                    ms,
                    #[trigger] sort_rounds(ms, sorted, rem)[k],
                    sort_rounds(ms, sorted, rem).take(p),
                ),
    decreases rem.len(),
{
    let out = sort_rounds(ms, sorted, rem);
    if rem.len() == 0 {
        assert(sorted + rem =~= sorted);
        assert(out.take(out.len() as int) =~= out);
    } else {
        let (s, r) = sort_pass(ms, sorted, rem);
        lemma_sort_pass_sizes(ms, sorted, rem);
        lemma_sort_pass_in_order(ms, sorted, rem);
        if r.len() < rem.len() {
            lemma_sort_rounds(ms, s, r);
        } else {
            lemma_sort_pass_stuck(ms, sorted, rem);
            let p = sorted.len() as int;
            assert(out == sorted + rem);
            assert(out.take(p) =~= sorted);
            assert forall|k: int| p <= k < out.len() implies !deps_met(ms, #[trigger] out[k], out.take(p)) by {
                assert(out[k] == rem[k - p]);
            }
            assert(placed_in_order(ms, out.take(p)));
        }
    }
}

/// Law of the load order: it holds every manifest exactly once, and it
/// falls into two parts: first the plugins each of whose dependencies is
/// loaded before it, then the plugins that wait on a dependency none of
/// the first part provides (a cycle or a plugin that is not there), in
/// their original order.
pub proof fn lemma_dependency_order(ms: Seq<PluginManifest>)
    ensures
        dependency_order(ms).to_multiset() == positions(ms.len()).to_multiset(),
        dependency_order(ms).len() == ms.len(),
        exists|p: int|
            0 <= p <= dependency_order(ms).len() && placed_in_order(ms, #[trigger] dependency_order(ms).take(p))
                && forall|k: int|
                p <= k < dependency_order(ms).len() ==> !deps_met(
                    ms,
                    #[trigger] dependency_order(ms)[k],
                    dependency_order(ms).take(p),
                ),
{
    let e = Seq::<usize>::empty();
    assert(placed_in_order(ms, e));
    lemma_sort_rounds(ms, e, positions(ms.len()));
    assert(e + positions(ms.len()) =~= positions(ms.len()));
    dependency_order(ms).to_multiset_ensures();
    positions(ms.len()).to_multiset_ensures();
}

impl PluginManager {
    /// Whether every dependency of manifest `j` names a manifest at one of
    /// the positions `order`.
    fn deps_satisfied(ms: &[PluginManifest], j: usize, order: &Vec<usize>) -> (r: bool)
        requires
            j < ms@.len(),
            forall|k: int| 0 <= k < order@.len() ==> #[trigger] order@[k] < ms@.len(),
        ensures
            r == deps_met(ms@, j, order@),
    {
        let ghost names = placed_names(ms@, order@);
        let deps = &ms[j].dependencies;
        let mut d: usize = 0;
        while d < deps.len()
            invariant
                names == placed_names(ms@, order@),
                deps@ == ms@[j as int].dependencies@,
                forall|k: int| 0 <= k < order@.len() ==> #[trigger] order@[k] < ms@.len(),
                d <= deps@.len(),
                forall|e: int| 0 <= e < d ==> names.contains(#[trigger] deps@[e]@),
            decreases deps@.len() - d,
        {
            let dep = deps[d].as_str();
            let mut found = false;
            let mut k: usize = 0;
            while k < order.len()
                invariant
                    names == placed_names(ms@, order@),
                    forall|x: int| 0 <= x < order@.len() ==> #[trigger] order@[x] < ms@.len(),
                    k <= order@.len(),
                    found == exists|x: int| 0 <= x < k && names[x] == dep@,
                decreases order@.len() - k,
            {
                let idx = order[k];
                if str_eq(ms[idx].name.as_str(), dep) {
                    found = true;
                }
                assert(names[k as int] == ms@[idx as int].name@);
                k = k + 1;
            }
            if !found {
                proof {
                    assert(!names.contains(deps@[d as int]@));
                }
                return false;
            }
            assert(names.contains(deps@[d as int]@));
            d = d + 1;
        }
        true
    }

    /// The order in which to load the plugins of `manifests`, as positions
    /// in it: pass after pass over the waiting plugins, each whose
    /// dependencies are all placed is placed; when a pass places nothing,
    /// the plugins still waiting follow in their order.
    pub fn sort_by_dependencies(manifests: &[PluginManifest]) -> (r: Vec<usize>)
        ensures
            r@ == dependency_order(manifests@),
    {
        let ghost ms = manifests@;
        let mut sorted: Vec<usize> = Vec::new();
        let mut remaining: Vec<usize> = Vec::new();
        let mut i: usize = 0;
        while i < manifests.len()
            invariant
                i <= manifests@.len(),
                remaining@ == positions(i as nat),
            decreases manifests@.len() - i,
        {
            remaining.push(i);
            i = i + 1;
            assert(remaining@ =~= positions(i as nat));
        }
        assert(sorted@ =~= Seq::<usize>::empty());
        loop
            invariant_except_break
                ms == manifests@,
                sort_rounds(ms, sorted@, remaining@) == dependency_order(ms),
                forall|k: int| 0 <= k < sorted@.len() ==> #[trigger] sorted@[k] < ms.len(),
                forall|k: int| 0 <= k < remaining@.len() ==> #[trigger] remaining@[k] < ms.len(),
            ensures
                sorted@ == dependency_order(ms),
            decreases remaining@.len(),
        {
            if remaining.len() == 0 {
                break;
            }
            let ghost sorted0 = sorted@;
            let ghost rem0 = remaining@;
            let start = sorted.len();
            let mut j: usize = 0;
            assert(remaining@.skip(0) =~= remaining@);
            assert(remaining@.take(0) + sort_pass(ms, sorted@, remaining@).1 =~= sort_pass(ms, sorted@, remaining@).1);
            while j < remaining.len()
                invariant
                    ms == manifests@,
                    j <= remaining@.len(),
                    sort_pass(ms, sorted0, rem0) == (
                        sort_pass(ms, sorted@, remaining@.skip(j as int)).0,
                        remaining@.take(j as int) + sort_pass(ms, sorted@, remaining@.skip(j as int)).1,
                    ),
                    start == sorted0.len(),
                    sorted@.len() >= start,
                    forall|k: int| 0 <= k < sorted@.len() ==> #[trigger] sorted@[k] < ms.len(),
                    forall|k: int| 0 <= k < remaining@.len() ==> #[trigger] remaining@[k] < ms.len(),
                decreases remaining@.len() - j,
            {
                let idx = remaining[j];
                let ghost tail = remaining@.skip(j as int);
                assert(tail[0] == idx);
                if Self::deps_satisfied(manifests, idx, &sorted) {
                    let ghost before = remaining@;
                    let _ = remaining.remove(j);
                    sorted.push(idx);
                    assert(remaining@.skip(j as int) =~= tail.drop_first());
                    assert(remaining@.take(j as int) =~= before.take(j as int));
                } else {
                    assert(remaining@.skip(j + 1) =~= tail.drop_first());
                    assert(remaining@.take(j + 1) =~= remaining@.take(j as int) + seq![idx]);
                    j = j + 1;
                }
            }
            proof {
                assert(remaining@.skip(j as int) =~= Seq::<usize>::empty());
                assert(remaining@.take(j as int) =~= remaining@);
                lemma_sort_pass_sizes(ms, sorted0, rem0);
            }
            if sorted.len() == start {
                let mut k: usize = 0;
                let ghost waiting = remaining@;
                let ghost placed = sorted@;
                while k < remaining.len()
                    invariant
                        k <= remaining@.len(),
                        remaining@ == waiting,
                        sorted@ == placed + waiting.take(k as int),
                    decreases remaining@.len() - k,
                {
                    sorted.push(remaining[k]);
                    k = k + 1;
                    assert(sorted@ =~= placed + waiting.take(k as int));
                }
                proof {
                    assert(waiting.take(k as int) =~= waiting);
                }
                break;
            }
        }
        sorted
    }
}


// ---------------------------------------------------------------------------
// Finding a plugin's files
// ---------------------------------------------------------------------------

/// The file extensions of a shared library on operating system `os`
/// (as Rust names it): "so" on Linux, "dylib" on macOS, "dll" on Windows,
/// and any of the three elsewhere.
pub open spec fn library_extensions_spec(os: Seq<char>) -> Seq<Seq<char>> {
    if os == "linux"@ {
        seq!["so"@]
    } else if os == "macos"@ {
        seq!["dylib"@]
    } else if os == "windows"@ {
        seq!["dll"@]
    } else {
        seq!["so"@, "dylib"@, "dll"@]
    }
}

/// Whether a file with this extension (if it has one) is a shared library
/// on `os`.
pub open spec fn is_library_spec(ext: Option<String>, os: Seq<char>) -> bool {
    ext matches Some(e) && library_extensions_spec(os).contains(e@)
}

/// The position of the first entry of `v` that satisfies `p`.
pub open spec fn first_index<T>(v: Seq<T>, p: spec_fn(T) -> bool) -> Option<int> {
    if exists|i: int| 0 <= i < v.len() && p(v[i]) {
        Some(choose|i: int| 0 <= i < v.len() && p(v[i]) && forall|j: int| 0 <= j < i ==> !p(#[trigger] v[j]))
    } else {
        None
    }
}

/// The extensions of a shared library on `os`.
pub fn library_extensions(os: &str) -> (r: Vec<String>)
    ensures
        strings_view(r@) == library_extensions_spec(os@),
{
    let mut r: Vec<String> = Vec::new();
    if str_eq(os, "linux") {
        r.push(string_of("so"));
    } else if str_eq(os, "macos") {
        r.push(string_of("dylib"));
    } else if str_eq(os, "windows") {
        r.push(string_of("dll"));
    } else {
        r.push(string_of("so"));
        r.push(string_of("dylib"));
        r.push(string_of("dll"));
    }
    assert(strings_view(r@) =~= library_extensions_spec(os@));
    r
}

/// Whether `ext` is one of `exts`.
fn contains_str(exts: &Vec<String>, ext: &str) -> (r: bool)
    ensures
        r == strings_view(exts@).contains(ext@),
{
    let ghost v = strings_view(exts@);
    let mut i: usize = 0;
    while i < exts.len()
        invariant
            v == strings_view(exts@),
            i <= exts@.len(),
            forall|j: int| 0 <= j < i ==> v[j] != ext@,
        decreases exts@.len() - i,
    {
        if str_eq(exts[i].as_str(), ext) {
            assert(v[i as int] == ext@);
            return true;
        }
        assert(v[i as int] == exts@[i as int]@);
        i = i + 1;
    }
    false
}

/// Picks the shared library among the entries of plugin directory `dir`,
/// given by their file extensions: the first entry whose extension is one
/// of a shared library on `os`; none is a `LoadError`.
pub fn find_shared_library(dir: &str, entries: &[Option<String>], os: &str) -> (r: Result<usize, PluginError>)
    ensures
        match first_index(entries@, |e: Option<String>| is_library_spec(e, os@)) {
            Some(i) => r == Ok::<usize, PluginError>(i as usize),
            None => r matches Err(PluginError::LoadError(s)) && s@ == "No shared library found in "@ + dir@,
        },
{
    let exts = library_extensions(os);
    let ghost p = |e: Option<String>| is_library_spec(e, os@);
    let mut i: usize = 0;
    while i < entries.len()
        invariant
            strings_view(exts@) == library_extensions_spec(os@),
            p == (|e: Option<String>| is_library_spec(e, os@)),
            i <= entries@.len(),
            forall|j: int| 0 <= j < i ==> !p(#[trigger] entries@[j]),
        decreases entries@.len() - i,
    {
        let hit = match &entries[i] {
            Some(e) => contains_str(&exts, e.as_str()),
            None => false,
        };
        if hit {
            assert(p(entries@[i as int]));
            assert(first_index(entries@, p) == Some(i as int)) by {
                let k = choose|k: int| 0 <= k < entries@.len() && p(entries@[k]) && forall|j: int| 0 <= j < k ==> !p(#[trigger] entries@[j]);
                if k < i {
                    assert(!p(entries@[k]));
                } else if k > i {
                    assert(!p(entries@[i as int]));
                }
            }
            return Ok(i);
        }
        i = i + 1;
    }
    assert(first_index(entries@, p) is None);
    Err(PluginError::LoadError(crate::plugins::concat_str("No shared library found in ", dir)))
}

impl PluginManager {
    /// The discovered plugin to reload: the first of `discovered` with this
    /// name; none is `NotFound`.
    pub fn reload_target(discovered: &[PluginManifest], name: &str) -> (r: Result<usize, PluginError>)
        ensures
            match first_index(discovered@, |m: PluginManifest| m.name@ == name@) {
                Some(i) => r == Ok::<usize, PluginError>(i as usize),
                None => r matches Err(PluginError::NotFound(s)) && s@ == name@,
            },
    {
        let ghost p = |m: PluginManifest| m.name@ == name@;
        let mut i: usize = 0;
        while i < discovered.len()
            invariant
                p == (|m: PluginManifest| m.name@ == name@),
                i <= discovered@.len(),
                forall|j: int| 0 <= j < i ==> !p(#[trigger] discovered@[j]),
            decreases discovered@.len() - i,
        {
            if str_eq(discovered[i].name.as_str(), name) {
                assert(p(discovered@[i as int]));
                assert(first_index(discovered@, p) == Some(i as int)) by {
                    let k = choose|k: int| 0 <= k < discovered@.len() && p(discovered@[k]) && forall|j: int| 0 <= j < k ==> !p(#[trigger] discovered@[j]);
                    if k < i {
                        assert(!p(discovered@[k]));
                    } else if k > i {
                        assert(!p(discovered@[i as int]));
                    }
                }
                return Ok(i);
            }
            i = i + 1;
        }
        assert(first_index(discovered@, p) is None);
        Err(PluginError::NotFound(string_of(name)))
    }
}

} // verus!
