//! Legacy Perl plugins: their `install.xml` manifests, the module they
//! live in, the script that calls one of their methods, and whether they
//! have been initialised. Running `perl` is the caller's business.
use vstd::prelude::*;
use crate::plugins::{concat_str, push_str_chars, PluginError, PluginManifest};
use crate::protocol::messages::{lossy_utf8, utf8_lossy};
use crate::text::{
    chars_of, find, find_from, first_occurrence, first_occurrence_from, lemma_first_occurrence_from, occurs_at,
    string_from_chars, string_of,
};

verus! {

/// `char::is_whitespace`: the characters with the Unicode White_Space property.
pub open spec fn is_whitespace(c: char) -> bool {
    ||| ('\t' <= c && c <= '\r')
    ||| c == ' '
    ||| c == '\u{85}'
    ||| c == '\u{a0}'
    ||| c == '\u{1680}'
    ||| ('\u{2000}' <= c && c <= '\u{200a}')
    ||| c == '\u{2028}'
    ||| c == '\u{2029}'
    ||| c == '\u{202f}'
    ||| c == '\u{205f}'
    ||| c == '\u{3000}'
}

/// `s` without leading whitespace.
pub open spec fn trim_start(s: Seq<char>) -> Seq<char>
    decreases s.len(),
{
    if s.len() > 0 && is_whitespace(s[0]) {
        trim_start(s.drop_first())
    } else {
        s
    }
}

/// `s` without trailing whitespace.
pub open spec fn trim_end(s: Seq<char>) -> Seq<char>
    decreases s.len(),
{
    if s.len() > 0 && is_whitespace(s.last()) {
        trim_end(s.drop_last())
    } else {
        s
    }
}

/// `str::trim`.
pub open spec fn trim(s: Seq<char>) -> Seq<char> {
    trim_end(trim_start(s))
}

/// Whether `c` is whitespace.
pub fn char_is_whitespace(c: char) -> (r: bool)
    ensures
        r == is_whitespace(c),
{
    ('\t' <= c && c <= '\r') || c == ' ' || c == '\u{85}' || c == '\u{a0}' || c == '\u{1680}' || ('\u{2000}' <= c
        && c <= '\u{200a}') || c == '\u{2028}' || c == '\u{2029}' || c == '\u{202f}' || c == '\u{205f}' || c
        == '\u{3000}'
}

proof fn lemma_trim_start_skip(s: Seq<char>, i: int)
    requires
        0 <= i <= s.len(),
        forall|j: int| 0 <= j < i ==> is_whitespace(s[j]),
    ensures
        trim_start(s) == trim_start(s.skip(i)),
    decreases i,
{
    if i > 0 {
        assert(s.drop_first().skip(i - 1) =~= s.skip(i));
        lemma_trim_start_skip(s.drop_first(), i - 1);
    } else {
        assert(s.skip(0) =~= s);
    }
}

proof fn lemma_trim_end_take(s: Seq<char>, k: int)
    requires
        0 <= k <= s.len(),
        forall|j: int| k <= j < s.len() ==> is_whitespace(s[j]),
    ensures
        trim_end(s) == trim_end(s.take(k)),
    decreases s.len() - k,
{
    if k < s.len() {
        assert(s.drop_last().take(k) =~= s.take(k));
        lemma_trim_end_take(s.drop_last(), k);
    } else {
        assert(s.take(k) =~= s);
    }
}

/// The characters `s[from..to]` with surrounding whitespace removed.
pub fn trimmed_range(s: &[char], from: usize, to: usize) -> (r: String)
    requires
        from <= to <= s@.len(),
    ensures
        r@ == trim(s@.subrange(from as int, to as int)),
{
    let ghost t = s@.subrange(from as int, to as int);
    let mut a = from;
    while a < to && char_is_whitespace(s[a])
        invariant
            from <= a <= to <= s@.len(),
            t == s@.subrange(from as int, to as int),
            forall|j: int| 0 <= j < a - from ==> is_whitespace(t[j]),
        decreases to - a,
    {
        a = a + 1;
    }
    proof {
        lemma_trim_start_skip(t, a - from);
        assert(t.skip(a - from) =~= s@.subrange(a as int, to as int));
        let u = s@.subrange(a as int, to as int);
        if u.len() > 0 {
            assert(u[0] == s@[a as int]);
        }
        assert(trim_start(u) == u);
    }
    let mut b = to;
    while b > a && char_is_whitespace(s[b - 1])
        invariant
            from <= a <= b <= to <= s@.len(),
            forall|j: int| b <= j < to ==> is_whitespace(s@[j]),
        decreases b - a,
    {
        b = b - 1;
    }
    proof {
        let u = s@.subrange(a as int, to as int);
        assert forall|j: int| b - a <= j < u.len() implies is_whitespace(u[j]) by {
            assert(u[j] == s@[a + j]);
        }
        lemma_trim_end_take(u, b - a);
        let w = u.take(b - a);
        assert(w =~= s@.subrange(a as int, b as int));
        if w.len() > 0 {
            assert(w.last() == s@[b - 1]);
        }
        assert(trim_end(w) == w);
    }
    string_from_chars(vstd::slice::slice_subrange(s, a, b))
}

/// `<tag>`.
pub open spec fn open_tag(tag: Seq<char>) -> Seq<char> {
    seq!['<'] + tag + seq!['>']
}

/// `</tag>`.
pub open spec fn close_tag(tag: Seq<char>) -> Seq<char> {
    seq!['<', '/'] + tag + seq!['>']
}

/// Extraction is defined: where both tags are found, the closing one does
/// not begin inside the opening one.
pub open spec fn extract_defined(xml: Seq<char>, tag: Seq<char>) -> bool {
    match first_occurrence(xml, open_tag(tag)) {
        Some(s) => match first_occurrence_from(xml, close_tag(tag), s) {
            Some(e) => e >= s + open_tag(tag).len(),
            None => true,
        },
        None => true,
    }
}

/// The text between the first `<tag>` and the first `</tag>` after it,
/// trimmed; none where either is missing.
pub open spec fn extract_tag_spec(xml: Seq<char>, tag: Seq<char>) -> Option<Seq<char>> {
    match first_occurrence(xml, open_tag(tag)) {
        Some(s) => match first_occurrence_from(xml, close_tag(tag), s) {
            Some(e) => Some(trim(xml.subrange(s + open_tag(tag).len(), e))),
            None => None,
        },
        None => None,
    }
}

/// A tag name without `<` that does not start with `/`.
pub open spec fn plain_tag(tag: Seq<char>) -> bool {
    (forall|i: int| 0 <= i < tag.len() ==> tag[i] != '<') && (tag.len() == 0 || tag[0] != '/')
}

/// For a plain tag name the closing tag never begins inside the opening one.
pub proof fn lemma_plain_tag_defined(xml: Seq<char>, tag: Seq<char>)
    requires
        plain_tag(tag),
    ensures
        extract_defined(xml, tag),
{
    let ot = open_tag(tag);
    let ct = close_tag(tag);
    lemma_first_occurrence_from(xml, ot, 0);
    if let Some(s) = first_occurrence(xml, ot) {
        assert(occurs_at(xml, ot, s));
        lemma_first_occurrence_from(xml, ct, s);
        if let Some(e) = first_occurrence_from(xml, ct, s) {
            assert(occurs_at(xml, ct, e));
            if e < s + ot.len() {
                let k = e - s;
                assert(xml[e] == ct[0]);
                assert(xml[e] == xml.subrange(s, s + ot.len())[k]);
                if k == 0 {
                    assert(xml[e + 1] == ct[1]);
                    assert(xml[s + 1] == xml.subrange(s, s + ot.len())[1]);
                    assert(ot[1] == tag[0]);
                } else if k <= tag.len() {
                    assert(ot[k] == tag[k - 1]);
                } else {
                    assert(ot[k] == '>');
                }
            }
        }
    }
}

/// The name of the module a Perl plugin lives in.
pub open spec fn module_name_spec(name: Seq<char>) -> Seq<char> {
    "Slim::Plugin::"@ + name + "::Plugin"@
}

/// The manifest an `install.xml` describes: name, version, description,
/// creator and minimum server version from their tags, with defaults for
/// the required ones; no dependencies and the one capability `perl`.
pub open spec fn install_xml_manifest(content: Seq<char>, m: PluginManifest) -> bool {
    &&& m.name@ == (match extract_tag_spec(content, "name"@) {
        Some(v) => v,
        None => "Unknown Plugin"@,
    })
    &&& m.version@ == (match extract_tag_spec(content, "version"@) {
        Some(v) => v,
        None => "0.0.0"@,
    })
    &&& m.author@ == (match extract_tag_spec(content, "creator"@) {
        Some(v) => v,
        None => "Unknown"@,
    })
    &&& (match m.description {
        Some(d) => extract_tag_spec(content, "description"@) == Some(d@),
        None => extract_tag_spec(content, "description"@) is None,
    })
    &&& (match m.min_server_version {
        Some(d) => extract_tag_spec(content, "minTarget"@) == Some(d@),
        None => extract_tag_spec(content, "minTarget"@) is None,
    })
    &&& m.dependencies@.len() == 0
    &&& m.capabilities@.len() == 1
    &&& m.capabilities@[0]@ == "perl"@
    &&& !m.enforced
}

/// A Perl plugin: its name, module, directory, manifest and whether it
/// has been initialised.
pub struct PerlPlugin {
    name: String,
    module: String,
    base_dir: String,
    manifest: PluginManifest,
    initialized: bool,
}

impl PerlPlugin {
    pub closed spec fn name_view(&self) -> Seq<char> {
        self.name@
    }

    pub closed spec fn module_view(&self) -> Seq<char> {
        self.module@
    }

    pub closed spec fn base_dir_view(&self) -> Seq<char> {
        self.base_dir@
    }

    pub closed spec fn manifest_view(&self) -> PluginManifest {
        self.manifest
    }

    pub closed spec fn is_initialized(&self) -> bool {
        self.initialized
    }

    /// A plugin from its directory name, directory and `install.xml`
    /// text; not yet initialised.
    pub fn load(dir_name: &str, base_dir: String, install_xml: &str) -> (r: Self)
        ensures
            r.name_view() == dir_name@,
            r.module_view() == module_name_spec(dir_name@),
            r.base_dir_view() == base_dir@,
            install_xml_manifest(install_xml@, r.manifest_view()),
            !r.is_initialized(),
    {
        let manifest = Self::parse_install_xml(install_xml);
        let module = Self::module_name_for(dir_name);
        Self { name: string_of(dir_name), module, base_dir, manifest, initialized: false }
    }

    /// `Slim::Plugin::<name>::Plugin`.
    pub fn module_name_for(name: &str) -> (r: String)
        ensures
            r@ == module_name_spec(name@),
    {
        let mut v: Vec<char> = Vec::new();
        push_str_chars(&mut v, "Slim::Plugin::");
        push_str_chars(&mut v, name);
        push_str_chars(&mut v, "::Plugin");
        string_from_chars(v.as_slice())
    }

    /// The manifest described by the text of an `install.xml`.
    pub fn parse_install_xml(content: &str) -> (m: PluginManifest)
        ensures
            install_xml_manifest(content@, m),
    {
        proof {
            reveal_strlit("name");
            reveal_strlit("version");
            reveal_strlit("description");
            reveal_strlit("creator");
            reveal_strlit("minTarget");
            lemma_plain_tag_defined(content@, "name"@);
            lemma_plain_tag_defined(content@, "version"@);
            lemma_plain_tag_defined(content@, "description"@);
            lemma_plain_tag_defined(content@, "creator"@);
            lemma_plain_tag_defined(content@, "minTarget"@);
        }
        let name = match Self::extract_xml_tag(content, "name") {
            Some(v) => v,
            None => string_of("Unknown Plugin"),
        };
        let version = match Self::extract_xml_tag(content, "version") {
            Some(v) => v,
            None => string_of("0.0.0"),
        };
        let description = Self::extract_xml_tag(content, "description");
        let creator = match Self::extract_xml_tag(content, "creator") {
            Some(v) => v,
            None => string_of("Unknown"),
        };
        let min_target = Self::extract_xml_tag(content, "minTarget");
        let mut capabilities: Vec<String> = Vec::new();
        capabilities.push(string_of("perl"));
        PluginManifest {
            name,
            version,
            author: creator,
            description,
            min_server_version: min_target,
            dependencies: Vec::new(),
            capabilities,
            enforced: false,
        }
    }

    /// The trimmed text between the first `<tag>` and the first `</tag>` after it.
    pub fn extract_xml_tag(xml: &str, tag: &str) -> (r: Option<String>)
        requires
            extract_defined(xml@, tag@),
        ensures
            r matches Some(v) ==> extract_tag_spec(xml@, tag@) == Some(v@),
            r is None ==> extract_tag_spec(xml@, tag@) is None,
    {
        let mut st: Vec<char> = Vec::new();
        st.push('<');
        push_str_chars(&mut st, tag);
        st.push('>');
        let mut et: Vec<char> = Vec::new();
        et.push('<');
        et.push('/');
        push_str_chars(&mut et, tag);
        et.push('>');
        assert(st@ =~= open_tag(tag@));
        assert(et@ =~= close_tag(tag@));
        let x = chars_of(xml);
        match find(x.as_slice(), st.as_slice()) {
            Some(start) => {
                match find_from(x.as_slice(), et.as_slice(), start) {
                    Some(end) => {
                        proof {
                            lemma_first_occurrence_from(x@, et@, start as int);
                            lemma_first_occurrence_from(x@, st@, 0);
                        }
                        Some(trimmed_range(x.as_slice(), start + st.len(), end))
                    },
                    None => None,
                }
            },
            None => None,
        }
    }

    /// The plugin's manifest.
    pub fn manifest(&self) -> (r: &PluginManifest)
        ensures
            *r == self.manifest_view(),
    {
        &self.manifest
    }

    /// The plugin's name.
    pub fn name(&self) -> (r: &str)
        ensures
            r@ == self.name_view(),
    {
        self.name.as_str()
    }

    /// Marks the plugin initialised.
    pub fn init(&mut self) -> (r: Result<(), String>)
        ensures
            final(self).is_initialized(),
            r is Ok,
            final(self).name_view() == old(self).name_view(),
            final(self).module_view() == old(self).module_view(),
            final(self).manifest_view() == old(self).manifest_view(),
            final(self).base_dir_view() == old(self).base_dir_view(),
    {
        self.call_init_plugin()
    }

    fn call_init_plugin(&mut self) -> (r: Result<(), String>)
        ensures
            final(self).is_initialized(),
            r is Ok,
            final(self).name == old(self).name,
            final(self).module == old(self).module,
            final(self).manifest == old(self).manifest,
            final(self).base_dir == old(self).base_dir,
    {
        self.initialized = true;
        Ok(())
    }

    /// Marks the plugin no longer initialised.
    pub fn shutdown(&mut self)
        ensures
            !final(self).is_initialized(),
            final(self).name_view() == old(self).name_view(),
            final(self).module_view() == old(self).module_view(),
            final(self).manifest_view() == old(self).manifest_view(),
            final(self).base_dir_view() == old(self).base_dir_view(),
    {
        self.call_shutdown_plugin();
    }

    /// Marks the plugin as no longer initialised.
    pub fn call_shutdown_plugin(&mut self)
        ensures
            !final(self).is_initialized(),
            final(self).name_view() == old(self).name_view(),
            final(self).module_view() == old(self).module_view(),
            final(self).manifest_view() == old(self).manifest_view(),
            final(self).base_dir_view() == old(self).base_dir_view(),
    {
        self.initialized = false;
    }

    /// Whether the plugin has been initialised.
    pub fn initialized(&self) -> (r: bool)
        ensures
            r == self.is_initialized(),
    {
        self.initialized
    }

    /// The Perl program that loads the plugin's module, calls `method` with
    /// the JSON object `args_json`, and prints the result (or the error) as JSON.
    pub fn perl_script(&self, method: &str, args_json: &str) -> (r: String)
        ensures
            r@ == perl_script_spec(self.module_view(), method@, args_json@),
    {
        let m = self.module.as_str();
        let mut v: Vec<char> = Vec::new();
        push_str_chars(&mut v, "\nuse strict;\nuse warnings;\nuse lib '/data2/slimserver';\nuse JSON::XS;\nuse ");
        push_str_chars(&mut v, m);
        push_str_chars(&mut v, ";\n\nmy $plugin = ");
        push_str_chars(&mut v, m);
        push_str_chars(&mut v, "->new();\nmy $args = decode_json('");
        push_str_chars(&mut v, args_json);
        push_str_chars(&mut v, "');\nmy $result;\n\neval {\n    if ($plugin->can('");
        push_str_chars(&mut v, method);
        push_str_chars(&mut v, "')) {\n        $result = $plugin->");
        push_str_chars(&mut v, method);
        push_str_chars(&mut v, "($args);\n    } else {\n        $result = { error => \"Method ");
        push_str_chars(&mut v, method);
        push_str_chars(
            &mut v,
            " not found\" };\n    }\n};\n\nif ($@) {\n    $result = { error => $@ };\n}\n\nprint encode_json($result);\n",
        );
        string_from_chars(v.as_slice())
    }
}

/// The Perl program text for calling `method` on `module` with `args`.
pub open spec fn perl_script_spec(module: Seq<char>, method: Seq<char>, args: Seq<char>) -> Seq<char> {
    "\nuse strict;\nuse warnings;\nuse lib '/data2/slimserver';\nuse JSON::XS;\nuse "@ + module
        + ";\n\nmy $plugin = "@ + module + "->new();\nmy $args = decode_json('"@ + args
        + "');\nmy $result;\n\neval {\n    if ($plugin->can('"@ + method + "')) {\n        $result = $plugin->"@
        + method + "($args);\n    } else {\n        $result = { error => \"Method "@ + method
        + " not found\" };\n    }\n};\n\nif ($@) {\n    $result = { error => $@ };\n}\n\nprint encode_json($result);\n"@
}


/// What running a plugin method comes to: a `perl` process that could not
/// be started is a `LoadError` ("Failed to execute Perl: {error}"), one
/// that exited unsuccessfully an `InitializationError` ("Perl execution
/// failed: {stderr}"); otherwise the method's result is its output. Output
/// and error text are read as UTF-8, invalid sequences replaced.
pub fn execution_result(start_error: Option<&str>, success: bool, stdout: &[u8], stderr: &[u8]) -> (r: Result<
    String,
    PluginError,
>)
    ensures
        match start_error {
            Some(e) => r matches Err(PluginError::LoadError(m)) && m@ == "Failed to execute Perl: "@ + e@,
            None => if success {
                r matches Ok(out) && out@ == lossy_utf8(stdout@)
            } else {
                r matches Err(PluginError::InitializationError(m)) && m@ == "Perl execution failed: "@ + lossy_utf8(
                    stderr@,
                )
            },
        },
{
    match start_error {
        Some(e) => Err(PluginError::LoadError(concat_str("Failed to execute Perl: ", e))),
        None => {
            if !success {
                let text = utf8_lossy(stderr);
                return Err(PluginError::InitializationError(concat_str("Perl execution failed: ", text.as_str())));
            }
            Ok(utf8_lossy(stdout))
        },
    }
}

} // verus!
