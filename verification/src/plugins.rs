//! Flutter plugins of an application: the `.flutter-plugins` list, what each
//! plugin's `pubspec.yaml` says about the platforms it supports, and the
//! generated sources that register the plugins.
use crate::artifacts_emitter::ArtifactsEmitter;
use crate::flutter_build::{Flutter, TargetOS};
use crate::text::{chars_of, lemma_views, occurs_at, str_eq, string_from, views};
use crate::build_error::{BuildError, BuildResult};
use crate::yaml::{
    hash_entry, hash_get, lemma_nodes_value, lemma_pairs_value, load_yaml, node_value, nodes_value,
    pairs_value, yaml_documents, YamlNode, YamlValue,
};
use convert_case::{Case, Casing};
use vstd::prelude::*;
use vstd::string::StringExecFns;

verus! {

/// What a plugin provides for one platform.
pub struct PluginPlatformInfo {
    pub plugin_class: Option<String>,
    pub platform_directory: String,
}

/// A plugin that the application uses on the target platform.
pub struct Plugin {
    pub name: String,
    pub path: String,
    pub platform_path: String,
    pub platform_info: PluginPlatformInfo,
}

/// The pieces of `s` between the `'\n'` characters (as `str::split('\n')`
/// gives them: there is always one more piece than there are separators).
pub open spec fn split_lines(s: Seq<char>) -> Seq<Seq<char>>
    decreases s.len(),
{
    if s.len() == 0 {
        seq![Seq::empty()]
    } else {
        let p = split_lines(s.drop_last());
        if s.last() == '\n' {
            p.push(Seq::empty())
        } else {
            p.update(p.len() - 1, p.last().push(s.last()))
        }
    }
}

proof fn lemma_split_lines_len(s: Seq<char>)
    ensures
        split_lines(s).len() >= 1,
    decreases s.len(),
{
    if s.len() > 0 {
        lemma_split_lines_len(s.drop_last());
    }
}

/// The position of the first `c` in `s`, if any.
pub open spec fn first_index(s: Seq<char>, c: char) -> Option<int>
    decreases s.len(),
{
    if s.len() == 0 {
        None
    } else if s[0] == c {
        Some(0)
    } else {
        match first_index(s.drop_first(), c) {
            Some(i) => Some(i + 1),
            None => None,
        }
    }
}

/// The `name=path` entry of a line: the text before the first `=` and the
/// text after it; nothing when the line has no `=`.
pub open spec fn line_entry(line: Seq<char>) -> Option<(Seq<char>, Seq<char>)> {
    match first_index(line, '=') {
        Some(k) => Some((line.take(k), line.skip(k + 1))),
        None => None,
    }
}

/// The entries of the lines that have one, in order.
pub open spec fn entries_of(lines: Seq<Seq<char>>) -> Seq<(Seq<char>, Seq<char>)>
    decreases lines.len(),
{
    if lines.len() == 0 {
        Seq::empty()
    } else {
        entries_of(lines.drop_last()) + match line_entry(lines.last()) {
            Some(e) => seq![e],
            None => Seq::empty(),
        }
    }
}

/// The views of a sequence of string pairs.
pub open spec fn pair_views(v: Seq<(String, String)>) -> Seq<(Seq<char>, Seq<char>)>
    decreases v.len(),
{
    if v.len() == 0 {
        Seq::empty()
    } else {
        pair_views(v.drop_last()).push((v.last().0@, v.last().1@))
    }
}

fn line_entry_of(line: &Vec<char>) -> (r: Option<(String, String)>)
    ensures
        match r {
            Some(e) => line_entry(line@) == Some((e.0@, e.1@)),
            None => line_entry(line@) is None,
        },
{
    let mut k: usize = 0;
    assert(line@.skip(0) =~= line@);
    while k < line.len() && line[k] != '='
        invariant
            0 <= k <= line@.len(),
            forall|j: int| 0 <= j < k ==> line@[j] != '=',
            first_index(line@, '=') == match first_index(line@.skip(k as int), '=') {
                Some(i) => Some(i + k),
                None => None::<int>,
            },
        decreases line@.len() - k,
    {
        proof {
            assert(line@.skip(k as int).drop_first() =~= line@.skip(k + 1));
        }
        k = k + 1;
    }
    if k == line.len() {
        proof {
            assert(line@.skip(k as int).len() == 0);
        }
        return None;
    }
    proof {
        assert(line@.skip(k as int)[0] == '=');
    }
    let mut name: Vec<char> = Vec::new();
    let mut i: usize = 0;
    while i < k
        invariant
            0 <= i <= k,
            k < line@.len(),
            name@ == line@.take(i as int),
        decreases k - i,
    {
        name.push(line[i]);
        i = i + 1;
        proof {
            assert(name@ =~= line@.take(i as int));
        }
    }
    let mut path: Vec<char> = Vec::new();
    let mut j: usize = k + 1;
    while j < line.len()
        invariant
            k + 1 <= j <= line@.len(),
            path@ == line@.subrange(k + 1, j as int),
        decreases line@.len() - j,
    {
        path.push(line[j]);
        j = j + 1;
        proof {
            assert(path@ =~= line@.subrange(k + 1, j as int));
        }
    }
    proof {
        assert(line@.subrange(k + 1, line@.len() as int) =~= line@.skip(k + 1));
    }
    Some((string_from(name.as_slice()), string_from(path.as_slice())))
}

/// The pieces of `s` between its `'\n'` characters.
fn split_at_newlines(s: &Vec<char>) -> (r: Vec<Vec<char>>)
    ensures
        r@.len() == split_lines(s@).len(),
        forall|i: int| 0 <= i < r@.len() ==> #[trigger] r@[i]@ == split_lines(s@)[i],
{
    let mut done: Vec<Vec<char>> = Vec::new();
    let mut cur: Vec<char> = Vec::new();
    let mut i: usize = 0;
    while i < s.len()
        invariant
            0 <= i <= s@.len(),
            done@.len() + 1 == split_lines(s@.take(i as int)).len(),
            forall|k: int| 0 <= k < done@.len() ==> #[trigger] done@[k]@ == split_lines(s@.take(i as int))[k],
            cur@ == split_lines(s@.take(i as int)).last(),
        decreases s@.len() - i,
    {
        proof {
            assert(s@.take(i + 1).drop_last() =~= s@.take(i as int));
            lemma_split_lines_len(s@.take(i as int));
        }
        if s[i] == '\n' {
            let line = cur;
            done.push(line);
            cur = Vec::new();
        } else {
            cur.push(s[i]);
        }
        i = i + 1;
    }
    assert(s@.take(s@.len() as int) =~= s@);
    done.push(cur);
    done
}

impl PluginPlatformInfo {
    /// The value of a platform's entry in a plugin's `pubspec.yaml`.
    pub open spec fn describes(self, key: Seq<char>, value: YamlValue) -> bool {
        &&& self.platform_directory@ == platform_directory_of(key, value)
        &&& match self.plugin_class {
            Some(c) => class_of(value) == Some(c@),
            None => class_of(value) is None,
        }
    }
}

/// The `pluginClass` of a platform entry, if it is a string.
pub open spec fn class_of(value: YamlValue) -> Option<Seq<char>> {
    match value {
        YamlValue::Hash(h) => match hash_get(h, "pluginClass"@) {
            Some(YamlValue::String(s)) => Some(s),
            _ => None,
        },
        _ => None,
    }
}

/// Whether a platform entry sets the boolean `key` to true.
pub open spec fn flag_of(value: YamlValue, key: Seq<char>) -> bool {
    match value {
        YamlValue::Hash(h) => hash_get(h, key) == Some(YamlValue::Boolean(true)),
        _ => false,
    }
}

/// A platform entry counts when it names a plugin class other than `none`,
/// or has no class and is an FFI plugin.
pub open spec fn counts(value: YamlValue) -> bool {
    match class_of(value) {
        Some(c) => c != "none"@,
        None => flag_of(value, "ffiPlugin"@),
    }
}

/// The directory of a platform's sources: `darwin` for iOS and macOS plugins
/// that share their sources, otherwise the platform's own name.
pub open spec fn platform_directory_of(key: Seq<char>, value: YamlValue) -> Seq<char> {
    if (key == "ios"@ || key == "macos"@) && flag_of(value, "sharedDarwinSource"@) {
        "darwin"@
    } else {
        key
    }
}

/// The entries of `flutter.plugin.platforms` of a plugin's `pubspec.yaml`.
pub open spec fn platforms_of(doc: YamlValue) -> Seq<(YamlValue, YamlValue)> {
    match doc {
        YamlValue::Hash(top) => match hash_get(top, "flutter"@) {
            Some(YamlValue::Hash(flutter)) => match hash_get(flutter, "plugin"@) {
                Some(YamlValue::Hash(plugin)) => match hash_get(plugin, "platforms"@) {
                    Some(YamlValue::Hash(platforms)) => platforms,
                    _ => Seq::empty(),
                },
                _ => Seq::empty(),
            },
            _ => Seq::empty(),
        },
        _ => Seq::empty(),
    }
}

/// The platforms that count (see `counts`), by name, in order.
pub open spec fn counted_platforms(platforms: Seq<(YamlValue, YamlValue)>) -> Seq<(Seq<char>, YamlValue)>
    decreases platforms.len(),
{
    if platforms.len() == 0 {
        Seq::empty()
    } else {
        counted_platforms(platforms.drop_last()) + if counts(platforms.last().1) {
            match platforms.last().0 {
                YamlValue::String(k) => seq![(k, platforms.last().1)],
                _ => Seq::empty(),
            }
        } else {
            Seq::empty()
        }
    }
}

/// Every platform entry that counts is named by a string.
pub open spec fn counted_keys_are_strings(platforms: Seq<(YamlValue, YamlValue)>) -> bool {
    forall|i: int|
        0 <= i < platforms.len() && counts(#[trigger] platforms[i].1) ==> platforms[i].0 is String
}

/// The name under which a platform's plugin code is looked up.
pub open spec fn platform_name_of(os: TargetOS) -> Seq<char> {
    match os {
        TargetOS::Mac => "macos"@,
        TargetOS::Windows => "windows"@,
        TargetOS::Linux => "linux"@,
    }
}

/// The plugin's class as the registrar function's prefix, in snake case
/// (what `convert_case` makes of a Pascal case name).
pub uninterp spec fn snake_case_of(class: Seq<char>) -> Seq<char>;

/// Converts a Pascal case class name to snake case with `convert_case`
/// (`from_case(Case::Pascal).to_case(Case::Snake)`).
///
/// Claimed: the result depends on the name alone; it is named
/// `snake_case_of`. Nothing is claimed of its characters.
#[verifier::external_body]
fn snake_case(class: &str) -> (r: String)
    ensures
        r@ == snake_case_of(class@),
{
    class.from_case(Case::Pascal).to_case(Case::Snake)
}

/// The first line of a generated registrar.
pub open spec fn registrar_header() -> Seq<char> {
    "fn flutter_get_plugins() -> Vec<nativeshell::shell::platform::engine::PlatformPlugin> {\n"@
}

/// The declarations of the registration functions of `classes`.
pub open spec fn linux_declarations(classes: Seq<Seq<char>>) -> Seq<char>
    decreases classes.len(),
{
    if classes.len() == 0 {
        Seq::empty()
    } else {
        linux_declarations(classes.drop_last()) + "  extern \"C\" { pub fn "@ + snake_case_of(
            classes.last(),
        ) + "_register_with_registrar(registrar: *mut std::os::raw::c_void); }\n"@
    }
}

/// The plugin list entries of `classes` on Linux.
pub open spec fn linux_entries(classes: Seq<Seq<char>>) -> Seq<char>
    decreases classes.len(),
{
    if classes.len() == 0 {
        Seq::empty()
    } else {
        linux_entries(classes.drop_last())
            + "    nativeshell::shell::platform::engine::PlatformPlugin { name: \""@ + classes.last()
            + "\".into(), register_func: Some("@ + snake_case_of(classes.last())
            + "_register_with_registrar) },\n"@
    }
}

/// The generated Linux registrar for plugins with the given classes.
pub open spec fn linux_registrar(classes: Seq<Seq<char>>) -> Seq<char> {
    registrar_header() + linux_declarations(classes) + "  vec![\n"@ + linux_entries(classes)
        + "  ]\n"@ + "}\n"@
}

/// The line that declares the registration function of the plugin `class`.
pub open spec fn linux_declaration_line(class: Seq<char>) -> Seq<char> {
    "  extern \"C\" { pub fn "@ + snake_case_of(class)
        + "_register_with_registrar(registrar: *mut std::os::raw::c_void); }\n"@
}

/// The line that lists the plugin `class` with its registration function.
pub open spec fn linux_entry_line(class: Seq<char>) -> Seq<char> {
    "    nativeshell::shell::platform::engine::PlatformPlugin { name: \""@ + class
        + "\".into(), register_func: Some("@ + snake_case_of(class)
        + "_register_with_registrar) },\n"@
}

/// Text found in `a` is found in `a + b` where it was, and in `b + a`
/// shifted by the length of `b`.
proof fn lemma_occurs_in_concat(a: Seq<char>, b: Seq<char>, pat: Seq<char>, p: int)
    requires
        occurs_at(a, pat, p),
    ensures
        occurs_at(a + b, pat, p),
        occurs_at(b + a, pat, b.len() + p),
{
    assert((a + b).subrange(p, p + pat.len()) =~= a.subrange(p, p + pat.len()));
    assert((b + a).subrange(b.len() + p, b.len() + p + pat.len()) =~= a.subrange(p, p + pat.len()));
}

/// Where the declaration line and the entry line of the class at `i` stand
/// in the declarations and the entries made of `classes`.
proof fn lemma_lines_present(classes: Seq<Seq<char>>, i: int) -> (at: (int, int))
    requires
        0 <= i < classes.len(),
    ensures
        occurs_at(linux_declarations(classes), linux_declaration_line(classes[i]), at.0),
        occurs_at(linux_entries(classes), linux_entry_line(classes[i]), at.1),
    decreases classes.len(),
{
    let rest = classes.drop_last();
    let c = classes.last();
    let d = linux_declarations(rest);
    let e = linux_entries(rest);
    assert(linux_declarations(classes) =~= d + linux_declaration_line(c));
    assert(linux_entries(classes) =~= e + linux_entry_line(c));
    if i < classes.len() - 1 {
        let (p, q) = lemma_lines_present(rest, i);
        assert(rest[i] == classes[i]);
        lemma_occurs_in_concat(d, linux_declaration_line(c), linux_declaration_line(rest[i]), p);
        lemma_occurs_in_concat(e, linux_entry_line(c), linux_entry_line(rest[i]), q);
        (p, q)
    } else {
        assert(occurs_at(linux_declaration_line(c), linux_declaration_line(c), 0)) by {
            assert(linux_declaration_line(c).subrange(0, linux_declaration_line(c).len() as int)
                =~= linux_declaration_line(c));
        }
        assert(occurs_at(linux_entry_line(c), linux_entry_line(c), 0)) by {
            assert(linux_entry_line(c).subrange(0, linux_entry_line(c).len() as int)
                =~= linux_entry_line(c));
        }
        lemma_occurs_in_concat(linux_declaration_line(c), d, linux_declaration_line(c), 0);
        lemma_occurs_in_concat(linux_entry_line(c), e, linux_entry_line(c), 0);
        (d.len() as int, e.len() as int)
    }
}

/// The generated Linux registrar declares the registration function of
/// every plugin it is made for, and lists every plugin with that function:
/// for each class, its declaration line and its entry line both occur in
/// the source, the declaration before the entry.
pub proof fn lemma_registrar_declares_every_plugin(classes: Seq<Seq<char>>, i: int)
    requires
        0 <= i < classes.len(),
    ensures
        exists|p: int, q: int|
            occurs_at(linux_registrar(classes), linux_declaration_line(classes[i]), p)
                && occurs_at(linux_registrar(classes), linux_entry_line(classes[i]), q) && p < q,
{
    let h = registrar_header();
    let d = linux_declarations(classes);
    let e = linux_entries(classes);
    let open_list = "  vec![\n"@;
    let tail = "  ]\n"@ + "}\n"@;
    let reg = linux_registrar(classes);
    assert(reg =~= (h + d) + (open_list + e + tail));
    let dl = linux_declaration_line(classes[i]);
    let el = linux_entry_line(classes[i]);
    let (pd, qe) = lemma_lines_present(classes, i);
    reveal_strlit("  vec![\n");
    lemma_occurs_in_concat(d, h, dl, pd);
    lemma_occurs_in_concat(h + d, open_list + e + tail, dl, h.len() + pd);
    lemma_occurs_in_concat(e, open_list, el, qe);
    lemma_occurs_in_concat(open_list + e, tail, el, open_list.len() + qe);
    lemma_occurs_in_concat(open_list + e + tail, h + d, el, open_list.len() + qe);
    assert(occurs_at(reg, dl, h.len() + pd));
    assert(occurs_at(reg, el, (h + d).len() + open_list.len() + qe));
}

/// The plugin list entries of (plugin class, Objective-C class) pairs on macOS.
pub open spec fn macos_entries(classes: Seq<(Seq<char>, Seq<char>)>) -> Seq<char>
    decreases classes.len(),
{
    if classes.len() == 0 {
        Seq::empty()
    } else {
        macos_entries(classes.drop_last())
            + "    nativeshell::shell::platform::engine::PlatformPlugin { name: \""@ + classes.last().0
            + "\".into(), class:\""@ + classes.last().1 + "\".into() },\n"@
    }
}

/// The generated macOS registrar for the given (plugin class, Objective-C class) pairs.
pub open spec fn macos_registrar(classes: Seq<(Seq<char>, Seq<char>)>) -> Seq<char> {
    registrar_header() + "  vec![\n"@ + macos_entries(classes) + "  ]\n"@ + "}\n"@
}

/// The line that lists the plugin `class` with its Objective-C class on macOS.
pub open spec fn macos_entry_line(class: (Seq<char>, Seq<char>)) -> Seq<char> {
    "    nativeshell::shell::platform::engine::PlatformPlugin { name: \""@ + class.0
        + "\".into(), class:\""@ + class.1 + "\".into() },\n"@
}

/// Where the entry line of the class at `i` stands in the macOS entries.
proof fn lemma_macos_line_present(classes: Seq<(Seq<char>, Seq<char>)>, i: int) -> (at: int)
    requires
        0 <= i < classes.len(),
    ensures
        occurs_at(macos_entries(classes), macos_entry_line(classes[i]), at),
    decreases classes.len(),
{
    let rest = classes.drop_last();
    let c = classes.last();
    let e = macos_entries(rest);
    assert(macos_entries(classes) =~= e + macos_entry_line(c));
    if i < classes.len() - 1 {
        let q = lemma_macos_line_present(rest, i);
        assert(rest[i] == classes[i]);
        lemma_occurs_in_concat(e, macos_entry_line(c), macos_entry_line(rest[i]), q);
        q
    } else {
        assert(occurs_at(macos_entry_line(c), macos_entry_line(c), 0)) by {
            assert(macos_entry_line(c).subrange(0, macos_entry_line(c).len() as int)
                =~= macos_entry_line(c));
        }
        lemma_occurs_in_concat(macos_entry_line(c), e, macos_entry_line(c), 0);
        e.len() as int
    }
}

/// The generated macOS registrar lists every plugin it is made for, with
/// its Objective-C class: the entry line of each pair occurs in the source.
pub proof fn lemma_macos_registrar_lists_every_plugin(classes: Seq<(Seq<char>, Seq<char>)>, i: int)
    requires
        0 <= i < classes.len(),
    ensures
        exists|q: int| occurs_at(macos_registrar(classes), macos_entry_line(classes[i]), q),
{
    let h = registrar_header() + "  vec![\n"@;
    let e = macos_entries(classes);
    let tail = "  ]\n"@ + "}\n"@;
    let reg = macos_registrar(classes);
    assert(reg =~= (h + e) + tail);
    let el = macos_entry_line(classes[i]);
    let q = lemma_macos_line_present(classes, i);
    lemma_occurs_in_concat(e, h, el, q);
    lemma_occurs_in_concat(h + e, tail, el, h.len() + q);
    assert(occurs_at(reg, el, h.len() + q));
}

/// The Objective-C name of a Swift class from a line of a `-Swift.h` header:
/// the text of `SWIFT_CLASS("...")`, when it ends with the plugin class.
pub open spec fn swift_class_of(line: Seq<char>, class: Seq<char>) -> Option<Seq<char>> {
    let prefix = "SWIFT_CLASS(\""@;
    let suffix = "\")"@;
    if line.len() >= prefix.len() + suffix.len() && line.take(prefix.len() as int) == prefix
        && line.skip(line.len() - suffix.len()) == suffix {
        let inner = line.subrange(prefix.len() as int, line.len() - suffix.len());
        if inner.len() >= class.len() && inner.skip(inner.len() - class.len()) == class {
            Some(inner)
        } else {
            None
        }
    } else {
        None
    }
}

/// The plugins of an application, processed for the target platform.
pub struct Plugins<'a> {
    pub build: &'a Flutter<'a>,
    pub artifacts_emitter: &'a ArtifactsEmitter<'a>,
}

impl<'a> Plugins<'a> {
    /// The plugins of `build`, whose artifacts `artifacts_emitter` knows.
    pub fn new(build: &'a Flutter<'a>, artifacts_emitter: &'a ArtifactsEmitter<'a>) -> (r: Self)
        ensures
            r.build == build,
            r.artifacts_emitter == artifacts_emitter,
    {
        Plugins { build, artifacts_emitter }
    }

    /// The `name=path` entries of a `.flutter-plugins` file, in order; lines
    /// without `=` are skipped.
    pub fn plugin_entries(file: &str) -> (r: Vec<(String, String)>)
        ensures
            pair_views(r@) == entries_of(split_lines(file@)),
    {
        let chars = chars_of(file);
        let lines = split_at_newlines(&chars);
        let ghost ls = split_lines(file@);
        let mut r: Vec<(String, String)> = Vec::new();
        let mut i: usize = 0;
        while i < lines.len()
            invariant
                0 <= i <= lines@.len(),
                lines@.len() == ls.len(),
                forall|k: int| 0 <= k < lines@.len() ==> #[trigger] lines@[k]@ == ls[k],
                pair_views(r@) == entries_of(ls.take(i as int)),
            decreases lines@.len() - i,
        {
            proof {
                assert(ls.take(i + 1).drop_last() =~= ls.take(i as int));
            }
            let ghost before = r@;
            match line_entry_of(&lines[i]) {
                Some(e) => {
                    r.push(e);
                    proof {
                        assert(r@.drop_last() =~= before);
                    }
                },
                None => {
                    proof {
                        assert(entries_of(ls.take(i + 1)) =~= entries_of(ls.take(i as int)));
                    }
                },
            }
            i = i + 1;
        }
        proof {
            assert(ls.take(ls.len() as int) =~= ls);
        }
        r
    }

    /// The platforms that a plugin's `pubspec.yaml` document supports with
    /// code (see `counts`), by name, in order.
    pub fn platform_infos(doc: &YamlNode) -> (r: Vec<(String, PluginPlatformInfo)>)
        requires
            counted_keys_are_strings(platforms_of(node_value(*doc))),
        ensures
            r@.len() == counted_platforms(platforms_of(node_value(*doc))).len(),
            forall|i: int|
                0 <= i < r@.len() ==> {
                    let (k, v) = #[trigger] counted_platforms(platforms_of(node_value(*doc)))[i];
                    r@[i].0@ == k && r@[i].1.describes(k, v)
                },
    {
        let mut r: Vec<(String, PluginPlatformInfo)> = Vec::new();
        let platforms = match doc {
            YamlNode::Hash(top) => match hash_entry(top, "flutter") {
                Some(YamlNode::Hash(flutter)) => match hash_entry(flutter, "plugin") {
                    Some(YamlNode::Hash(plugin)) => match hash_entry(plugin, "platforms") {
                        Some(YamlNode::Hash(platforms)) => platforms,
                        _ => {
                            return r;
                        },
                    },
                    _ => {
                        return r;
                    },
                },
                _ => {
                    return r;
                },
            },
            _ => {
                return r;
            },
        };
        let ghost ps = pairs_value(platforms@);
        proof {
            lemma_pairs_value(platforms@);
        }
        let mut i: usize = 0;
        while i < platforms.len()
            invariant
                0 <= i <= platforms@.len(),
                ps == pairs_value(platforms@),
                ps == platforms_of(node_value(*doc)),
                ps.len() == platforms@.len(),
                forall|k: int| 0 <= k < platforms@.len() ==> #[trigger] ps[k] == (node_value(platforms@[k].0), node_value(platforms@[k].1)),
                counted_keys_are_strings(ps),
                r@.len() == counted_platforms(ps.take(i as int)).len(),
                forall|j: int|
                    0 <= j < r@.len() ==> {
                        let (k, v) = #[trigger] counted_platforms(ps.take(i as int))[j];
                        r@[j].0@ == k && r@[j].1.describes(k, v)
                    },
            decreases platforms@.len() - i,
        {
            proof {
                assert(ps.take(i + 1).drop_last() =~= ps.take(i as int));
            }
            let ghost before = r@;
            let value = &platforms[i].1;
            proof {
                assert(ps[i as int] == (node_value(platforms@[i as int].0), node_value(platforms@[i as int].1)));
                if counts(ps[i as int].1) {
                    assert(ps[i as int].0 is String);
                }
            }
            let entry = platform_entry(&platforms[i].0, value);
            match entry {
                Some(e) => {
                    r.push(e);
                },
                None => {},
            }
            proof {
                let prev = counted_platforms(ps.take(i as int));
                let now = counted_platforms(ps.take(i + 1));
                if r@.len() > before.len() {
                    assert(now =~= prev.push(now.last()));
                } else {
                    assert(now =~= prev);
                }
                assert forall|j: int| 0 <= j < r@.len() implies {
                    let (k, v) = #[trigger] now[j];
                    r@[j].0@ == k && r@[j].1.describes(k, v)
                } by {
                    if j < before.len() {
                        assert(now[j] == prev[j]);
                        assert(r@[j] == before[j]);
                    }
                }
            }
            i = i + 1;
        }
        proof {
            assert(ps.take(ps.len() as int) =~= ps);
        }
        r
    }

    /// The platforms that a plugin's `pubspec.yaml` text supports with code
    /// (see `platform_infos`), or the error reading the YAML; `None` when the
    /// text holds no document or a platform that counts is not named by a
    /// string.
    pub fn load_plugin_info(pub_spec: &str) -> (r: Option<BuildResult<Vec<(String, PluginPlatformInfo)>>>)
        ensures
            match r {
                Some(Ok(infos)) => yaml_documents(pub_spec@) matches Some(docs) && docs.len() > 0
                    && counted_keys_are_strings(platforms_of(docs[0])) && infos@.len()
                    == counted_platforms(platforms_of(docs[0])).len() && forall|i: int|
                    0 <= i < infos@.len() ==> {
                        let (k, v) = #[trigger] counted_platforms(platforms_of(docs[0]))[i];
                        infos@[i].0@ == k && infos@[i].1.describes(k, v)
                    },
                Some(Err(e)) => yaml_documents(pub_spec@) is None && e is YamlError,
                None => yaml_documents(pub_spec@) matches Some(docs) && (docs.len() == 0
                    || !counted_keys_are_strings(platforms_of(docs[0]))),
            },
    {
        match load_yaml(pub_spec) {
            Ok(docs) => {
                proof {
                    lemma_nodes_value(docs@);
                }
                if docs.len() == 0 || !platform_keys_valid(&docs[0]) {
                    return None;
                }
                Some(Ok(Self::platform_infos(&docs[0])))
            },
            Err(source) => Some(Err(BuildError::YamlError { source })),
        }
    }

    /// The name of the target platform in a plugin's `pubspec.yaml`.
    pub fn platform_name(&self) -> (r: &'static str)
        ensures
            r@ == platform_name_of(self.build.target_os),
    {
        match self.build.target_os {
            TargetOS::Mac => "macos",
            TargetOS::Windows => "windows",
            TargetOS::Linux => "linux",
        }
    }
}

/// The entries of `flutter.plugin.platforms` of a plugin's `pubspec.yaml`
/// document, when there is such a hash.
fn platforms_node(doc: &YamlNode) -> (r: Option<&Vec<(YamlNode, YamlNode)>>)
    ensures
        match r {
            Some(p) => pairs_value(p@) == platforms_of(node_value(*doc)),
            None => platforms_of(node_value(*doc)) == Seq::<(YamlValue, YamlValue)>::empty(),
        },
{
    match doc {
        YamlNode::Hash(top) => match hash_entry(top, "flutter") {
            Some(YamlNode::Hash(flutter)) => match hash_entry(flutter, "plugin") {
                Some(YamlNode::Hash(plugin)) => match hash_entry(plugin, "platforms") {
                    Some(YamlNode::Hash(platforms)) => Some(platforms),
                    _ => None,
                },
                _ => None,
            },
            _ => None,
        },
        _ => None,
    }
}

/// Whether a platform entry counts (see `counts`).
fn entry_counts(value: &YamlNode) -> (r: bool)
    ensures
        r == counts(node_value(*value)),
{
    match value {
        YamlNode::Hash(h) => match hash_entry(h, "pluginClass") {
            Some(YamlNode::String(c)) => !str_eq(c.as_str(), "none"),
            _ => match hash_entry(h, "ffiPlugin") {
                Some(YamlNode::Boolean(b)) => *b,
                _ => false,
            },
        },
        _ => false,
    }
}

/// Whether every platform entry that counts is named by a string (the
/// condition of `Plugins::platform_infos`).
pub fn platform_keys_valid(doc: &YamlNode) -> (r: bool)
    ensures
        r == counted_keys_are_strings(platforms_of(node_value(*doc))),
{
    let platforms = match platforms_node(doc) {
        Some(p) => p,
        None => {
            return true;
        },
    };
    let ghost ps = pairs_value(platforms@);
    proof {
        lemma_pairs_value(platforms@);
    }
    let mut i: usize = 0;
    while i < platforms.len()
        invariant
            0 <= i <= platforms@.len(),
            ps == pairs_value(platforms@),
            ps == platforms_of(node_value(*doc)),
            ps.len() == platforms@.len(),
            forall|k: int| 0 <= k < platforms@.len() ==> #[trigger] ps[k] == (node_value(platforms@[k].0), node_value(platforms@[k].1)),
            forall|k: int| 0 <= k < i && counts(#[trigger] ps[k].1) ==> ps[k].0 is String,
        decreases platforms@.len() - i,
    {
        if entry_counts(&platforms[i].1) {
            match &platforms[i].0 {
                YamlNode::String(_) => {},
                _ => {
                    proof {
                        assert(counts(ps[i as int].1));
                        assert(!(ps[i as int].0 is String));
                    }
                    return false;
                },
            }
        }
        proof {
            assert(ps[i as int] == (node_value(platforms@[i as int].0), node_value(platforms@[i as int].1)));
        }
        i = i + 1;
    }
    true
}

/// The info of one platform entry, when it counts.
fn platform_entry(key: &YamlNode, value: &YamlNode) -> (r: Option<(String, PluginPlatformInfo)>)
    requires
        counts(node_value(*value)) ==> *key is String,
    ensures
        match r {
            Some(e) => counts(node_value(*value)) && node_value(*key) == YamlValue::String(e.0@)
                && e.1.describes(e.0@, node_value(*value)),
            None => !counts(node_value(*value)),
        },
{
    let (class, ffi, shared) = match value {
        YamlNode::Hash(h) => {
            let class = match hash_entry(h, "pluginClass") {
                Some(YamlNode::String(c)) => Some(c.clone()),
                _ => None,
            };
            let ffi = match hash_entry(h, "ffiPlugin") {
                Some(YamlNode::Boolean(b)) => *b,
                _ => false,
            };
            let shared = match hash_entry(h, "sharedDarwinSource") {
                Some(YamlNode::Boolean(b)) => *b,
                _ => false,
            };
            (class, ffi, shared)
        },
        _ => (None, false, false),
    };
    let counted = match &class {
        Some(c) => !str_eq(c.as_str(), "none"),
        None => ffi,
    };
    if !counted {
        return None;
    }
    let name = match key {
        YamlNode::String(k) => k.clone(),
        _ => {
            return None;
        },
    };
    let directory = if (str_eq(name.as_str(), "ios") || str_eq(name.as_str(), "macos")) && shared {
        String::from_str("darwin")
    } else {
        name.clone()
    };
    Some((name, PluginPlatformInfo { plugin_class: class, platform_directory: directory }))
}

/// The lines that add each plugin's directory to the Linux build list.
pub open spec fn cmake_lines(names: Seq<Seq<char>>) -> Seq<char>
    decreases names.len(),
{
    if names.len() == 0 {
        Seq::empty()
    } else {
        cmake_lines(names.drop_last()) + "add_subdirectory(\"flutter/"@ + names.last() + "\")\n"@
    }
}

/// A file name that names a shared object: it ends with `.so`.
pub open spec fn shared_object_name(file: Seq<char>) -> bool {
    file.len() >= 3 && file.subrange(file.len() - 3, file.len() as int) == seq!['.', 's', 'o']
}

/// The platform-specific part of plugin processing.
pub struct PluginsImpl<'a> {
    pub build: &'a Flutter<'a>,
    pub artifacts_emitter: &'a ArtifactsEmitter<'a>,
}

impl<'a> PluginsImpl<'a> {
    /// The platform part of processing the plugins of `build`.
    pub fn new(build: &'a Flutter<'a>, artifacts_emitter: &'a ArtifactsEmitter<'a>) -> (r: Self)
        ensures
            r.build == build,
            r.artifacts_emitter == artifacts_emitter,
    {
        PluginsImpl { build, artifacts_emitter }
    }

    /// The Xcode configuration that pods are built in.
    pub fn pods_configuration(&self) -> (r: &'static str)
        ensures
            r@ == if self.build.build_mode@ == "debug"@ {
                "Debug"@
            } else {
                "Release"@
            },
    {
        if str_eq(self.build.build_mode.as_str(), "debug") {
            "Debug"
        } else {
            "Release"
        }
    }

    /// The build list of the Linux plugins: the template, then one
    /// `add_subdirectory("flutter/<name>")` line for each plugin, in order.
    pub fn cmake_list(template: &str, plugin_names: &Vec<String>) -> (r: String)
        ensures
            r@ == template@ + cmake_lines(views(plugin_names@)),
    {
        let mut r = template.to_string();
        let mut i: usize = 0;
        while i < plugin_names.len()
            invariant
                0 <= i <= plugin_names@.len(),
                r@ == template@ + cmake_lines(views(plugin_names@.take(i as int))),
            decreases plugin_names@.len() - i,
        {
            let ghost before = r@;
            r = r.concat("add_subdirectory(\"flutter/").concat(plugin_names[i].as_str()).concat(
                "\")\n",
            );
            i = i + 1;
            proof {
                let t = plugin_names@.take(i as int);
                assert(t.drop_last() =~= plugin_names@.take(i - 1));
                lemma_views(t);
                assert(views(t).drop_last() == views(t.drop_last()));
                assert(r@ =~= template@ + cmake_lines(views(t)));
            }
        }
        assert(plugin_names@.take(plugin_names@.len() as int) =~= plugin_names@);
        r
    }

    /// The library that a file built for a Linux plugin is linked by: for a
    /// shared object `lib<name>.so`, `<name>`; nothing for other files.
    pub fn link_name(file_name: &str) -> (r: Option<String>)
        requires
            shared_object_name(file_name@) ==> occurs_at(
                file_name@.subrange(0, file_name@.len() - 3),
                seq!['l', 'i', 'b'],
                0,
            ),
        ensures
            match r {
                Some(n) => shared_object_name(file_name@) && n@ == file_name@.subrange(
                    3,
                    file_name@.len() - 3,
                ),
                None => !shared_object_name(file_name@),
            },
    {
        let chars = chars_of(file_name);
        let n = chars.len();
        if n >= 3 && chars[n - 3] == '.' && chars[n - 2] == 's' && chars[n - 1] == 'o' {
            proof {
                assert(chars@.subrange(n - 3, n as int) =~= seq!['.', 's', 'o']);
            }
            let mut name: Vec<char> = Vec::new();
            let mut k: usize = 3;
            while k < n - 3
                invariant
                    3 <= k <= n - 3 || (k == 3 && n < 6),
                    n == chars@.len(),
                    n >= 3,
                    name@ == chars@.subrange(3, k as int),
                decreases n - k,
            {
                name.push(chars[k]);
                k = k + 1;
                proof {
                    assert(name@ =~= chars@.subrange(3, k as int));
                }
            }
            proof {
                let s = chars@.subrange(0, n - 3);
                assert(s.subrange(0, 3) == seq!['l', 'i', 'b']);
                assert(s.subrange(0, 3)[0] == chars@[0]);
                assert(n >= 6);
            }
            Some(string_from(name.as_slice()))
        } else {
            proof {
                if n >= 3 {
                    assert(chars@.subrange(n - 3, n as int)[0] == chars@[n - 3]);
                    assert(chars@.subrange(n - 3, n as int)[1] == chars@[n - 2]);
                    assert(chars@.subrange(n - 3, n as int)[2] == chars@[n - 1]);
                }
            }
            None
        }
    }

    /// The generated Linux registrar source for plugins with the given classes.
    pub fn linux_registrar_source(classes: &Vec<String>) -> (r: String)
        ensures
            r@ == linux_registrar(views(classes@)),
    {
        let ghost cs = views(classes@);
        proof {
            lemma_views(classes@);
        }
        let mut declarations = String::new();
        let mut entries = String::new();
        let mut i: usize = 0;
        while i < classes.len()
            invariant
                0 <= i <= classes@.len(),
                cs == views(classes@),
                cs.len() == classes@.len(),
                forall|k: int| 0 <= k < classes@.len() ==> #[trigger] cs[k] == classes@[k]@,
                declarations@ == linux_declarations(cs.take(i as int)),
                entries@ == linux_entries(cs.take(i as int)),
            decreases classes@.len() - i,
        {
            proof {
                assert(cs.take(i + 1).drop_last() =~= cs.take(i as int));
            }
            let class = classes[i].as_str();
            let snake = snake_case(class);
            declarations.append("  extern \"C\" { pub fn ");
            declarations.append(snake.as_str());
            declarations.append("_register_with_registrar(registrar: *mut std::os::raw::c_void); }\n");
            entries.append("    nativeshell::shell::platform::engine::PlatformPlugin { name: \"");
            entries.append(class);
            entries.append("\".into(), register_func: Some(");
            entries.append(snake.as_str());
            entries.append("_register_with_registrar) },\n");
            i = i + 1;
        }
        proof {
            assert(cs.take(cs.len() as int) =~= cs);
        }
        let mut r = String::from_str(
            "fn flutter_get_plugins() -> Vec<nativeshell::shell::platform::engine::PlatformPlugin> {\n",
        );
        r.append(declarations.as_str());
        r.append("  vec![\n");
        r.append(entries.as_str());
        r.append("  ]\n");
        r.append("}\n");
        r
    }

    /// The generated macOS registrar source for the given (plugin class,
    /// Objective-C class) pairs.
    pub fn macos_registrar_source(classes: &Vec<(String, String)>) -> (r: String)
        ensures
            r@ == macos_registrar(pair_views(classes@)),
    {
        let ghost cs = pair_views(classes@);
        proof {
            lemma_pair_views(classes@);
        }
        let mut entries = String::new();
        let mut i: usize = 0;
        while i < classes.len()
            invariant
                0 <= i <= classes@.len(),
                cs == pair_views(classes@),
                cs.len() == classes@.len(),
                forall|k: int| 0 <= k < classes@.len() ==> #[trigger] cs[k] == (classes@[k].0@, classes@[k].1@),
                entries@ == macos_entries(cs.take(i as int)),
            decreases classes@.len() - i,
        {
            proof {
                assert(cs.take(i + 1).drop_last() =~= cs.take(i as int));
            }
            entries.append("    nativeshell::shell::platform::engine::PlatformPlugin { name: \"");
            entries.append(classes[i].0.as_str());
            entries.append("\".into(), class:\"");
            entries.append(classes[i].1.as_str());
            entries.append("\".into() },\n");
            i = i + 1;
        }
        proof {
            assert(cs.take(cs.len() as int) =~= cs);
        }
        let mut r = String::from_str(
            "fn flutter_get_plugins() -> Vec<nativeshell::shell::platform::engine::PlatformPlugin> {\n",
        );
        r.append("  vec![\n");
        r.append(entries.as_str());
        r.append("  ]\n");
        r.append("}\n");
        r
    }

    /// The Objective-C name of a Swift plugin class, read from one line of the
    /// plugin's `-Swift.h` header (see `swift_class_of`).
    pub fn swift_class_name(line: &str, class: &str) -> (r: Option<String>)
        ensures
            match r {
                Some(s) => swift_class_of(line@, class@) == Some(s@),
                None => swift_class_of(line@, class@) is None,
            },
    {
        let l = chars_of(line);
        let c = chars_of(class);
        let prefix = chars_of("SWIFT_CLASS(\"");
        let suffix = chars_of("\")");
        let plen = prefix.len();
        let slen = suffix.len();
        if l.len() < plen || l.len() - plen < slen {
            return None;
        }
        if !same_at(&l, &prefix, 0) || !same_at(&l, &suffix, l.len() - slen) {
            proof {
                assert(l@.take(plen as int) =~= l@.subrange(0, plen as int));
                assert(l@.skip(l@.len() - slen) =~= l@.subrange(l@.len() - slen, l@.len() as int));
            }
            return None;
        }
        proof {
            assert(l@.take(plen as int) =~= l@.subrange(0, plen as int));
            assert(l@.skip(l@.len() - slen) =~= l@.subrange(l@.len() - slen, l@.len() as int));
        }
        let end = l.len() - slen;
        let mut inner: Vec<char> = Vec::new();
        let mut i: usize = plen;
        while i < end
            invariant
                plen <= i <= end,
                end <= l@.len(),
                inner@ == l@.subrange(plen as int, i as int),
            decreases end - i,
        {
            inner.push(l[i]);
            i = i + 1;
            proof {
                assert(inner@ =~= l@.subrange(plen as int, i as int));
            }
        }
        if inner.len() < c.len() {
            return None;
        }
        let start = inner.len() - c.len();
        if !same_at(&inner, &c, start) {
            proof {
                assert(inner@.skip(start as int) =~= inner@.subrange(start as int, inner@.len() as int));
            }
            return None;
        }
        proof {
            assert(inner@.skip(start as int) =~= inner@.subrange(start as int, inner@.len() as int));
        }
        Some(string_from(inner.as_slice()))
    }
}

/// Whether `pat` stands in `s` at position `at`.
fn same_at(s: &Vec<char>, pat: &Vec<char>, at: usize) -> (r: bool)
    requires
        at + pat@.len() <= s@.len(),
    ensures
        r == (s@.subrange(at as int, at + pat@.len()) == pat@),
{
    let mut k: usize = 0;
    let n: usize = s.len();
    while k < pat.len()
        invariant
            0 <= k <= pat@.len(),
            at + pat@.len() <= s@.len(),
            n == s@.len(),
            forall|j: int| 0 <= j < k ==> s@[at + j] == pat@[j],
        decreases pat@.len() - k,
    {
        if s[at + k] != pat[k] {
            assert(s@.subrange(at as int, at + pat@.len())[k as int] != pat@[k as int]);
            return false;
        }
        k = k + 1;
    }
    assert(s@.subrange(at as int, at + pat@.len()) =~= pat@);
    true
}

proof fn lemma_pair_views(v: Seq<(String, String)>)
    ensures
        pair_views(v).len() == v.len(),
        forall|i: int| 0 <= i < v.len() ==> #[trigger] pair_views(v)[i] == (v[i].0@, v[i].1@),
    decreases v.len(),
{
    if v.len() > 0 {
        lemma_pair_views(v.drop_last());
    }
}

proof fn lemma_first_index(s: Seq<char>, c: char)
    ensures
        first_index(s, c) matches Some(k) ==> 0 <= k < s.len() && s[k] == c && forall|j: int|
            0 <= j < k ==> s[j] != c,
        first_index(s, c) is None ==> forall|j: int| 0 <= j < s.len() ==> s[j] != c,
    decreases s.len(),
{
    if s.len() > 0 {
        lemma_first_index(s.drop_first(), c);
        if s[0] != c {
            assert forall|j: int| 1 <= j < s.len() implies s[j] == s.drop_first()[j - 1] by {}
        }
    }
}

/// An entry of the plugins file gives back its line when joined with `=`,
/// and its name holds no `=`.
pub proof fn lemma_entry_rejoins(line: Seq<char>)
    ensures
        line_entry(line) matches Some((name, path)) ==> name + seq!['='] + path == line && !name.contains(
            '=',
        ),
{
    lemma_first_index(line, '=');
    if let Some(k) = first_index(line, '=') {
        assert(line.take(k) + seq!['='] + line.skip(k + 1) =~= line);
        assert(!line.take(k).contains('=')) by {
            if line.take(k).contains('=') {
                let j = choose|j: int| 0 <= j < line.take(k).len() && line.take(k)[j] == '=';
                assert(line[j] == '=');
            }
        }
    }
}

} // verus!
