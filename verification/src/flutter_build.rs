//! Decisions of the Flutter build: the target platform and build mode, the
//! arguments of `flutter assemble`, the assets listed in `pubspec.yaml`, and
//! the rewriting of package paths.
use crate::base64_codec::{base64_encoded, encode};
use crate::build_error::{BuildError, BuildResult};
use crate::text::{chars_of, join, joined, occurs_at, starts_with, str_eq, views};
use crate::yaml::{
    hash_entry, hash_get, lemma_nodes_value, load_yaml, node_value, nodes_value, value_index,
    yaml_documents, YamlNode, YamlValue,
};
use vstd::prelude::*;
use vstd::string::StringExecFns;
use vstd::string::StringSliceAdditionalSpecFns;

verus! {

/// Options of the Flutter build, chosen by the application's build script.
pub struct FlutterOptions<'a> {
    /// Project root, relative to the directory of the crate's Cargo.toml.
    pub project_root: Option<&'a str>,
    /// Entry point, relative to the project root.
    pub target_file: &'a str,
    /// Where Flutter is installed, when it is not found on `PATH`.
    pub flutter_path: Option<&'a str>,
    /// Name of a local engine build to use.
    pub local_engine: Option<&'a str>,
    /// Source path of that local engine.
    pub local_engine_src_path: Option<&'a str>,
    /// `key=value` pairs for the `fromEnvironment` constructors of Dart.
    pub dart_defines: &'a [&'a str],
    /// Extra pods to build on macOS.
    pub macos_extra_pods: &'a [&'a str],
}

impl Default for FlutterOptions<'_> {
    fn default() -> (r: Self)
        ensures
            r.project_root is None,
            r.target_file@ == "lib/main.dart"@,
            r.flutter_path is None,
            r.local_engine is None,
            r.local_engine_src_path is None,
            r.dart_defines@.len() == 0,
            r.macos_extra_pods@.len() == 0,
    {
        FlutterOptions {
            project_root: None,
            target_file: "lib/main.dart",
            flutter_path: None,
            local_engine: None,
            local_engine_src_path: None,
            dart_defines: &[],
            macos_extra_pods: &[],
        }
    }
}

/// The operating system that the application is built for.
#[derive(Clone, Copy, PartialEq, Eq, Structural, Debug)]
pub enum TargetOS {
    Mac,
    Windows,
    Linux,
}

/// The operating system named `name` (as Cargo names it), if it is supported.
pub open spec fn target_os_named(name: Seq<char>) -> Option<TargetOS> {
    if name == "macos"@ {
        Some(TargetOS::Mac)
    } else if name == "windows"@ {
        Some(TargetOS::Windows)
    } else if name == "linux"@ {
        Some(TargetOS::Linux)
    } else {
        None
    }
}

/// Flutter's name of the architecture that Cargo names `arch`, if it is supported.
pub open spec fn flutter_arch(arch: Seq<char>) -> Option<Seq<char>> {
    if arch == "x86_64"@ {
        Some("x64"@)
    } else if arch == "aarch64"@ {
        Some("arm64"@)
    } else {
        None
    }
}

/// Flutter's target platform: `darwin` on macOS, else the system and the
/// architecture joined by a hyphen.
pub open spec fn target_platform_of(os: TargetOS, arch: Seq<char>) -> Seq<char> {
    match os {
        TargetOS::Mac => "darwin"@,
        TargetOS::Windows => "windows-"@ + flutter_arch(arch)->0,
        TargetOS::Linux => "linux-"@ + flutter_arch(arch)->0,
    }
}

/// The architecture of a macOS build, as Xcode names it; nothing for other systems.
pub open spec fn darwin_arch_of(os: TargetOS, arch: Seq<char>) -> Option<Seq<char>> {
    match os {
        TargetOS::Mac => Some(if arch == "x86_64"@ { "x86_64"@ } else { "arm64"@ }),
        _ => None,
    }
}

/// The `flutter assemble` targets for a build.
pub open spec fn assemble_actions_of(os: TargetOS, build_mode: Seq<char>, target_platform: Seq<char>) -> Seq<
    Seq<char>,
> {
    match os {
        TargetOS::Mac => seq![build_mode + "_macos_bundle_flutter_assets"@],
        TargetOS::Windows => if build_mode == "debug"@ {
            seq!["kernel_snapshot"@, "copy_assets"@]
        } else {
            seq![build_mode + "_bundle_windows_assets"@]
        },
        TargetOS::Linux => if build_mode == "debug"@ {
            seq!["kernel_snapshot"@, "copy_assets"@]
        } else {
            seq![build_mode + "_bundle_"@ + target_platform + "_assets"@]
        },
    }
}

/// The strings among `v`, in order.
pub open spec fn strings_in(v: Seq<YamlValue>) -> Seq<Seq<char>>
    decreases v.len(),
{
    if v.len() == 0 {
        Seq::empty()
    } else {
        strings_in(v.drop_last()) + match v.last() {
            YamlValue::String(s) => seq![s],
            _ => Seq::empty(),
        }
    }
}

/// The `asset` of each font file entry that has one, in order.
pub open spec fn font_file_assets(v: Seq<YamlValue>) -> Seq<Seq<char>>
    decreases v.len(),
{
    if v.len() == 0 {
        Seq::empty()
    } else {
        font_file_assets(v.drop_last()) + match v.last() {
            YamlValue::Hash(h) => match hash_get(h, "asset"@) {
                Some(YamlValue::String(s)) => seq![s],
                _ => Seq::empty(),
            },
            _ => Seq::empty(),
        }
    }
}

/// The assets of each font family's `fonts` list, in order.
pub open spec fn font_family_assets(v: Seq<YamlValue>) -> Seq<Seq<char>>
    decreases v.len(),
{
    if v.len() == 0 {
        Seq::empty()
    } else {
        font_family_assets(v.drop_last()) + match v.last() {
            YamlValue::Hash(h) => match hash_get(h, "fonts"@) {
                Some(YamlValue::Array(files)) => font_file_assets(files),
                _ => Seq::empty(),
            },
            _ => Seq::empty(),
        }
    }
}

/// The assets that a `pubspec.yaml` document lists: the strings of
/// `flutter.assets`, then the `asset` of every file of every family of
/// `flutter.fonts`.
pub open spec fn pubspec_assets(doc: YamlValue) -> Seq<Seq<char>> {
    match doc {
        YamlValue::Hash(h) => match hash_get(h, "flutter"@) {
            Some(YamlValue::Hash(flutter)) => (match hash_get(flutter, "assets"@) {
                Some(YamlValue::Array(a)) => strings_in(a),
                _ => Seq::empty(),
            }) + (match hash_get(flutter, "fonts"@) {
                Some(YamlValue::Array(f)) => font_family_assets(f),
                _ => Seq::empty(),
            }),
            _ => Seq::empty(),
        },
        _ => Seq::empty(),
    }
}

/// The fonts of a pubspec are listed whatever its assets list holds: when
/// the `flutter` hash has a `fonts` list, the assets end with the font files
/// of its families; they start with the strings of the `assets` list when
/// there is one, and are the font files alone when there is none.
pub proof fn lemma_fonts_always_listed(
    top: Seq<(YamlValue, YamlValue)>,
    flutter: Seq<(YamlValue, YamlValue)>,
    fonts: Seq<YamlValue>,
)
    requires
        hash_get(top, "flutter"@) == Some(YamlValue::Hash(flutter)),
        hash_get(flutter, "fonts"@) == Some(YamlValue::Array(fonts)),
    ensures
        ({
            let all = pubspec_assets(YamlValue::Hash(top));
            let files = font_family_assets(fonts);
            &&& all.len() >= files.len()
            &&& all.skip(all.len() - files.len()) == files
            &&& !(hash_get(flutter, "assets"@) matches Some(YamlValue::Array(_))) ==> all == files
            &&& forall|a: Seq<YamlValue>|
                hash_get(flutter, "assets"@) == Some(YamlValue::Array(a)) ==> all == strings_in(a)
                    + files
        }),
{
    let all = pubspec_assets(YamlValue::Hash(top));
    let files = font_family_assets(fonts);
    let first = match hash_get(flutter, "assets"@) {
        Some(YamlValue::Array(a)) => strings_in(a),
        _ => Seq::empty(),
    };
    assert(all == first + files);
    assert(all.skip(all.len() - files.len()) =~= files);
    if !(hash_get(flutter, "assets"@) matches Some(YamlValue::Array(_))) {
        assert(all =~= files);
    }
}

/// The assets list of a pubspec is listed whatever its fonts entry holds:
/// without a `fonts` list the assets are the strings of the `assets` list;
/// a document whose `flutter` entry is no hash lists no assets.
pub proof fn lemma_assets_listed_without_fonts(doc: YamlValue, a: Seq<YamlValue>)
    ensures
        forall|top: Seq<(YamlValue, YamlValue)>, flutter: Seq<(YamlValue, YamlValue)>|
            doc == YamlValue::Hash(top) && hash_get(top, "flutter"@) == Some(YamlValue::Hash(flutter))
                && hash_get(flutter, "assets"@) == Some(YamlValue::Array(a)) && !(hash_get(
                flutter,
                "fonts"@,
            ) matches Some(YamlValue::Array(_))) ==> pubspec_assets(doc) == strings_in(a),
        !(doc matches YamlValue::Hash(_)) ==> pubspec_assets(doc).len() == 0,
        forall|top: Seq<(YamlValue, YamlValue)>|
            doc == YamlValue::Hash(top) && !(hash_get(top, "flutter"@) matches Some(YamlValue::Hash(_)))
                ==> pubspec_assets(doc).len() == 0,
{
    assert forall|top: Seq<(YamlValue, YamlValue)>, flutter: Seq<(YamlValue, YamlValue)>|
        doc == YamlValue::Hash(top) && hash_get(top, "flutter"@) == Some(YamlValue::Hash(flutter))
            && hash_get(flutter, "assets"@) == Some(YamlValue::Array(a)) && !(hash_get(
            flutter,
            "fonts"@,
        ) matches Some(YamlValue::Array(_))) implies pubspec_assets(doc) == strings_in(a) by {
        assert(pubspec_assets(doc) =~= strings_in(a) + Seq::<Seq<char>>::empty());
    }
}

/// The strings of a list that holds only strings are the list's strings, in order.
pub proof fn lemma_strings_in_all_strings(v: Seq<YamlValue>)
    requires
        forall|i: int| 0 <= i < v.len() ==> #[trigger] v[i] matches YamlValue::String(_),
    ensures
        strings_in(v).len() == v.len(),
        forall|i: int| 0 <= i < v.len() ==> v[i] == YamlValue::String(#[trigger] strings_in(v)[i]),
    decreases v.len(),
{
    if v.len() > 0 {
        lemma_strings_in_all_strings(v.drop_last());
        let p = v.drop_last();
        assert forall|i: int| 0 <= i < v.len() implies v[i] == YamlValue::String(
            #[trigger] strings_in(v)[i],
        ) by {
            if i < v.len() - 1 {
                assert(p[i] == v[i]);
            }
        }
    }
}

/// The font files of two lists of families one after the other are those of
/// the first list, then those of the second; a family lists the `asset` of
/// each of its files, and a file the string under its `asset` key.
pub proof fn lemma_font_assets_compose(
    a: Seq<YamlValue>,
    b: Seq<YamlValue>,
    family: Seq<(YamlValue, YamlValue)>,
    file: Seq<(YamlValue, YamlValue)>,
)
    ensures
        font_family_assets(a + b) == font_family_assets(a) + font_family_assets(b),
        font_file_assets(a + b) == font_file_assets(a) + font_file_assets(b),
        forall|files: Seq<YamlValue>|
            hash_get(family, "fonts"@) == Some(YamlValue::Array(files)) ==> font_family_assets(
                seq![YamlValue::Hash(family)],
            ) == font_file_assets(files),
        forall|s: Seq<char>|
            hash_get(file, "asset"@) == Some(YamlValue::String(s)) ==> font_file_assets(
                seq![YamlValue::Hash(file)],
            ) == seq![s],
    decreases b.len(),
{
    let one = seq![YamlValue::Hash(family)];
    assert(one.drop_last() =~= Seq::<YamlValue>::empty());
    assert(one.last() == YamlValue::Hash(family));
    assert(font_family_assets(one.drop_last()) =~= Seq::<Seq<char>>::empty());
    let one_file = seq![YamlValue::Hash(file)];
    assert(one_file.drop_last() =~= Seq::<YamlValue>::empty());
    assert(one_file.last() == YamlValue::Hash(file));
    assert(font_file_assets(one_file.drop_last()) =~= Seq::<Seq<char>>::empty());
    assert forall|files: Seq<YamlValue>|
        hash_get(family, "fonts"@) == Some(YamlValue::Array(files)) implies font_family_assets(one)
        == font_file_assets(files) by {
        assert(font_family_assets(one) =~= Seq::<Seq<char>>::empty() + font_file_assets(files));
    }
    assert forall|s: Seq<char>|
        hash_get(file, "asset"@) == Some(YamlValue::String(s)) implies font_file_assets(one_file)
        == seq![s] by {
        assert(font_file_assets(one_file) =~= Seq::<Seq<char>>::empty() + seq![s]);
    }
    if b.len() == 0 {
        assert(a + b =~= a);
        assert(font_family_assets(a) + font_family_assets(b) =~= font_family_assets(a));
        assert(font_file_assets(a) + font_file_assets(b) =~= font_file_assets(a));
    } else {
        lemma_font_assets_compose(a, b.drop_last(), family, file);
        assert((a + b).drop_last() =~= a + b.drop_last());
        assert((a + b).last() == b.last());
        assert(font_family_assets(a + b) =~= font_family_assets(a) + font_family_assets(b));
        assert(font_file_assets(a + b) =~= font_file_assets(a) + font_file_assets(b));
    }
}

/// `s` as a `file://` URI: a slash is put in front when `s` has none.
pub open spec fn file_uri_of(s: Seq<char>) -> Seq<char> {
    if s.len() > 0 && s[0] == '/' {
        "file://"@ + s
    } else {
        "file://"@ + "/"@ + s
    }
}

/// The first segment of an asset path: everything before the first `/`.
pub open spec fn first_segment(asset: Seq<char>) -> Seq<char>
    decreases asset.len(),
{
    if asset.len() == 0 {
        Seq::empty()
    } else if asset[0] == '/' {
        Seq::empty()
    } else {
        seq![asset[0]] + first_segment(asset.drop_first())
    }
}

/// The `--DartDefines` argument: each define in base64, joined by commas.
pub open spec fn dart_defines_arg_of(encoded: Seq<Seq<char>>) -> Seq<char> {
    "--DartDefines="@ + joined(encoded, ","@)
}

/// Each define in base64.
pub open spec fn encoded_defines(defines: Seq<&str>) -> Seq<Seq<char>> {
    Seq::new(defines.len(), |i: int| base64_encoded(defines[i].spec_bytes()))
}

/// The arguments that select a local engine build, when one is named: its
/// name, then its source path (in slash form).
pub open spec fn local_engine_args(local_engine: Option<&str>, src_slash: Option<&str>) -> Seq<
    Seq<char>,
> {
    match local_engine {
        None => Seq::empty(),
        Some(e) => seq!["--local-engine="@ + e@, "--local-engine-src-path="@ + src_slash->0@],
    }
}

/// The settings of a Flutter build.
pub struct Flutter<'a> {
    pub root_dir: String,
    pub out_dir: String,
    pub options: FlutterOptions<'a>,
    pub build_mode: String,
    pub target_os: TargetOS,
    pub target_platform: String,
    pub darwin_arch: Option<String>,
}

fn string_of(s: &str) -> (r: String)
    ensures
        r@ == s@,
{
    String::from_str(s)
}

impl<'a> Flutter<'a> {
    /// The settings of a build in `root_dir` with output in `out_dir`, for
    /// the system Cargo names `target_os` and the architecture it names
    /// `arch`, in the given build mode.
    pub fn new(
        root_dir: String,
        out_dir: String,
        options: FlutterOptions<'a>,
        build_mode: String,
        target_os: TargetOS,
        arch: &str,
    ) -> (r: Self)
        requires
            flutter_arch(arch@) is Some,
        ensures
            r.root_dir == root_dir,
            r.out_dir == out_dir,
            r.build_mode == build_mode,
            r.target_os == target_os,
            r.target_platform@ == target_platform_of(target_os, arch@),
            match r.darwin_arch {
                Some(s) => darwin_arch_of(target_os, arch@) == Some(s@),
                None => darwin_arch_of(target_os, arch@) is None,
            },
    {
        let target_platform = Self::target_platform(target_os, arch);
        let darwin_arch = Self::darwin_arch(target_os, arch);
        Flutter { root_dir, out_dir, options, build_mode, target_os, target_platform, darwin_arch }
    }

    /// The system that Cargo names `name`, if it is supported (the build
    /// stops with a panic otherwise).
    pub fn target_os(name: &str) -> (r: Option<TargetOS>)
        ensures
            r == target_os_named(name@),
    {
        if str_eq(name, "macos") {
            Some(TargetOS::Mac)
        } else if str_eq(name, "windows") {
            Some(TargetOS::Windows)
        } else if str_eq(name, "linux") {
            Some(TargetOS::Linux)
        } else {
            None
        }
    }

    fn arch(arch: &str) -> (r: &'static str)
        requires
            flutter_arch(arch@) is Some,
        ensures
            r@ == flutter_arch(arch@)->0,
    {
        if str_eq(arch, "x86_64") {
            "x64"
        } else {
            "arm64"
        }
    }

    /// Flutter's target platform for the system and the architecture that
    /// Cargo names `arch`.
    pub fn target_platform(os: TargetOS, arch: &str) -> (r: String)
        requires
            flutter_arch(arch@) is Some,
        ensures
            r@ == target_platform_of(os, arch@),
    {
        let a = Self::arch(arch);
        match os {
            TargetOS::Mac => string_of("darwin"),
            TargetOS::Windows => string_of("windows-").concat(a),
            TargetOS::Linux => string_of("linux-").concat(a),
        }
    }

    /// The architecture of a macOS build, as Xcode names it; nothing for other systems.
    pub fn darwin_arch(os: TargetOS, arch: &str) -> (r: Option<String>)
        requires
            flutter_arch(arch@) is Some,
        ensures
            match r {
                Some(s) => darwin_arch_of(os, arch@) == Some(s@),
                None => darwin_arch_of(os, arch@) is None,
            },
    {
        match os {
            TargetOS::Mac => if str_eq(arch, "x86_64") {
                Some(string_of("x86_64"))
            } else {
                Some(string_of("arm64"))
            },
            _ => None,
        }
    }

    /// The build mode: Cargo's profile, or `profile` when `FLUTTER_PROFILE`
    /// is `true` or `1` (allowed for release builds only).
    pub fn build_mode(cargo_profile: &str, flutter_profile: Option<&str>) -> (r: String)
        requires
            (flutter_profile matches Some(p) && (p@ == "true"@ || p@ == "1"@)) ==> cargo_profile@
                == "release"@,
        ensures
            r@ == if flutter_profile matches Some(p) && (p@ == "true"@ || p@ == "1"@) {
                "profile"@
            } else {
                cargo_profile@
            },
    {
        let profile = match flutter_profile {
            Some(p) => str_eq(p, "true") || str_eq(p, "1"),
            None => false,
        };
        if profile {
            string_of("profile")
        } else {
            string_of(cargo_profile)
        }
    }

    /// The macOS version to build for: `MACOSX_DEPLOYMENT_TARGET` or 10.13
    /// (for macOS builds only).
    pub fn macosx_deployment_target(os: TargetOS, configured: Option<&str>) -> (r: String)
        requires
            os == TargetOS::Mac,
        ensures
            r@ == match configured {
                Some(c) => c@,
                None => "10.13"@,
            },
    {
        match configured {
            Some(c) => string_of(c),
            None => string_of("10.13"),
        }
    }

    /// The `flutter assemble` targets of this build.
    pub fn assemble_actions(&self) -> (r: Vec<String>)
        ensures
            views(r@) == assemble_actions_of(self.target_os, self.build_mode@, self.target_platform@),
    {
        let mut r: Vec<String> = Vec::new();
        let debug = str_eq(self.build_mode.as_str(), "debug");
        match self.target_os {
            TargetOS::Mac => {
                r.push(self.build_mode.clone().concat("_macos_bundle_flutter_assets"));
            },
            TargetOS::Windows => {
                if debug {
                    r.push(string_of("kernel_snapshot"));
                    r.push(string_of("copy_assets"));
                } else {
                    r.push(self.build_mode.clone().concat("_bundle_windows_assets"));
                }
            },
            TargetOS::Linux => {
                if debug {
                    r.push(string_of("kernel_snapshot"));
                    r.push(string_of("copy_assets"));
                } else {
                    r.push(
                        self.build_mode.clone().concat("_bundle_").concat(
                            self.target_platform.as_str(),
                        ).concat("_assets"),
                    );
                }
            },
        }
        proof {
            assert(views(r@) =~= assemble_actions_of(
                self.target_os,
                self.build_mode@,
                self.target_platform@,
            )) by {
                reveal_with_fuel(views, 3);
            }
        }
        r
    }

    /// The `--DartDefines` argument of `flutter assemble`: every define of the
    /// options in base64, joined by commas.
    pub fn dart_defines_arg(&self) -> (r: String)
        ensures
            r@ == dart_defines_arg_of(encoded_defines(self.options.dart_defines@)),
    {
        let defines = self.options.dart_defines;
        let mut encoded: Vec<String> = Vec::new();
        let mut i: usize = 0;
        while i < defines.len()
            invariant
                0 <= i <= defines@.len(),
                encoded@.len() == i,
                forall|k: int| 0 <= k < i ==> #[trigger] encoded@[k]@ == base64_encoded(
                    defines@[k].spec_bytes(),
                ),
            decreases defines@.len() - i,
        {
            encoded.push(encode(defines[i].as_bytes()));
            i = i + 1;
        }
        let r = string_of("--DartDefines=").concat(join(&encoded, ",").as_str());
        proof {
            crate::text::lemma_views(encoded@);
            let e = views(encoded@);
            assert(forall|k: int| 0 <= k < e.len() ==> #[trigger] e[k] == base64_encoded(
                defines@[k].spec_bytes(),
            ));
            assert(r@ == dart_defines_arg_of(e));
            assert(e =~= encoded_defines(self.options.dart_defines@));
        }
        r
    }

    /// The arguments of `flutter assemble` for this build: the local engine
    /// options, then `assemble` into the working directory with the build
    /// mode, target platform, Darwin architectures (empty when there are
    /// none) and entry point `target_file` as defines, the Dart defines,
    /// verbose output without analytics, and the targets.
    /// `local_engine_src_slash` is the local engine's source path in slash
    /// form, as the options give it or as found next to the Flutter install,
    /// whenever a local engine is named; `target_file` is the entry point as
    /// seen from the directory the command runs in.
    pub fn assemble_arguments(&self, local_engine_src_slash: Option<&str>, target_file: &str) -> (args:
        Vec<String>)
        requires
            self.options.local_engine is Some ==> local_engine_src_slash is Some,
        ensures
            views(args@) == local_engine_args(self.options.local_engine, local_engine_src_slash)
                + seq![
                "assemble"@,
                "--output=."@,
                "--define=BuildMode="@ + self.build_mode@,
                "--define=TargetPlatform="@ + self.target_platform@,
                "--define=DarwinArchs="@ + match self.darwin_arch {
                    Some(a) => a@,
                    None => Seq::<char>::empty(),
                },
                "--define=TargetFile="@ + target_file@,
                dart_defines_arg_of(encoded_defines(self.options.dart_defines@)),
                "-v"@,
                "--suppress-analytics"@,
            ] + assemble_actions_of(self.target_os, self.build_mode@, self.target_platform@),
    {
        let mut args: Vec<String> = Vec::new();
        if let Some(local_engine) = self.options.local_engine {
            args.push(string_of("--local-engine=").concat(local_engine));
            if let Some(src) = local_engine_src_slash {
                args.push(string_of("--local-engine-src-path=").concat(src));
            }
        }
        let ghost engine_args = views(args@);
        proof {
            crate::text::lemma_views(args@);
            assert(engine_args =~= local_engine_args(self.options.local_engine, local_engine_src_slash));
        }
        let darwin = match &self.darwin_arch {
            Some(a) => a.clone(),
            None => String::new(),
        };
        let fixed: Vec<String> = vec![
            string_of("assemble"),
            string_of("--output=."),
            string_of("--define=BuildMode=").concat(self.build_mode.as_str()),
            string_of("--define=TargetPlatform=").concat(self.target_platform.as_str()),
            string_of("--define=DarwinArchs=").concat(darwin.as_str()),
            string_of("--define=TargetFile=").concat(target_file),
            self.dart_defines_arg(),
            string_of("-v"),
            string_of("--suppress-analytics"),
        ];
        let actions = self.assemble_actions();
        proof {
            crate::text::lemma_views(fixed@);
        }
        let ghost fixed_views = views(fixed@);
        append_strings(&mut args, fixed);
        append_strings(&mut args, actions);
        proof {
            assert(fixed_views =~= seq![
                "assemble"@,
                "--output=."@,
                "--define=BuildMode="@ + self.build_mode@,
                "--define=TargetPlatform="@ + self.target_platform@,
                "--define=DarwinArchs="@ + match self.darwin_arch {
                    Some(a) => a@,
                    None => Seq::<char>::empty(),
                },
                "--define=TargetFile="@ + target_file@,
                dart_defines_arg_of(encoded_defines(self.options.dart_defines@)),
                "-v"@,
                "--suppress-analytics"@,
            ]);
        }
        args
    }

    /// The assets listed by the `pubspec.yaml` text `pub_spec` (see
    /// `pubspec_assets`); an error when the text is not valid YAML.
    pub fn extract_assets(pub_spec: &str) -> (r: BuildResult<Vec<String>>)
        requires
            yaml_documents(pub_spec@) matches Some(docs) ==> docs.len() > 0,
        ensures
            match r {
                Ok(assets) => yaml_documents(pub_spec@) matches Some(docs) && views(assets@)
                    == pubspec_assets(docs[0]),
                Err(e) => yaml_documents(pub_spec@) is None && e is YamlError,
            },
    {
        match load_yaml(pub_spec) {
            Ok(docs) => {
                proof {
                    lemma_nodes_value(docs@);
                }
                Ok(assets_of_document(&docs[0]))
            },
            Err(source) => Err(BuildError::YamlError { source }),
        }
    }

    /// As `extract_assets`, for any text: `None` when the text holds no
    /// YAML document.
    pub fn try_extract_assets(pub_spec: &str) -> (r: Option<BuildResult<Vec<String>>>)
        ensures
            match r {
                Some(Ok(assets)) => yaml_documents(pub_spec@) matches Some(docs) && docs.len() > 0
                    && views(assets@) == pubspec_assets(docs[0]),
                Some(Err(e)) => yaml_documents(pub_spec@) is None && e is YamlError,
                None => yaml_documents(pub_spec@) matches Some(docs) && docs.len() == 0,
            },
    {
        match load_yaml(pub_spec) {
            Ok(docs) => {
                proof {
                    lemma_nodes_value(docs@);
                }
                if docs.len() == 0 {
                    return None;
                }
            },
            Err(_) => {},
        }
        Some(Self::extract_assets(pub_spec))
    }

    /// The directory or file to link for an asset: its first path segment,
    /// unless the asset belongs to a package.
    pub fn asset_link_root(asset: &str) -> (r: Option<String>)
        ensures
            match r {
                Some(s) => s@ == first_segment(asset@) && first_segment(asset@) != "packages"@,
                None => first_segment(asset@) == "packages"@,
            },
    {
        let chars = crate::text::chars_of(asset);
        let mut first: Vec<char> = Vec::new();
        let mut i: usize = 0;
        assert(first_segment(asset@) == first@ + first_segment(asset@.skip(0))) by {
            assert(asset@.skip(0) =~= asset@);
            assert(first@ + first_segment(asset@) =~= first_segment(asset@));
        }
        while i < chars.len() && chars[i] != '/'
            invariant
                0 <= i <= chars@.len(),
                chars@ == asset@,
                forall|k: int| 0 <= k < i ==> chars@[k] != '/',
                first_segment(asset@) == first@ + first_segment(asset@.skip(i as int)),
            decreases chars@.len() - i,
        {
            proof {
                assert(asset@.skip(i as int).drop_first() =~= asset@.skip(i + 1));
                assert(first@.push(chars@[i as int]) + first_segment(asset@.skip(i + 1)) =~= first@
                    + (seq![chars@[i as int]] + first_segment(asset@.skip(i + 1))));
            }
            first.push(chars[i]);
            i = i + 1;
        }
        proof {
            assert(first_segment(asset@.skip(i as int)) =~= Seq::<char>::empty());
            assert(first@ + Seq::<char>::empty() =~= first@);
        }
        let first = crate::text::string_from(first.as_slice());
        if str_eq(first.as_str(), "packages") {
            None
        } else {
            Some(first)
        }
    }

    /// Whether a package's root is relative to the package config (it then
    /// has to be made absolute).
    pub fn is_relative_root(root_uri: &str) -> (r: bool)
        ensures
            r == occurs_at(root_uri@, ".."@, 0),
    {
        starts_with(root_uri, "..")
    }

    /// The `file://` URI of a path written with forward slashes.
    pub fn file_uri(slash_path: &str) -> (r: String)
        ensures
            r@ == file_uri_of(slash_path@),
    {
        let rooted = starts_with(slash_path, "/");
        proof {
            reveal_strlit("/");
            reveal_strlit("file://");
            reveal_strlit("file:///");
            if slash_path@.len() > 0 && slash_path@[0] == '/' {
                assert(slash_path@.subrange(0, 1) =~= "/"@);
            }
            if rooted {
                assert(slash_path@.subrange(0, 1)[0] == '/');
            }
            assert("file:///"@ =~= "file://"@ + "/"@);
        }
        if rooted {
            string_of("file://").concat(slash_path)
        } else {
            string_of("file:///").concat(slash_path)
        }
    }

    /// The option of `flutter precache` for the target system.
    pub fn precache_platform_flag(&self) -> (r: &'static str)
        ensures
            r@ == match self.target_os {
                TargetOS::Mac => "--macos"@,
                TargetOS::Windows => "--windows"@,
                TargetOS::Linux => "--linux"@,
            },
    {
        match self.target_os {
            TargetOS::Mac => "--macos",
            TargetOS::Windows => "--windows",
            TargetOS::Linux => "--linux",
        }
    }

    /// Whether `flutter precache` has to run: not with a local engine, and
    /// not when the engine version was precached last time already.
    pub fn needs_precache(&self, engine_version: &str, last_precached: Option<&str>) -> (r: bool)
        ensures
            r == (self.options.local_engine is None && !(last_precached matches Some(l) && l@
                == engine_version@)),
    {
        if self.options.local_engine.is_some() {
            return false;
        }
        match last_precached {
            Some(l) => !str_eq(l, engine_version),
            None => true,
        }
    }
}

/// The strings among `nodes`, in order.
fn strings_of(nodes: &Vec<YamlNode>) -> (r: Vec<String>)
    ensures
        views(r@) == strings_in(nodes_value(nodes@)),
{
    proof {
        lemma_nodes_value(nodes@);
    }
    let mut r: Vec<String> = Vec::new();
    let mut i: usize = 0;
    while i < nodes.len()
        invariant
            0 <= i <= nodes@.len(),
            nodes_value(nodes@).len() == nodes@.len(),
            forall|k: int| 0 <= k < nodes@.len() ==> #[trigger] nodes_value(nodes@)[k] == node_value(nodes@[k]),
            views(r@) == strings_in(nodes_value(nodes@).take(i as int)),
        decreases nodes@.len() - i,
    {
        let ghost v = nodes_value(nodes@);
        proof {
            assert(v.take(i + 1).drop_last() =~= v.take(i as int));
        }
        match &nodes[i] {
            YamlNode::String(s) => {
                let ghost before = r@;
                r.push(s.clone());
                assert(r@.drop_last() =~= before);
            },
            _ => {
                assert(strings_in(v.take(i + 1)) =~= strings_in(v.take(i as int)));
            },
        }
        i = i + 1;
    }
    assert(nodes_value(nodes@).take(nodes@.len() as int) =~= nodes_value(nodes@));
    r
}

/// The `asset` of each font file entry that has one.
fn font_files_of(files: &Vec<YamlNode>) -> (r: Vec<String>)
    ensures
        views(r@) == font_file_assets(nodes_value(files@)),
{
    proof {
        lemma_nodes_value(files@);
    }
    let mut r: Vec<String> = Vec::new();
    let mut i: usize = 0;
    while i < files.len()
        invariant
            0 <= i <= files@.len(),
            nodes_value(files@).len() == files@.len(),
            forall|k: int| 0 <= k < files@.len() ==> #[trigger] nodes_value(files@)[k] == node_value(files@[k]),
            views(r@) == font_file_assets(nodes_value(files@).take(i as int)),
        decreases files@.len() - i,
    {
        let ghost v = nodes_value(files@);
        proof {
            assert(v.take(i + 1).drop_last() =~= v.take(i as int));
        }
        let ghost before = r@;
        let mut pushed = false;
        if let YamlNode::Hash(pairs) = &files[i] {
            if let Some(YamlNode::String(s)) = hash_entry(pairs, "asset") {
                r.push(s.clone());
                pushed = true;
            }
        }
        proof {
            if pushed {
                assert(r@.drop_last() =~= before);
            } else {
                assert(font_file_assets(v.take(i + 1)) =~= font_file_assets(v.take(i as int)));
            }
        }
        i = i + 1;
    }
    assert(nodes_value(files@).take(files@.len() as int) =~= nodes_value(files@));
    r
}

/// The assets of each font family's `fonts` list.
fn font_families_of(families: &Vec<YamlNode>) -> (r: Vec<String>)
    ensures
        views(r@) == font_family_assets(nodes_value(families@)),
{
    proof {
        lemma_nodes_value(families@);
    }
    let mut r: Vec<String> = Vec::new();
    let mut i: usize = 0;
    while i < families.len()
        invariant
            0 <= i <= families@.len(),
            nodes_value(families@).len() == families@.len(),
            forall|k: int| 0 <= k < families@.len() ==> #[trigger] nodes_value(families@)[k] == node_value(families@[k]),
            views(r@) == font_family_assets(nodes_value(families@).take(i as int)),
        decreases families@.len() - i,
    {
        let ghost v = nodes_value(families@);
        proof {
            assert(v.take(i + 1).drop_last() =~= v.take(i as int));
        }
        let mut appended = false;
        if let YamlNode::Hash(pairs) = &families[i] {
            if let Some(YamlNode::Array(files)) = hash_entry(pairs, "fonts") {
                let more = font_files_of(files);
                append_strings(&mut r, more);
                appended = true;
            }
        }
        proof {
            if !appended {
                assert(font_family_assets(v.take(i + 1)) =~= font_family_assets(v.take(i as int)));
            }
        }
        i = i + 1;
    }
    assert(nodes_value(families@).take(families@.len() as int) =~= nodes_value(families@));
    r
}

/// Moves the strings of `more` to the end of `r`.
fn append_strings(r: &mut Vec<String>, more: Vec<String>)
    ensures
        views(final(r)@) == views(old(r)@) + views(more@),
{
    let mut more = more;
    let ghost orig = more@;
    let mut taken: Vec<String> = Vec::new();
    proof {
        crate::text::lemma_views(orig);
    }
    let mut i: usize = 0;
    let n = more.len();
    while i < n
        invariant
            0 <= i <= n,
            n == orig.len(),
            views(r@) == views(old(r)@) + views(orig.take(i as int)),
            views(orig).len() == orig.len(),
            forall|k: int| 0 <= k < orig.len() ==> #[trigger] views(orig)[k] == orig[k]@,
            more@ == orig,
        decreases n - i,
    {
        let ghost before = r@;
        r.push(more[i].clone());
        proof {
            assert(r@.drop_last() =~= before);
            assert(orig.take(i + 1).drop_last() =~= orig.take(i as int));
            assert(views(old(r)@) + views(orig.take(i + 1)) =~= (views(old(r)@) + views(orig.take(i as int))).push(orig[i as int]@));
        }
        i = i + 1;
    }
    assert(orig.take(n as int) =~= orig);
}

/// The assets that the document `doc` lists (see `pubspec_assets`).
pub fn assets_of_document(doc: &YamlNode) -> (r: Vec<String>)
    ensures
        views(r@) == pubspec_assets(node_value(*doc)),
{
    let mut res: Vec<String> = Vec::new();
    if let YamlNode::Hash(top) = doc {
        if let Some(YamlNode::Hash(flutter)) = hash_entry(top, "flutter") {
            if let Some(YamlNode::Array(assets)) = hash_entry(flutter, "assets") {
                res = strings_of(assets);
            }
            let ghost first = views(res@);
            let mut appended = false;
            if let Some(YamlNode::Array(fonts)) = hash_entry(flutter, "fonts") {
                let more = font_families_of(fonts);
                append_strings(&mut res, more);
                appended = true;
            }
            proof {
                if !appended {
                    assert(views(res@) =~= first + Seq::<Seq<char>>::empty());
                }
            }
        }
    }
    res
}


/// `c` has the Unicode `White_Space` property, as `char::is_whitespace` tells.
pub open spec fn is_white_space(c: char) -> bool {
    let v = c as u32;
    (0x09 <= v <= 0x0D) || v == 0x20 || v == 0x85 || v == 0xA0 || v == 0x1680 || (0x2000 <= v
        <= 0x200A) || v == 0x2028 || v == 0x2029 || v == 0x202F || v == 0x205F || v == 0x3000
}

/// `s` without its trailing white space.
pub open spec fn trimmed_end(s: Seq<char>) -> Seq<char>
    decreases s.len(),
{
    if s.len() > 0 && is_white_space(s.last()) {
        trimmed_end(s.drop_last())
    } else {
        s
    }
}

/// `s` ends with `suffix`.
pub open spec fn ends_with(s: Seq<char>, suffix: Seq<char>) -> bool {
    suffix.len() <= s.len() && s.subrange(s.len() - suffix.len(), s.len() as int) == suffix
}

/// Whether a tool that ran succeeded. On Windows `flutter` runs through
/// `cmd /c`, which loses its exit status, so its output has to end with the
/// line that reports a zero exit code; any other tool succeeded when its
/// exit status says so.
pub open spec fn tool_success(
    status_success: bool,
    command_name: Seq<char>,
    stdout: Seq<char>,
    on_windows: bool,
) -> bool {
    if on_windows && command_name == "flutter"@ {
        ends_with(trimmed_end(stdout), "exiting with code 0"@)
    } else {
        status_success
    }
}

fn is_white_space_char(c: char) -> (r: bool)
    ensures
        r == is_white_space(c),
{
    let v = c as u32;
    (0x09 <= v && v <= 0x0D) || v == 0x20 || v == 0x85 || v == 0xA0 || v == 0x1680 || (0x2000 <= v
        && v <= 0x200A) || v == 0x2028 || v == 0x2029 || v == 0x202F || v == 0x205F || v == 0x3000
}

/// Whether the tool `command_name` succeeded, from its exit status and its
/// standard output (see `tool_success`).
pub fn tool_succeeded(status_success: bool, command_name: &str, stdout: &str, on_windows: bool) -> (r:
    bool)
    ensures
        r == tool_success(status_success, command_name@, stdout@, on_windows),
{
    if !(on_windows && str_eq(command_name, "flutter")) {
        return status_success;
    }
    let chars = chars_of(stdout);
    let mut n: usize = chars.len();
    assert(chars@.take(n as int) =~= chars@);
    while n > 0 && is_white_space_char(chars[n - 1])
        invariant
            0 <= n <= chars@.len(),
            chars@ == stdout@,
            trimmed_end(chars@.take(n as int)) == trimmed_end(stdout@),
        decreases n,
    {
        proof {
            assert(chars@.take(n as int).drop_last() =~= chars@.take(n - 1));
        }
        n = n - 1;
    }
    let ghost t = chars@.take(n as int);
    assert(trimmed_end(t) == t);
    assert(trimmed_end(stdout@) == t);
    let suffix = chars_of("exiting with code 0");
    if suffix.len() > n {
        assert(!ends_with(t, "exiting with code 0"@));
        return false;
    }
    let start = n - suffix.len();
    let mut i: usize = 0;
    while i < suffix.len()
        invariant
            suffix@ == "exiting with code 0"@,
            on_windows && command_name@ == "flutter"@,
            trimmed_end(stdout@) == t,
            start + suffix@.len() == n,
            n <= chars@.len(),
            t == chars@.take(n as int),
            0 <= i <= suffix@.len(),
            forall|k: int| 0 <= k < i ==> chars@[start + k] == suffix@[k],
        decreases suffix@.len() - i,
    {
        if chars[start + i] != suffix[i] {
            proof {
                assert(t.subrange(start as int, n as int)[i as int] != suffix@[i as int]);
                assert(!ends_with(t, suffix@));
            }
            return false;
        }
        i = i + 1;
    }
    assert(t.subrange(start as int, n as int) =~= suffix@);
    true
}

} // verus!
