//! Where the Flutter engine artifacts of a build are found and which of them
//! are copied next to the application.
use crate::flutter_build::{Flutter, TargetOS};
use crate::text::str_eq;
use vstd::prelude::*;
use vstd::string::StringExecFns;

verus! {

/// The name of the engine artifacts directory: the target platform (for
/// macOS with the architecture, `x86_64` written `x64`), followed by the build
/// mode unless it is `debug`.
pub open spec fn engine_artifacts_name(
    target_platform: Seq<char>,
    darwin_arch: Seq<char>,
    build_mode: Seq<char>,
) -> Seq<char> {
    let platform = if target_platform == "darwin"@ {
        target_platform + "-"@ + if darwin_arch == "x86_64"@ {
            "x64"@
        } else {
            darwin_arch
        }
    } else {
        target_platform
    };
    if build_mode == "debug"@ {
        platform
    } else {
        platform + "-"@ + build_mode
    }
}

/// The engine libraries that an application links with on each system.
pub open spec fn external_library_files(os: TargetOS) -> Seq<Seq<char>> {
    match os {
        TargetOS::Mac => seq!["FlutterMacOS.framework"@],
        TargetOS::Windows => seq![
            "flutter_windows.dll"@,
            "flutter_windows.dll.lib"@,
            "flutter_windows.dll.pdb"@,
        ],
        TargetOS::Linux => seq!["libflutter_linux_gtk.so"@],
    }
}

/// Copies the artifacts of a Flutter build into the application's output.
pub struct ArtifactsEmitter<'a> {
    pub build: &'a Flutter<'a>,
    pub flutter_out_dir: String,
    pub flutter_build_dir: String,
    pub artifacts_out_dir: String,
}

impl<'a> ArtifactsEmitter<'a> {
    /// An emitter for `build`, whose Flutter output is in `flutter_out_dir`
    /// and whose last Flutter build is in `flutter_build_dir`.
    pub fn new(
        build: &'a Flutter<'a>,
        flutter_out_dir: String,
        flutter_build_dir: String,
        artifacts_out_dir: String,
    ) -> (r: Self)
        ensures
            r.build == build,
            r.flutter_out_dir == flutter_out_dir,
            r.flutter_build_dir == flutter_build_dir,
            r.artifacts_out_dir == artifacts_out_dir,
    {
        ArtifactsEmitter { build, flutter_out_dir, flutter_build_dir, artifacts_out_dir }
    }

    /// The engine artifacts directory for `build_mode` under Flutter's cache
    /// (see `engine_artifacts_name`); a macOS build knows its architecture.
    pub fn engine_artifacts_dir_name(&self, build_mode: &str) -> (r: String)
        requires
            self.build.target_platform@ == "darwin"@ ==> self.build.darwin_arch is Some,
        ensures
            r@ == engine_artifacts_name(
                self.build.target_platform@,
                match self.build.darwin_arch {
                    Some(a) => a@,
                    None => Seq::empty(),
                },
                build_mode@,
            ),
    {
        let platform = if str_eq(self.build.target_platform.as_str(), "darwin") {
            let arch = match &self.build.darwin_arch {
                Some(a) => a,
                None => {
                    return String::new();
                },
            };
            let darwin_os: &str = if str_eq(arch.as_str(), "x86_64") {
                "x64"
            } else {
                arch.as_str()
            };
            self.build.target_platform.clone().concat("-").concat(darwin_os)
        } else {
            self.build.target_platform.clone()
        };
        if str_eq(build_mode, "debug") {
            platform
        } else {
            platform.concat("-").concat(build_mode)
        }
    }

    /// The engine libraries to copy next to the application.
    pub fn external_libraries(&self) -> (r: Vec<&'static str>)
        ensures
            r@.len() == external_library_files(self.build.target_os).len(),
            forall|i: int| 0 <= i < r@.len() ==> #[trigger] r@[i]@ == external_library_files(
                self.build.target_os,
            )[i],
    {
        match self.build.target_os {
            TargetOS::Mac => vec!["FlutterMacOS.framework"],
            TargetOS::Windows => vec![
                "flutter_windows.dll",
                "flutter_windows.dll.lib",
                "flutter_windows.dll.pdb",
            ],
            TargetOS::Linux => vec!["libflutter_linux_gtk.so"],
        }
    }

    /// Whether the compiled program (`app.dill`) is copied into the assets:
    /// in debug builds only.
    pub fn copies_kernel_blob(&self) -> (r: bool)
        ensures
            r == (self.build.build_mode@ == "debug"@),
    {
        str_eq(self.build.build_mode.as_str(), "debug")
    }
}

} // verus!
