//! The macOS application bundle: its options and its `Info.plist`, made by
//! filling in the `${KEY}` placeholders of a template.
use crate::text::{replace_all, replace_str};
use vstd::prelude::*;
use vstd::string::StringExecFns;

verus! {

/// What goes into an application bundle.
pub struct AppBundleOptions {
    pub bundle_identifier: String,
    pub bundle_name: String,
    pub bundle_display_name: String,
    pub bundle_version: String,
    pub bundle_short_version_string: String,
    pub minimum_system_version: String,
    /// Executable, relative to the artifacts directory.
    pub executable_path: String,
    /// Icon, relative to the bundle's `Resources` directory.
    pub icon_file: String,
    /// `Info.plist` template, relative to the directory of the crate's Cargo.toml.
    pub info_plist_template: Option<String>,
    /// More placeholders to fill in, with their values, in this order.
    pub info_plist_additional_args: Vec<(String, String)>,
}

/// The result of building a bundle.
pub struct AppBundleResult {}

/// The placeholder for `key` in an `Info.plist` template: `${key}`.
pub open spec fn placeholder(key: Seq<char>) -> Seq<char> {
    "${"@ + key + "}"@
}

/// `plist` with every `${key}` replaced by `value`.
pub open spec fn with_value(plist: Seq<char>, key: Seq<char>, value: Seq<char>) -> Seq<char> {
    replace_all(plist, placeholder(key), value)
}

/// `plist` with each (key, value) pair filled in, in order.
pub open spec fn with_values(plist: Seq<char>, args: Seq<(Seq<char>, Seq<char>)>) -> Seq<char>
    decreases args.len(),
{
    if args.len() == 0 {
        plist
    } else {
        with_value(with_values(plist, args.drop_last()), args.last().0, args.last().1)
    }
}

/// The views of a sequence of string pairs.
pub open spec fn arg_views(v: Seq<(String, String)>) -> Seq<(Seq<char>, Seq<char>)>
    decreases v.len(),
{
    if v.len() == 0 {
        Seq::empty()
    } else {
        arg_views(v.drop_last()).push((v.last().0@, v.last().1@))
    }
}

/// Builds an application bundle.
pub struct MacOSBundle {
    pub options: AppBundleOptions,
}

impl MacOSBundle {
    /// A bundle with `options`.
    pub fn new(options: AppBundleOptions) -> (r: Self)
        ensures
            r.options == options,
    {
        MacOSBundle { options }
    }

    /// Replaces every `${key}` in `plist` with `value`.
    pub fn replace_plist_value(plist: &mut String, key: &str, value: &str)
        ensures
            final(plist)@ == with_value(old(plist)@, key@, value@),
    {
        let mut pattern = String::from_str("${");
        pattern.append(key);
        pattern.append("}");
        let replaced = replace_str(plist.as_str(), pattern.as_str(), value);
        *plist = replaced;
    }

    /// The standard placeholders and their values: the executable's file
    /// name and the icon are given by the caller.
    pub open spec fn standard_args(
        &self,
        executable_name: Seq<char>,
        icon_file: Seq<char>,
    ) -> Seq<(Seq<char>, Seq<char>)> {
        seq![
            ("BUNDLE_IDENTIFIER"@, self.options.bundle_identifier@),
            ("BUNDLE_EXECUTABLE"@, executable_name),
            ("ICON_FILE"@, icon_file),
            ("BUNDLE_NAME"@, self.options.bundle_display_name@),
            ("MINIMUM_SYSTEM_VERSION"@, self.options.minimum_system_version@),
            ("BUNDLE_VERSION"@, self.options.bundle_version@),
            ("BUNDLE_SHORT_VERSION_STRING"@, self.options.bundle_short_version_string@),
        ]
    }

    /// The `Info.plist` made from `template`: the standard placeholders filled
    /// in first, then the additional ones, in order.
    pub fn info_plist(&self, template: &str, executable_name: &str, icon_file: &str) -> (r: String)
        ensures
            r@ == with_values(
                template@,
                self.standard_args(executable_name@, icon_file@) + arg_views(
                    self.options.info_plist_additional_args@,
                ),
            ),
    {
        let mut plist = String::from_str(template);
        let ghost std_args = self.standard_args(executable_name@, icon_file@);
        Self::replace_plist_value(&mut plist, "BUNDLE_IDENTIFIER", self.options.bundle_identifier.as_str());
        Self::replace_plist_value(&mut plist, "BUNDLE_EXECUTABLE", executable_name);
        Self::replace_plist_value(&mut plist, "ICON_FILE", icon_file);
        Self::replace_plist_value(&mut plist, "BUNDLE_NAME", self.options.bundle_display_name.as_str());
        Self::replace_plist_value(
            &mut plist,
            "MINIMUM_SYSTEM_VERSION",
            self.options.minimum_system_version.as_str(),
        );
        Self::replace_plist_value(&mut plist, "BUNDLE_VERSION", self.options.bundle_version.as_str());
        Self::replace_plist_value(
            &mut plist,
            "BUNDLE_SHORT_VERSION_STRING",
            self.options.bundle_short_version_string.as_str(),
        );
        proof {
            reveal_with_fuel(with_values, 8);
            assert(std_args.take(7) =~= std_args);
            assert(plist@ == with_values(template@, std_args));
        }
        let args = &self.options.info_plist_additional_args;
        let ghost extra = arg_views(args@);
        proof {
            lemma_arg_views(args@);
        }
        let mut i: usize = 0;
        while i < args.len()
            invariant
                0 <= i <= args@.len(),
                extra == arg_views(args@),
                extra.len() == args@.len(),
                forall|k: int| 0 <= k < args@.len() ==> #[trigger] extra[k] == (args@[k].0@, args@[k].1@),
                plist@ == with_values(template@, std_args + extra.take(i as int)),
            decreases args@.len() - i,
        {
            Self::replace_plist_value(&mut plist, args[i].0.as_str(), args[i].1.as_str());
            proof {
                let all = std_args + extra.take(i + 1);
                assert(all.drop_last() =~= std_args + extra.take(i as int));
                assert(all.last() == extra[i as int]);
            }
            i = i + 1;
        }
        proof {
            assert(extra.take(extra.len() as int) =~= extra);
        }
        plist
    }
}

proof fn lemma_arg_views(v: Seq<(String, String)>)
    ensures
        arg_views(v).len() == v.len(),
        forall|i: int| 0 <= i < v.len() ==> #[trigger] arg_views(v)[i] == (v[i].0@, v[i].1@),
    decreases v.len(),
{
    if v.len() > 0 {
        lemma_arg_views(v.drop_last());
    }
}

/// A directory of resources next to the application.
pub struct Resources {
    pub resources_dir: String,
}

impl Resources {
    /// The resources in `resources_dir`.
    pub fn new(resources_dir: String) -> (r: Self)
        ensures
            r.resources_dir == resources_dir,
    {
        Resources { resources_dir }
    }
}

} // verus!
