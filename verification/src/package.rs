//! The `package` sub-command, and the linkage directives derived from a
//! package's installed libraries.

use vstd::prelude::*;
use vstd::string::StringExecFns;

use crate::install::{opt_flag_pair, push_flag_pair};
use crate::strutil::{concat_strs, is_prefix, path_join, spec_path_join, str_eq, str_starts_with};
use vstd::string::StrSliceExecFns;

verus! {

/// A failure of the package flow.
#[derive(Debug, Clone, PartialEq, Eq)]
pub enum ConanPackageError {
    /// The required recipe path is not set.
    MissingRecipePath,
    /// A path is not valid Unicode.
    InvalidUnicodeInPath,
    /// The external program could not be found.
    ConanNotFound,
    /// Running the external program failed.
    CommandExecutionFailed,
    /// A filesystem operation failed, described in its message.
    Io(String),
    /// A file name could not be read as text.
    InvalidFileName(String),
    /// Any other failure, described in its message.
    Other(String),
}

/// A `package` invocation's configuration.
pub struct PackageCommand {
    pub build_path: Option<String>,
    pub install_path: Option<String>,
    pub package_path: Option<String>,
    pub source_path: Option<String>,
    pub recipe_path: Option<String>,
}

/// The mathematical content of a [`PackageCommand`] value.
pub ghost struct PackageV {
    pub build_path: Option<Seq<char>>,
    pub install_path: Option<Seq<char>>,
    pub package_path: Option<Seq<char>>,
    pub source_path: Option<Seq<char>>,
    pub recipe_path: Option<Seq<char>>,
}

impl View for PackageCommand {
    type V = PackageV;

    open spec fn view(&self) -> PackageV {
        PackageV {
            build_path: self.build_path.deep_view(),
            install_path: self.install_path.deep_view(),
            package_path: self.package_path.deep_view(),
            source_path: self.source_path.deep_view(),
            recipe_path: self.recipe_path.deep_view(),
        }
    }
}

impl Default for PackageCommand {
    /// A command with nothing configured; rendering it fails for want of a
    /// recipe path.
    fn default() -> (r: Self)
        ensures
            r@ == (PackageV {
                build_path: None,
                install_path: None,
                package_path: None,
                source_path: None,
                recipe_path: None,
            }),
    {
        PackageCommand {
            build_path: None,
            install_path: None,
            package_path: None,
            source_path: None,
            recipe_path: None,
        }
    }
}

/// An accumulator of `package` configuration, finalized by [`Self::build`].
pub struct PackageCommandBuilder {
    pub build_path: Option<String>,
    pub install_path: Option<String>,
    pub package_path: Option<String>,
    pub source_path: Option<String>,
    pub recipe_path: Option<String>,
}

/// The mathematical content of a [`PackageCommandBuilder`] value.
pub ghost struct PackageBuilderV {
    pub build_path: Option<Seq<char>>,
    pub install_path: Option<Seq<char>>,
    pub package_path: Option<Seq<char>>,
    pub source_path: Option<Seq<char>>,
    pub recipe_path: Option<Seq<char>>,
}

impl View for PackageCommandBuilder {
    type V = PackageBuilderV;

    open spec fn view(&self) -> PackageBuilderV {
        PackageBuilderV {
            build_path: self.build_path.deep_view(),
            install_path: self.install_path.deep_view(),
            package_path: self.package_path.deep_view(),
            source_path: self.source_path.deep_view(),
            recipe_path: self.recipe_path.deep_view(),
        }
    }
}

impl Default for PackageCommandBuilder {
    /// The default builder packages the recipe in the current directory.
    fn default() -> (r: Self)
        ensures
            r@ == (PackageBuilderV {
                build_path: None,
                install_path: None,
                package_path: None,
                source_path: None,
                recipe_path: Some("."@),
            }),
    {
        PackageCommandBuilder {
            build_path: None,
            install_path: None,
            package_path: None,
            source_path: None,
            recipe_path: Some(String::from_str(".")),
        }
    }
}

impl PackageCommandBuilder {
    /// Same as the default builder.
    pub fn new() -> (r: Self)
        ensures
            r@ == (PackageBuilderV {
                build_path: None,
                install_path: None,
                package_path: None,
                source_path: None,
                recipe_path: Some("."@),
            }),
    {
        PackageCommandBuilder::default()
    }

    /// Sets the build-folder override.
    pub fn with_build_path(self, build_path: String) -> (r: Self)
        ensures
            r@ == (PackageBuilderV { build_path: Some(build_path@), ..self@ }),
    {
        PackageCommandBuilder { build_path: Some(build_path), ..self }
    }

    /// Sets the install-folder override.
    pub fn with_install_path(self, install_path: String) -> (r: Self)
        ensures
            r@ == (PackageBuilderV { install_path: Some(install_path@), ..self@ }),
    {
        PackageCommandBuilder { install_path: Some(install_path), ..self }
    }

    /// Sets the package-folder override.
    pub fn with_package_path(self, package_path: String) -> (r: Self)
        ensures
            r@ == (PackageBuilderV { package_path: Some(package_path@), ..self@ }),
    {
        PackageCommandBuilder { package_path: Some(package_path), ..self }
    }

    /// Sets the source-folder override.
    pub fn with_source_path(self, source_path: String) -> (r: Self)
        ensures
            r@ == (PackageBuilderV { source_path: Some(source_path@), ..self@ }),
    {
        PackageCommandBuilder { source_path: Some(source_path), ..self }
    }

    /// Sets the recipe path.
    pub fn with_recipe_path(self, recipe_path: String) -> (r: Self)
        ensures
            r@ == (PackageBuilderV { recipe_path: Some(recipe_path@), ..self@ }),
    {
        PackageCommandBuilder { recipe_path: Some(recipe_path), ..self }
    }

    /// Finalizes the accumulated configuration.
    pub fn build(self) -> (r: PackageCommand)
        ensures
            r@ == (PackageV {
                build_path: self@.build_path,
                install_path: self@.install_path,
                package_path: self@.package_path,
                source_path: self@.source_path,
                recipe_path: self@.recipe_path,
            }),
    {
        PackageCommand {
            build_path: self.build_path,
            install_path: self.install_path,
            package_path: self.package_path,
            source_path: self.source_path,
            recipe_path: self.recipe_path,
        }
    }
}

/// The exact token sequence a package configuration renders, for a set
/// recipe path.
pub open spec fn spec_package_args(c: PackageV) -> Seq<Seq<char>> {
    seq!["package"@] + (match c.recipe_path {
        Some(p) => seq![p],
        None => Seq::<Seq<char>>::empty(),
    }) + opt_flag_pair("--build-folder"@, c.build_path) + opt_flag_pair(
        "--install-folder"@,
        c.install_path,
    ) + opt_flag_pair("--package-folder"@, c.package_path) + opt_flag_pair(
        "--source-folder"@,
        c.source_path,
    )
}

/// Law: rendering is pure and deterministic. Package configurations of equal
/// content render one and the same token sequence.
pub proof fn lemma_package_args_deterministic(a: PackageCommand, b: PackageCommand)
    requires
        a@ == b@,
    ensures
        spec_package_args(a@) == spec_package_args(b@),
{
}

impl PackageCommand {
    /// Renders the configuration into the exact argument vector of the
    /// `package` sub-command: the recipe path is required, the folder
    /// overrides follow in fixed order.
    pub fn args(&self) -> (r: Result<Vec<String>, ConanPackageError>)
        ensures
            r is Ok <==> self@.recipe_path is Some,
            r matches Ok(v) ==> v.deep_view() == spec_package_args(self@),
            r matches Err(e) ==> e is MissingRecipePath,
    {
        let recipe = match &self.recipe_path {
            Some(p) => p,
            None => {
                return Err(ConanPackageError::MissingRecipePath);
            },
        };
        let mut out: Vec<String> = Vec::new();
        out.push(String::from_str("package"));
        out.push(recipe.clone());
        proof {
            assert(out.deep_view() =~= seq!["package"@] + seq![recipe@]);
        }
        push_flag_pair(&mut out, "--build-folder", &self.build_path);
        push_flag_pair(&mut out, "--install-folder", &self.install_path);
        push_flag_pair(&mut out, "--package-folder", &self.package_path);
        push_flag_pair(&mut out, "--source-folder", &self.source_path);
        proof {
            assert(out.deep_view() =~= spec_package_args(self@));
        }
        Ok(out)
    }
}

/// A built package on disk, rooted at `path`.
pub struct ConanPackage {
    pub path: String,
}

impl Default for ConanPackage {
    /// A package rooted at the conventional output directory.
    fn default() -> (r: Self)
        ensures
            r.path@ == "./package/"@,
    {
        ConanPackage { path: String::from_str("./package/") }
    }
}

/// The index of the last `.` in a name, scanning from the end.
pub open spec fn last_dot(s: Seq<char>) -> Option<int>
    decreases s.len(),
{
    if s.len() == 0 {
        None
    } else if s.last() == '.' {
        Some(s.len() - 1)
    } else {
        last_dot(s.drop_last())
    }
}

/// The stem of a file name: everything before the final `.`, except that a
/// name without a `.` past its first character is all stem.
pub open spec fn file_stem(f: Seq<char>) -> Seq<char> {
    match last_dot(f) {
        Some(d) => if d >= 1 {
            f.take(d)
        } else {
            f
        },
        None => f,
    }
}

/// The extension of a file name: everything after the final `.`, provided
/// the `.` is past the first character.
pub open spec fn file_extension(f: Seq<char>) -> Option<Seq<char>> {
    match last_dot(f) {
        Some(d) => if d >= 1 {
            Some(f.skip(d + 1))
        } else {
            None
        },
        None => None,
    }
}

/// The link kind an extension denotes: shared objects and dynamic libraries
/// link dynamically, archives statically; anything else is not a library.
pub open spec fn link_kind(ext: Seq<char>) -> Option<Seq<char>> {
    if ext == "so"@ || ext == "dll"@ || ext == "dylib"@ {
        Some("dylib"@)
    } else if ext == "a"@ || ext == "lib"@ {
        Some("static"@)
    } else {
        None
    }
}

/// The stem with a leading `lib` prefix stripped.
pub open spec fn strip_lib(stem: Seq<char>) -> Seq<char> {
    if is_prefix("lib"@, stem) {
        stem.skip(3)
    } else {
        stem
    }
}

/// The link directive one file name gives rise to, if its extension is
/// recognized.
pub open spec fn file_link_line(f: Seq<char>) -> Option<Seq<char>> {
    match file_extension(f) {
        Some(e) => match link_kind(e) {
            Some(k) => Some("cargo:rustc-link-lib="@ + k + "="@ + strip_lib(file_stem(f))),
            None => None,
        },
        None => None,
    }
}

/// The link directives of a list of file names, in order, skipping files of
/// unrecognized extension.
pub open spec fn link_lines(files: Seq<Seq<char>>) -> Seq<Seq<char>>
    decreases files.len(),
{
    if files.len() == 0 {
        Seq::empty()
    } else {
        (match file_link_line(files[0]) {
            Some(l) => seq![l],
            None => Seq::<Seq<char>>::empty(),
        }) + link_lines(files.drop_first())
    }
}

/// One more file appends its directive, or nothing, at the end.
proof fn lemma_link_lines_snoc(files: Seq<Seq<char>>, f: Seq<char>)
    ensures
        link_lines(files.push(f)) == link_lines(files) + (match file_link_line(f) {
            Some(l) => seq![l],
            None => Seq::<Seq<char>>::empty(),
        }),
    decreases files.len(),
{
    let tail = match file_link_line(f) {
        Some(l) => seq![l],
        None => Seq::<Seq<char>>::empty(),
    };
    if files.len() == 0 {
        assert(files.push(f)[0] == f);
        assert(files.push(f).drop_first() =~= Seq::<Seq<char>>::empty());
        assert(link_lines(Seq::<Seq<char>>::empty()) == Seq::<Seq<char>>::empty());
        assert(tail + Seq::<Seq<char>>::empty() =~= tail);
        assert(link_lines(files) + tail =~= tail);
    } else {
        assert(files.push(f)[0] == files[0]);
        assert(files.push(f).drop_first() =~= files.drop_first().push(f));
        lemma_link_lines_snoc(files.drop_first(), f);
        let head = match file_link_line(files[0]) {
            Some(l) => seq![l],
            None => Seq::<Seq<char>>::empty(),
        };
        assert(head + (link_lines(files.drop_first()) + tail) =~= (head + link_lines(
            files.drop_first(),
        )) + tail);
    }
}

/// Where a last `.` is found, it is a real index holding a `.`.
proof fn lemma_last_dot_bounds(s: Seq<char>)
    ensures
        match last_dot(s) {
            Some(d) => 0 <= d < s.len() && s[d] == '.',
            None => true,
        },
    decreases s.len(),
{
    if s.len() > 0 && s.last() != '.' {
        lemma_last_dot_bounds(s.drop_last());
    }
}

/// The index of the last `.` in a file name.
fn last_dot_index(f: &str) -> (r: Option<usize>)
    ensures
        match r {
            Some(d) => last_dot(f@) == Some(d as int),
            None => last_dot(f@) is None,
        },
{
    let len = f.unicode_len();
    proof {
        assert(f@.take(len as int) =~= f@);
    }
    let mut i: usize = len;
    while i > 0
        invariant
            i <= len,
            len == f@.len(),
            last_dot(f@) == last_dot(f@.take(i as int)),
        decreases i,
    {
        if f.get_char(i - 1) == '.' {
            proof {
                assert(f@.take(i as int).last() == f@[i - 1]);
            }
            return Some(i - 1);
        }
        proof {
            assert(f@.take(i as int).last() == f@[i - 1]);
            assert(f@.take(i as int).drop_last() =~= f@.take(i as int - 1));
        }
        i -= 1;
    }
    proof {
        assert(f@.take(0) =~= Seq::<char>::empty());
    }
    None
}

/// The link directive of one file name, if its extension is recognized.
fn link_line_of_file(f: &str) -> (r: Option<String>)
    ensures
        r.deep_view() == file_link_line(f@),
{
    let len = f.unicode_len();
    let d = match last_dot_index(f) {
        Some(d) => d,
        None => {
            return None;
        },
    };
    if d < 1 {
        return None;
    }
    proof {
        lemma_last_dot_bounds(f@);
    }
    let ext = f.substring_char(d + 1, len);
    proof {
        assert(ext@ =~= f@.skip(d + 1));
    }
    let kind: &str = if str_eq(ext, "so") || str_eq(ext, "dll") || str_eq(ext, "dylib") {
        "dylib"
    } else if str_eq(ext, "a") || str_eq(ext, "lib") {
        "static"
    } else {
        return None;
    };
    let stem = f.substring_char(0, d);
    proof {
        assert(stem@ =~= f@.take(d as int));
    }
    let name = if str_starts_with(stem, "lib") {
        proof {
            reveal_strlit("lib");
        }
        let stripped = stem.substring_char(3, d);
        proof {
            assert(stripped@ =~= stem@.skip(3));
        }
        stripped
    } else {
        stem
    };
    let mut line = String::from_str("cargo:rustc-link-lib=");
    line.append(kind);
    line.append("=");
    line.append(name);
    proof {
        assert(line@ =~= "cargo:rustc-link-lib="@ + kind@ + "="@ + strip_lib(file_stem(f@)));
    }
    Some(line)
}

impl ConanPackage {
    /// A package rooted at the given path.
    pub fn new(path: String) -> (r: Self)
        ensures
            r.path == path,
    {
        ConanPackage { path }
    }

    /// The linkage directive lines for the library files found under the
    /// package's library directory: one link directive per file of
    /// recognized extension, with a leading `lib` prefix stripped from its
    /// name, then one search-path directive for the directory itself. The
    /// caller enumerates the directory and prints the lines.
    pub fn cargo_libs_linkage_lines(&self, libs_dir: &str, file_names: &Vec<String>) -> (r: Vec<
        String,
    >)
        ensures
            r.deep_view() == link_lines(file_names.deep_view()) + seq![
                "cargo:rustc-link-search=native="@ + spec_path_join(self.path@, libs_dir@),
            ],
    {
        let mut out: Vec<String> = Vec::new();
        proof {
            assert(out.deep_view() =~= Seq::<Seq<char>>::empty());
            assert(file_names.deep_view().take(0) =~= Seq::<Seq<char>>::empty());
        }
        let mut i: usize = 0;
        while i < file_names.len()
            invariant
                i <= file_names@.len(),
                out.deep_view() == link_lines(file_names.deep_view().take(i as int)),
            decreases file_names@.len() - i,
        {
            let ghost pre = out.deep_view();
            match link_line_of_file(file_names[i].as_str()) {
                Some(line) => {
                    out.push(line);
                    proof {
                        assert(out.deep_view() =~= pre.push(
                            file_link_line(file_names.deep_view()[i as int])->Some_0,
                        ));
                    }
                },
                None => {},
            }
            proof {
                lemma_link_lines_snoc(
                    file_names.deep_view().take(i as int),
                    file_names.deep_view()[i as int],
                );
                assert(file_names.deep_view().take(i as int).push(
                    file_names.deep_view()[i as int],
                ) =~= file_names.deep_view().take(i as int + 1));
                assert(out.deep_view() =~= link_lines(file_names.deep_view().take(i as int + 1)));
            }
            i += 1;
        }
        proof {
            assert(file_names.deep_view().take(file_names.deep_view().len() as int)
                =~= file_names.deep_view());
        }
        let dir = path_join(self.path.as_str(), libs_dir);
        let ghost pre = out.deep_view();
        out.push(concat_strs("cargo:rustc-link-search=native=", dir.as_str()));
        proof {
            assert(out.deep_view() =~= pre.push(
                "cargo:rustc-link-search=native="@ + spec_path_join(self.path@, libs_dir@),
            ));
            assert(out.deep_view() =~= link_lines(file_names.deep_view()) + seq![
                "cargo:rustc-link-search=native="@ + spec_path_join(self.path@, libs_dir@),
            ]);
        }
        out
    }
}

} // verus!
