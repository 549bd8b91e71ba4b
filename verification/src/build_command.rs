//! The `build` sub-command: configuration, builder, and argument rendering.

use vstd::prelude::*;
use vstd::string::StringExecFns;

use crate::install::opt_flag_pair;

verus! {

/// A failure of the build flow.
#[derive(Debug, Clone, PartialEq, Eq, Structural)]
pub enum ConanBuildError {
    /// The required recipe path is not set.
    MissingRecipePath,
}

/// A `build` invocation's configuration.
pub struct BuildCommand {
    pub recipe_path: Option<String>,
    pub build_path: Option<String>,
    pub install_path: Option<String>,
    pub package_path: Option<String>,
    pub source_path: Option<String>,
    pub should_configure: bool,
    pub should_build: bool,
    pub should_install: bool,
}

/// The mathematical content of a [`BuildCommand`] value.
pub ghost struct BuildV {
    pub recipe_path: Option<Seq<char>>,
    pub build_path: Option<Seq<char>>,
    pub install_path: Option<Seq<char>>,
    pub package_path: Option<Seq<char>>,
    pub source_path: Option<Seq<char>>,
    pub should_configure: bool,
    pub should_build: bool,
    pub should_install: bool,
}

impl View for BuildCommand {
    type V = BuildV;

    open spec fn view(&self) -> BuildV {
        BuildV {
            recipe_path: self.recipe_path.deep_view(),
            build_path: self.build_path.deep_view(),
            install_path: self.install_path.deep_view(),
            package_path: self.package_path.deep_view(),
            source_path: self.source_path.deep_view(),
            should_configure: self.should_configure,
            should_build: self.should_build,
            should_install: self.should_install,
        }
    }
}

/// An accumulator of `build` configuration, finalized by [`Self::build`].
pub struct BuildCommandBuilder {
    pub recipe_path: Option<String>,
    pub build_path: Option<String>,
    pub install_path: Option<String>,
    pub package_path: Option<String>,
    pub source_path: Option<String>,
    pub should_configure: bool,
    pub should_build: bool,
    pub should_install: bool,
}

impl Default for BuildCommand {
    /// The default command builds the recipe in the current directory.
    fn default() -> (r: Self)
        ensures
            r@ == (BuildV {
                recipe_path: Some("."@),
                build_path: None,
                install_path: None,
                package_path: None,
                source_path: None,
                should_configure: false,
                should_build: false,
                should_install: false,
            }),
    {
        BuildCommand {
            recipe_path: Some(String::from_str(".")),
            build_path: None,
            install_path: None,
            package_path: None,
            source_path: None,
            should_configure: false,
            should_build: false,
            should_install: false,
        }
    }
}

impl Default for BuildCommandBuilder {
    /// Same as [`BuildCommandBuilder::new`].
    fn default() -> (r: Self)
        ensures
            r.recipe_path.deep_view() == Option::<Seq<char>>::None,
            r.build_path.deep_view() == Option::<Seq<char>>::None,
            r.install_path.deep_view() == Option::<Seq<char>>::None,
            r.package_path.deep_view() == Option::<Seq<char>>::None,
            r.source_path.deep_view() == Option::<Seq<char>>::None,
            !r.should_configure,
            !r.should_build,
            !r.should_install,
    {
        BuildCommandBuilder::new()
    }
}

impl BuildCommandBuilder {
    /// A builder with nothing configured.
    pub fn new() -> (r: BuildCommandBuilder)
        ensures
            r.recipe_path.deep_view() == Option::<Seq<char>>::None,
            r.build_path.deep_view() == Option::<Seq<char>>::None,
            r.install_path.deep_view() == Option::<Seq<char>>::None,
            r.package_path.deep_view() == Option::<Seq<char>>::None,
            r.source_path.deep_view() == Option::<Seq<char>>::None,
            !r.should_configure,
            !r.should_build,
            !r.should_install,
    {
        BuildCommandBuilder {
            recipe_path: None,
            build_path: None,
            install_path: None,
            package_path: None,
            source_path: None,
            should_configure: false,
            should_build: false,
            should_install: false,
        }
    }

    /// Sets the recipe path.
    pub fn with_recipe_path(self, recipe_path: String) -> (r: Self)
        ensures
            r.recipe_path == Some(recipe_path),
            r.build_path == self.build_path,
            r.install_path == self.install_path,
            r.package_path == self.package_path,
            r.source_path == self.source_path,
            r.should_configure == self.should_configure,
            r.should_build == self.should_build,
            r.should_install == self.should_install,
    {
        BuildCommandBuilder { recipe_path: Some(recipe_path), ..self }
    }

    /// Sets the build-folder override.
    pub fn with_build_path(self, build_path: String) -> (r: Self)
        ensures
            r.build_path == Some(build_path),
            r.recipe_path == self.recipe_path,
            r.install_path == self.install_path,
            r.package_path == self.package_path,
            r.source_path == self.source_path,
            r.should_configure == self.should_configure,
            r.should_build == self.should_build,
            r.should_install == self.should_install,
    {
        BuildCommandBuilder { build_path: Some(build_path), ..self }
    }

    /// Sets the install-folder override.
    pub fn with_install_path(self, install_path: String) -> (r: Self)
        ensures
            r.install_path == Some(install_path),
            r.recipe_path == self.recipe_path,
            r.build_path == self.build_path,
            r.package_path == self.package_path,
            r.source_path == self.source_path,
            r.should_configure == self.should_configure,
            r.should_build == self.should_build,
            r.should_install == self.should_install,
    {
        BuildCommandBuilder { install_path: Some(install_path), ..self }
    }

    /// Sets the package-folder override.
    pub fn with_package_path(self, package_path: String) -> (r: Self)
        ensures
            r.package_path == Some(package_path),
            r.recipe_path == self.recipe_path,
            r.build_path == self.build_path,
            r.install_path == self.install_path,
            r.source_path == self.source_path,
            r.should_configure == self.should_configure,
            r.should_build == self.should_build,
            r.should_install == self.should_install,
    {
        BuildCommandBuilder { package_path: Some(package_path), ..self }
    }

    /// Sets the source-folder override.
    pub fn with_source_path(self, source_path: String) -> (r: Self)
        ensures
            r.source_path == Some(source_path),
            r.recipe_path == self.recipe_path,
            r.build_path == self.build_path,
            r.install_path == self.install_path,
            r.package_path == self.package_path,
            r.should_configure == self.should_configure,
            r.should_build == self.should_build,
            r.should_install == self.should_install,
    {
        BuildCommandBuilder { source_path: Some(source_path), ..self }
    }

    /// Sets the configure phase flag.
    pub fn should_configure(self, should_configure: bool) -> (r: Self)
        ensures
            r.should_configure == should_configure,
            r.recipe_path == self.recipe_path,
            r.build_path == self.build_path,
            r.install_path == self.install_path,
            r.package_path == self.package_path,
            r.source_path == self.source_path,
            r.should_build == self.should_build,
            r.should_install == self.should_install,
    {
        BuildCommandBuilder { should_configure, ..self }
    }

    /// Sets the build phase flag.
    pub fn should_build(self, should_build: bool) -> (r: Self)
        ensures
            r.should_build == should_build,
            r.recipe_path == self.recipe_path,
            r.build_path == self.build_path,
            r.install_path == self.install_path,
            r.package_path == self.package_path,
            r.source_path == self.source_path,
            r.should_configure == self.should_configure,
            r.should_install == self.should_install,
    {
        BuildCommandBuilder { should_build, ..self }
    }

    /// Sets the install phase flag.
    pub fn should_install(self, should_install: bool) -> (r: Self)
        ensures
            r.should_install == should_install,
            r.recipe_path == self.recipe_path,
            r.build_path == self.build_path,
            r.install_path == self.install_path,
            r.package_path == self.package_path,
            r.source_path == self.source_path,
            r.should_configure == self.should_configure,
            r.should_build == self.should_build,
    {
        BuildCommandBuilder { should_install, ..self }
    }

    /// Finalizes the accumulated configuration; an unset recipe path
    /// defaults to the current directory.
    pub fn build(self) -> (r: BuildCommand)
        ensures
            r@ == (BuildV {
                recipe_path: match self.recipe_path.deep_view() {
                    Some(p) => Some(p),
                    None => Some("."@),
                },
                build_path: self.build_path.deep_view(),
                install_path: self.install_path.deep_view(),
                package_path: self.package_path.deep_view(),
                source_path: self.source_path.deep_view(),
                should_configure: self.should_configure,
                should_build: self.should_build,
                should_install: self.should_install,
            }),
    {
        let recipe_path = match self.recipe_path {
            Some(p) => p,
            None => String::from_str("."),
        };
        BuildCommand {
            recipe_path: Some(recipe_path),
            build_path: self.build_path,
            install_path: self.install_path,
            package_path: self.package_path,
            source_path: self.source_path,
            should_configure: self.should_configure,
            should_build: self.should_build,
            should_install: self.should_install,
        }
    }
}

/// The exact token sequence a build configuration renders, for a set recipe
/// path.
pub open spec fn spec_build_args(c: BuildV) -> Seq<Seq<char>> {
    seq!["build"@] + (match c.recipe_path {
        Some(p) => seq![p],
        None => Seq::<Seq<char>>::empty(),
    }) + opt_flag_pair("--build-folder"@, c.build_path) + opt_flag_pair(
        "--install-folder"@,
        c.install_path,
    ) + opt_flag_pair("--package-folder"@, c.package_path) + opt_flag_pair(
        "--source-folder"@,
        c.source_path,
    ) + (if c.should_configure {
        seq!["--configure"@]
    } else {
        Seq::<Seq<char>>::empty()
    }) + (if c.should_build {
        seq!["--build"@]
    } else {
        Seq::<Seq<char>>::empty()
    }) + (if c.should_install {
        seq!["--install"@]
    } else {
        Seq::<Seq<char>>::empty()
    })
}

/// Law: rendering is pure and deterministic. Build configurations of equal
/// content render one and the same token sequence.
pub proof fn lemma_build_args_deterministic(a: BuildCommand, b: BuildCommand)
    requires
        a@ == b@,
    ensures
        spec_build_args(a@) == spec_build_args(b@),
{
}

impl BuildCommand {
    /// Renders the configuration into the exact argument vector of the
    /// `build` sub-command: the recipe path is required, the folder
    /// overrides follow in fixed order, then the phase flags.
    pub fn args(&self) -> (r: Result<Vec<String>, ConanBuildError>)
        ensures
            r is Ok <==> self@.recipe_path is Some,
            r matches Ok(v) ==> v.deep_view() == spec_build_args(self@),
            r matches Err(e) ==> e is MissingRecipePath,
    {
        let recipe = match &self.recipe_path {
            Some(p) => p,
            None => {
                return Err(ConanBuildError::MissingRecipePath);
            },
        };
        let mut out: Vec<String> = Vec::new();
        out.push(String::from_str("build"));
        out.push(recipe.clone());
        let ghost t0 = out.deep_view();
        proof {
            assert(t0 =~= seq!["build"@] + seq![recipe@]);
        }
        crate::install::push_flag_pair(&mut out, "--build-folder", &self.build_path);
        crate::install::push_flag_pair(&mut out, "--install-folder", &self.install_path);
        crate::install::push_flag_pair(&mut out, "--package-folder", &self.package_path);
        crate::install::push_flag_pair(&mut out, "--source-folder", &self.source_path);
        let ghost t1 = out.deep_view();
        if self.should_configure {
            out.push(String::from_str("--configure"));
            proof {
                assert(out.deep_view() =~= t1 + seq!["--configure"@]);
            }
        }
        let ghost t2 = out.deep_view();
        if self.should_build {
            out.push(String::from_str("--build"));
            proof {
                assert(out.deep_view() =~= t2 + seq!["--build"@]);
            }
        }
        let ghost t3 = out.deep_view();
        if self.should_install {
            out.push(String::from_str("--install"));
            proof {
                assert(out.deep_view() =~= t3 + seq!["--install"@]);
            }
        }
        proof {
            assert(out.deep_view() =~= spec_build_args(self@));
        }
        Ok(out)
    }
}

} // verus!
