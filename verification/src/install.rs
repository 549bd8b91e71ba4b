//! The `install` sub-command: configuration, builder, and argument
//! rendering, with the report file location it implies.

use vstd::prelude::*;
use vstd::string::StringExecFns;

use crate::settings::{settings_v_empty, spec_settings_args, BuildSettings, SettingsV};
use crate::strutil::str_eq;

verus! {

/// A failure of the install flow.
#[derive(Debug, Clone, PartialEq, Eq)]
pub enum ConanInstallError {
    /// The external program could not be found.
    ConanNotFound,
    /// Running the external program, or gathering what the run needs, failed.
    ConanInstallFailed(String),
    /// No output directory could be resolved.
    ConanInstallDirNotFound,
    /// Output of the external program was not valid UTF-8.
    Utf8Error(String),
    /// Any other failure, described in its message.
    Other(String),
}

/// Whether the external tool may build dependencies from source.
#[derive(Debug, Clone, Copy, PartialEq, Eq, Structural)]
pub enum BuildPolicy {
    Never,
    Always,
    Missing,
    Outdated,
}

/// The external signals the rendering consults: the build-mode signal, the
/// externally configured output location, and the current working directory
/// (absent when it cannot be read). An external collaborator resolves them
/// once and passes them in.
pub struct ProcessEnv {
    pub build_mode: Option<String>,
    pub out_dir: Option<String>,
    pub current_dir: Option<String>,
}

/// The mathematical content of a [`ProcessEnv`] value.
pub ghost struct ProcessEnvV {
    pub build_mode: Option<Seq<char>>,
    pub out_dir: Option<Seq<char>>,
    pub current_dir: Option<Seq<char>>,
}

impl View for ProcessEnv {
    type V = ProcessEnvV;

    open spec fn view(&self) -> ProcessEnvV {
        ProcessEnvV {
            build_mode: self.build_mode.deep_view(),
            out_dir: self.out_dir.deep_view(),
            current_dir: self.current_dir.deep_view(),
        }
    }
}

impl ProcessEnv {
    /// An environment with no signal set.
    pub fn empty() -> (r: Self)
        ensures
            r@ == (ProcessEnvV { build_mode: None, out_dir: None, current_dir: None }),
    {
        ProcessEnv { build_mode: None, out_dir: None, current_dir: None }
    }
}

/// An `install` invocation's configuration.
pub struct InstallCommand {
    pub profile_host: Option<String>,
    pub profile_build: Option<String>,
    pub remote: Option<String>,
    pub build_settings: BuildSettings,
    pub build_options: Option<Vec<String>>,
    pub build_policy: Option<BuildPolicy>,
    pub recipe_path: Option<String>,
    pub output_dir: Option<String>,
    pub update_check: bool,
}

/// The mathematical content of an [`InstallCommand`] value.
pub ghost struct InstallV {
    pub profile_host: Option<Seq<char>>,
    pub profile_build: Option<Seq<char>>,
    pub remote: Option<Seq<char>>,
    pub build_settings: SettingsV,
    pub build_options: Option<Seq<Seq<char>>>,
    pub build_policy: Option<BuildPolicy>,
    pub recipe_path: Option<Seq<char>>,
    pub output_dir: Option<Seq<char>>,
    pub update_check: bool,
}

impl View for InstallCommand {
    type V = InstallV;

    open spec fn view(&self) -> InstallV {
        InstallV {
            profile_host: self.profile_host.deep_view(),
            profile_build: self.profile_build.deep_view(),
            remote: self.remote.deep_view(),
            build_settings: self.build_settings@,
            build_options: match self.build_options {
                Some(opts) => Some(opts.deep_view()),
                None => None,
            },
            build_policy: self.build_policy,
            recipe_path: self.recipe_path.deep_view(),
            output_dir: self.output_dir.deep_view(),
            update_check: self.update_check,
        }
    }
}

/// An accumulator of `install` configuration, finalized by [`Self::build`].
pub struct InstallCommandBuilder {
    pub profile_host: Option<String>,
    pub profile_build: Option<String>,
    pub remote: Option<String>,
    pub build_settings: Option<BuildSettings>,
    pub build_options: Option<Vec<String>>,
    pub build_policy: Option<BuildPolicy>,
    pub recipe_path: Option<String>,
    pub output_dir: Option<String>,
    pub update_check: bool,
}

/// The mathematical content of an [`InstallCommandBuilder`] value.
pub ghost struct InstallBuilderV {
    pub profile_host: Option<Seq<char>>,
    pub profile_build: Option<Seq<char>>,
    pub remote: Option<Seq<char>>,
    pub build_settings: Option<SettingsV>,
    pub build_options: Option<Seq<Seq<char>>>,
    pub build_policy: Option<BuildPolicy>,
    pub recipe_path: Option<Seq<char>>,
    pub output_dir: Option<Seq<char>>,
    pub update_check: bool,
}

impl View for InstallCommandBuilder {
    type V = InstallBuilderV;

    open spec fn view(&self) -> InstallBuilderV {
        InstallBuilderV {
            profile_host: self.profile_host.deep_view(),
            profile_build: self.profile_build.deep_view(),
            remote: self.remote.deep_view(),
            build_settings: match self.build_settings {
                Some(s) => Some(s@),
                None => None,
            },
            build_options: match self.build_options {
                Some(opts) => Some(opts.deep_view()),
                None => None,
            },
            build_policy: self.build_policy,
            recipe_path: self.recipe_path.deep_view(),
            output_dir: self.output_dir.deep_view(),
            update_check: self.update_check,
        }
    }
}

/// The view of each string of a slice.
pub open spec fn strs_view(s: Seq<&str>) -> Seq<Seq<char>> {
    s.map_values(|x: &str| x@)
}

impl Default for InstallCommandBuilder {
    /// Same as [`InstallCommandBuilder::new`].
    fn default() -> (r: Self)
        ensures
            r@ == (InstallBuilderV {
                profile_host: None,
                profile_build: None,
                remote: None,
                build_settings: None,
                build_options: None,
                build_policy: None,
                recipe_path: None,
                output_dir: None,
                update_check: false,
            }),
    {
        InstallCommandBuilder::new()
    }
}

impl InstallCommandBuilder {
    /// A builder with nothing configured.
    pub fn new() -> (r: InstallCommandBuilder)
        ensures
            r@ == (InstallBuilderV {
                profile_host: None,
                profile_build: None,
                remote: None,
                build_settings: None,
                build_options: None,
                build_policy: None,
                recipe_path: None,
                output_dir: None,
                update_check: false,
            }),
    {
        InstallCommandBuilder {
            profile_host: None,
            profile_build: None,
            remote: None,
            build_settings: None,
            build_options: None,
            build_policy: None,
            recipe_path: None,
            output_dir: None,
            update_check: false,
        }
    }

    /// Applies the profile to the host machine.
    pub fn with_profile(self, profile: &str) -> (r: Self)
        ensures
            r@ == (InstallBuilderV { profile_host: Some(profile@), ..self@ }),
    {
        self.with_host_profile(profile)
    }

    /// Applies the profile to the host machine.
    pub fn with_host_profile(self, profile: &str) -> (r: Self)
        ensures
            r@ == (InstallBuilderV { profile_host: Some(profile@), ..self@ }),
    {
        InstallCommandBuilder { profile_host: Some(profile.to_owned()), ..self }
    }

    /// Applies the profile to the build machine.
    pub fn with_build_profile(self, profile: &str) -> (r: Self)
        ensures
            r@ == (InstallBuilderV { profile_build: Some(profile@), ..self@ }),
    {
        InstallCommandBuilder { profile_build: Some(profile.to_owned()), ..self }
    }

    /// Names the remote to resolve from.
    pub fn with_remote(self, remote: &str) -> (r: Self)
        ensures
            r@ == (InstallBuilderV { remote: Some(remote@), ..self@ }),
    {
        InstallCommandBuilder { remote: Some(remote.to_owned()), ..self }
    }

    /// Sets the toolchain settings.
    pub fn build_settings(self, build_settings: BuildSettings) -> (r: Self)
        ensures
            r@ == (InstallBuilderV { build_settings: Some(build_settings@), ..self@ }),
    {
        InstallCommandBuilder { build_settings: Some(build_settings), ..self }
    }

    /// Sets the build policy.
    pub fn build_policy(self, build_policy: BuildPolicy) -> (r: Self)
        ensures
            r@ == (InstallBuilderV { build_policy: Some(build_policy), ..self@ }),
    {
        InstallCommandBuilder { build_policy: Some(build_policy), ..self }
    }

    /// Appends free-form `-o` options, in the given order, to those already
    /// accumulated.
    pub fn with_options(self, opts: &[&str]) -> (r: Self)
        ensures
            r@ == (InstallBuilderV {
                build_options: Some(
                    (match self@.build_options {
                        Some(prior) => prior,
                        None => Seq::empty(),
                    }) + strs_view(opts@),
                ),
                ..self@
            }),
    {
        let mut accumulated: Vec<String> = match self.build_options {
            Some(v) => v,
            None => Vec::new(),
        };
        let ghost prior = accumulated.deep_view();
        let mut i: usize = 0;
        while i < opts.len()
            invariant
                i <= opts@.len(),
                accumulated.deep_view() == prior + strs_view(opts@).take(i as int),
            decreases opts@.len() - i,
        {
            let ghost pre = accumulated.deep_view();
            let opt: &str = opts[i];
            accumulated.push(opt.to_owned());
            proof {
                assert(accumulated.deep_view() =~= pre.push(opt@));
                assert(accumulated.deep_view() =~= prior + strs_view(opts@).take(i as int + 1));
            }
            i += 1;
        }
        proof {
            assert(strs_view(opts@).take(opts@.len() as int) =~= strs_view(opts@));
            assert(prior + strs_view(opts@) =~= accumulated.deep_view());
            if self.build_options is None {
                assert(Seq::<Seq<char>>::empty() + strs_view(opts@) =~= strs_view(opts@));
            }
        }
        InstallCommandBuilder { build_options: Some(accumulated), ..self }
    }

    /// Sets the recipe path.
    pub fn recipe_path(self, recipe_path: &str) -> (r: Self)
        ensures
            r@ == (InstallBuilderV { recipe_path: Some(recipe_path@), ..self@ }),
    {
        InstallCommandBuilder { recipe_path: Some(recipe_path.to_owned()), ..self }
    }

    /// Sets the output directory.
    pub fn output_dir(self, output_dir: &str) -> (r: Self)
        ensures
            r@ == (InstallBuilderV { output_dir: Some(output_dir@), ..self@ }),
    {
        InstallCommandBuilder { output_dir: Some(output_dir.to_owned()), ..self }
    }

    /// Asks the external tool to check the remote for updates.
    pub fn update_check(self) -> (r: Self)
        ensures
            r@ == (InstallBuilderV { update_check: true, ..self@ }),
    {
        InstallCommandBuilder { update_check: true, ..self }
    }

    /// Finalizes the accumulated configuration; unset settings become the
    /// empty settings.
    pub fn build(self) -> (r: InstallCommand)
        ensures
            r@ == (InstallV {
                profile_host: self@.profile_host,
                profile_build: self@.profile_build,
                remote: self@.remote,
                build_settings: match self@.build_settings {
                    Some(s) => s,
                    None => settings_v_empty(),
                },
                build_options: self@.build_options,
                build_policy: self@.build_policy,
                recipe_path: self@.recipe_path,
                output_dir: self@.output_dir,
                update_check: self@.update_check,
            }),
    {
        let build_settings = match self.build_settings {
            Some(s) => s,
            None => BuildSettings::new(),
        };
        InstallCommand {
            profile_host: self.profile_host,
            profile_build: self.profile_build,
            remote: self.remote,
            build_settings,
            build_options: self.build_options,
            build_policy: self.build_policy,
            recipe_path: self.recipe_path,
            output_dir: self.output_dir,
            update_check: self.update_check,
        }
    }
}

/// Tokens for one optional flag with a value.
pub open spec fn opt_flag_pair(flag: Seq<char>, v: Option<Seq<char>>) -> Seq<Seq<char>> {
    match v {
        Some(x) => seq![flag, x],
        None => seq![],
    }
}

/// Tokens for the build policy: `Always` is the bare flag, the others carry
/// their value.
pub open spec fn policy_tokens(p: Option<BuildPolicy>) -> Seq<Seq<char>> {
    match p {
        None => seq![],
        Some(BuildPolicy::Never) => seq!["-b"@, "never"@],
        Some(BuildPolicy::Always) => seq!["-b"@],
        Some(BuildPolicy::Missing) => seq!["-b"@, "missing"@],
        Some(BuildPolicy::Outdated) => seq!["-b"@, "outdated"@],
    }
}

/// Tokens for the free-form options: a `-o value` pair per option, in input
/// order.
pub open spec fn opt_pairs(os: Seq<Seq<char>>) -> Seq<Seq<char>>
    decreases os.len(),
{
    if os.len() == 0 {
        Seq::empty()
    } else {
        seq!["-o"@, os[0]] + opt_pairs(os.drop_first())
    }
}

/// Tokens for the accumulated options, none when none were given.
pub open spec fn options_tokens(opts: Option<Seq<Seq<char>>>) -> Seq<Seq<char>> {
    match opts {
        Some(os) => opt_pairs(os),
        None => Seq::empty(),
    }
}

/// The resolved output directory: the explicitly configured one, else the
/// external output-location signal, else the current working directory —
/// first available wins.
pub open spec fn resolved_output_dir(c: InstallV, e: ProcessEnvV) -> Option<Seq<char>> {
    if c.output_dir is Some {
        c.output_dir
    } else if e.out_dir is Some {
        e.out_dir
    } else {
        e.current_dir
    }
}

/// The output-directory tokens: the `-if` pair exactly when a directory
/// resolved and differs from the known current working directory.
pub open spec fn output_dir_tokens(c: InstallV, e: ProcessEnvV) -> Seq<Seq<char>> {
    match (resolved_output_dir(c, e), e.current_dir) {
        (Some(d), Some(cd)) => if d != cd {
            seq!["-if"@, d]
        } else {
            seq![]
        },
        _ => seq![],
    }
}

/// The trailing positional recipe token, when a recipe path is set.
pub open spec fn recipe_tokens(v: Option<Seq<char>>) -> Seq<Seq<char>> {
    match v {
        Some(p) => seq![p],
        None => seq![],
    }
}

/// The exact token sequence an install configuration renders, given the
/// external signals.
pub open spec fn spec_install_args(c: InstallV, e: ProcessEnvV) -> Seq<Seq<char>> {
    seq!["install"@, "-g"@, "json"@] + opt_flag_pair("--profile:host"@, c.profile_host)
        + opt_flag_pair("--profile:build"@, c.profile_build) + opt_flag_pair("-r"@, c.remote) + (
    if c.update_check {
        seq!["-u"@]
    } else {
        Seq::<Seq<char>>::empty()
    }) + policy_tokens(c.build_policy) + options_tokens(c.build_options) + output_dir_tokens(c, e)
        + spec_settings_args(c.build_settings, e.build_mode) + recipe_tokens(c.recipe_path)
}

/// Law: rendering is pure and deterministic. Install configurations of equal
/// content render, under equal external signals, one and the same token
/// sequence.
pub proof fn lemma_install_args_deterministic(
    a: InstallCommand,
    b: InstallCommand,
    ea: ProcessEnv,
    eb: ProcessEnv,
)
    requires
        a@ == b@,
        ea@ == eb@,
    ensures
        spec_install_args(a@, ea@) == spec_install_args(b@, eb@),
{
}

/// Law: output-directory de-duplication. When the resolved output directory
/// is the current working directory the `-if` pair is absent from the
/// rendering; when it differs, the pair carries the resolved directory; when
/// nothing resolves, there is no pair.
pub proof fn lemma_output_dir_dedup(c: InstallV, e: ProcessEnvV)
    ensures
        resolved_output_dir(c, e) is Some && resolved_output_dir(c, e) == e.current_dir
            ==> output_dir_tokens(c, e) == Seq::<Seq<char>>::empty(),
        match (resolved_output_dir(c, e), e.current_dir) {
            (Some(d), Some(cd)) => output_dir_tokens(c, e) == if d != cd {
                seq!["-if"@, d]
            } else {
                Seq::<Seq<char>>::empty()
            },
            _ => output_dir_tokens(c, e) == Seq::<Seq<char>>::empty(),
        },
        resolved_output_dir(c, e) is None ==> output_dir_tokens(c, e) == Seq::<Seq<char>>::empty(),
{
}

/// Appends an optional flag/value pair.
pub(crate) fn push_flag_pair(out: &mut Vec<String>, flag: &str, v: &Option<String>)
    ensures
        final(out).deep_view() == old(out).deep_view() + opt_flag_pair(flag@, v.deep_view()),
{
    match v {
        Some(x) => {
            out.push(flag.to_owned());
            out.push(x.clone());
            assert(out.deep_view() =~= old(out).deep_view() + opt_flag_pair(
                flag@,
                v.deep_view(),
            ));
        },
        None => {
            assert(out.deep_view() =~= old(out).deep_view() + opt_flag_pair(
                flag@,
                v.deep_view(),
            ));
        },
    }
}

/// One more option appends its `-o value` pair at the end.
proof fn lemma_opt_pairs_snoc(os: Seq<Seq<char>>, x: Seq<char>)
    ensures
        opt_pairs(os.push(x)) == opt_pairs(os) + seq!["-o"@, x],
    decreases os.len(),
{
    if os.len() == 0 {
        assert(os.push(x)[0] == x);
        assert(os.push(x).drop_first() =~= Seq::<Seq<char>>::empty());
        assert(opt_pairs(Seq::<Seq<char>>::empty()) == Seq::<Seq<char>>::empty());
        assert(seq!["-o"@, x] + Seq::<Seq<char>>::empty() =~= seq!["-o"@, x]);
        assert(opt_pairs(os) + seq!["-o"@, x] =~= seq!["-o"@, x]);
    } else {
        assert(os.push(x)[0] == os[0]);
        assert(os.push(x).drop_first() =~= os.drop_first().push(x));
        lemma_opt_pairs_snoc(os.drop_first(), x);
        assert(seq!["-o"@, os[0]] + (opt_pairs(os.drop_first()) + seq!["-o"@, x]) =~= (seq![
            "-o"@,
            os[0],
        ] + opt_pairs(os.drop_first())) + seq!["-o"@, x]);
    }
}

/// Appends a `-o value` pair for each option.
fn push_options(out: &mut Vec<String>, opts: &Vec<String>)
    ensures
        final(out).deep_view() == old(out).deep_view() + opt_pairs(opts.deep_view()),
{
    let mut i: usize = 0;
    while i < opts.len()
        invariant
            i <= opts@.len(),
            out.deep_view() == old(out).deep_view() + opt_pairs(opts.deep_view().take(i as int)),
        decreases opts@.len() - i,
    {
        let ghost pre = out.deep_view();
        out.push(String::from_str("-o"));
        out.push(opts[i].clone());
        proof {
            lemma_opt_pairs_snoc(opts.deep_view().take(i as int), opts.deep_view()[i as int]);
            assert(opts.deep_view().take(i as int).push(opts.deep_view()[i as int])
                =~= opts.deep_view().take(i as int + 1));
            assert(out.deep_view() =~= pre.push("-o"@).push(opts.deep_view()[i as int]));
            assert(out.deep_view() =~= old(out).deep_view() + opt_pairs(
                opts.deep_view().take(i as int + 1),
            ));
        }
        i += 1;
    }
    proof {
        assert(opts.deep_view().take(opts.deep_view().len() as int) =~= opts.deep_view());
    }
}

impl InstallCommand {
    /// Renders the configuration into the exact argument vector of the
    /// `install` sub-command, in the fixed token order. Fails only when a
    /// directory resolved but the current working directory is unknown, so
    /// the de-duplication rule cannot be applied.
    pub fn args(&self, env: &ProcessEnv) -> (r: Result<Vec<String>, ConanInstallError>)
        ensures
            r is Ok <==> !(resolved_output_dir(self@, env@) is Some && env@.current_dir is None),
            r matches Ok(v) ==> v.deep_view() == spec_install_args(self@, env@),
            r matches Err(e) ==> e is ConanInstallFailed,
    {
        let mut out: Vec<String> = Vec::new();
        out.push(String::from_str("install"));
        out.push(String::from_str("-g"));
        out.push(String::from_str("json"));
        proof {
            assert(out.deep_view() =~= seq!["install"@, "-g"@, "json"@]);
        }
        let ghost t0 = out.deep_view();
        push_flag_pair(&mut out, "--profile:host", &self.profile_host);
        push_flag_pair(&mut out, "--profile:build", &self.profile_build);
        push_flag_pair(&mut out, "-r", &self.remote);
        let ghost t1 = out.deep_view();
        if self.update_check {
            out.push(String::from_str("-u"));
            proof {
                assert(out.deep_view() =~= t1.push("-u"@));
                assert(out.deep_view() =~= t1 + seq!["-u"@]);
            }
        } else {
            proof {
                assert(out.deep_view() =~= t1 + Seq::<Seq<char>>::empty());
            }
        }
        let ghost t2 = out.deep_view();
        match &self.build_policy {
            Some(BuildPolicy::Never) => {
                out.push(String::from_str("-b"));
                out.push(String::from_str("never"));
            },
            Some(BuildPolicy::Always) => {
                out.push(String::from_str("-b"));
            },
            Some(BuildPolicy::Missing) => {
                out.push(String::from_str("-b"));
                out.push(String::from_str("missing"));
            },
            Some(BuildPolicy::Outdated) => {
                out.push(String::from_str("-b"));
                out.push(String::from_str("outdated"));
            },
            None => {},
        }
        proof {
            assert(out.deep_view() =~= t2 + policy_tokens(self@.build_policy));
        }
        let ghost t3 = out.deep_view();
        match &self.build_options {
            Some(opts) => {
                push_options(&mut out, opts);
            },
            None => {},
        }
        proof {
            assert(out.deep_view() =~= t3 + options_tokens(self@.build_options));
        }
        let ghost t4 = out.deep_view();
        let resolved: Option<&String> = if self.output_dir.is_some() {
            self.output_dir.as_ref()
        } else if env.out_dir.is_some() {
            env.out_dir.as_ref()
        } else {
            env.current_dir.as_ref()
        };
        match resolved {
            Some(d) => match &env.current_dir {
                Some(cd) => {
                    if !str_eq(d.as_str(), cd.as_str()) {
                        out.push(String::from_str("-if"));
                        out.push(d.clone());
                    }
                },
                None => {
                    return Err(
                        ConanInstallError::ConanInstallFailed(
                            String::from_str("the current directory could not be read"),
                        ),
                    );
                },
            },
            None => {},
        }
        proof {
            assert(out.deep_view() =~= t4 + output_dir_tokens(self@, env@));
        }
        let ghost t5 = out.deep_view();
        let build_mode: Option<&str> = match &env.build_mode {
            Some(m) => Some(m.as_str()),
            None => None,
        };
        let mut settings_args = self.build_settings.args(build_mode);
        out.append(&mut settings_args);
        proof {
            assert(out.deep_view() =~= t5 + spec_settings_args(
                self@.build_settings,
                env@.build_mode,
            ));
        }
        let ghost t6 = out.deep_view();
        match &self.recipe_path {
            Some(p) => {
                out.push(p.clone());
            },
            None => {},
        }
        proof {
            assert(out.deep_view() =~= t6 + recipe_tokens(self@.recipe_path));
            assert(out.deep_view() =~= spec_install_args(self@, env@));
        }
        Ok(out)
    }

    /// The resolved output directory, by the first-available-wins rule.
    pub fn output_dir(&self, env: &ProcessEnv) -> (r: Option<String>)
        ensures
            r.deep_view() == resolved_output_dir(self@, env@),
    {
        if let Some(d) = &self.output_dir {
            Some(d.clone())
        } else if let Some(d) = &env.out_dir {
            Some(d.clone())
        } else if let Some(d) = &env.current_dir {
            Some(d.clone())
        } else {
            None
        }
    }

    /// Where the external tool writes its report: the fixed file name inside
    /// the resolved output directory.
    pub fn output_file(&self, env: &ProcessEnv) -> (r: Option<String>)
        ensures
            match resolved_output_dir(self@, env@) {
                Some(d) => r.deep_view() == Some(
                    crate::strutil::spec_path_join(d, "conanbuildinfo.json"@),
                ),
                None => r is None,
            },
    {
        match self.output_dir(env) {
            Some(d) => Some(crate::strutil::path_join(d.as_str(), "conanbuildinfo.json")),
            None => None,
        }
    }
}

} // verus!
