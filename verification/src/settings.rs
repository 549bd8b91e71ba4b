//! Toolchain settings (architecture, OS, compiler, build type) and their
//! rendering into `-s key=value` argument pairs.

use vstd::prelude::*;
use vstd::string::StringExecFns;

use crate::strutil::{concat_strs, is_prefix, str_eq, str_starts_with};
use vstd::string::StrSliceExecFns;

verus! {

/// A CMake-style build type accepted by the external tool.
#[derive(Clone, Copy, PartialEq, Eq, Structural, Debug)]
pub enum BuildType {
    NoneType,
    Debug,
    Release,
    RelWithDebInfo,
    MinSizeRel,
}

impl BuildType {
    /// The canonical textual name of the build type.
    pub fn as_str(&self) -> (r: &str)
        ensures
            self is NoneType ==> r@ == "None"@,
            self is Debug ==> r@ == "Debug"@,
            self is Release ==> r@ == "Release"@,
            self is RelWithDebInfo ==> r@ == "RelWithDebInfo"@,
            self is MinSizeRel ==> r@ == "MinSizeRel"@,
    {
        match self {
            BuildType::NoneType => "None",
            BuildType::Debug => "Debug",
            BuildType::Release => "Release",
            BuildType::RelWithDebInfo => "RelWithDebInfo",
            BuildType::MinSizeRel => "MinSizeRel",
        }
    }
}

/// Toolchain settings; every field is optional, and an absent field is
/// omitted from the rendered arguments.
pub struct BuildSettings {
    pub arch: Option<String>,
    pub arch_build: Option<String>,
    pub build_type: Option<String>,
    pub compiler: Option<String>,
    pub compiler_libcxx: Option<String>,
    pub compiler_version: Option<String>,
    pub os: Option<String>,
    pub os_build: Option<String>,
}

/// The mathematical content of a [`BuildSettings`] value.
pub ghost struct SettingsV {
    pub arch: Option<Seq<char>>,
    pub arch_build: Option<Seq<char>>,
    pub build_type: Option<Seq<char>>,
    pub compiler: Option<Seq<char>>,
    pub compiler_libcxx: Option<Seq<char>>,
    pub compiler_version: Option<Seq<char>>,
    pub os: Option<Seq<char>>,
    pub os_build: Option<Seq<char>>,
}

impl View for BuildSettings {
    type V = SettingsV;

    open spec fn view(&self) -> SettingsV {
        SettingsV {
            arch: self.arch.deep_view(),
            arch_build: self.arch_build.deep_view(),
            build_type: self.build_type.deep_view(),
            compiler: self.compiler.deep_view(),
            compiler_libcxx: self.compiler_libcxx.deep_view(),
            compiler_version: self.compiler_version.deep_view(),
            os: self.os.deep_view(),
            os_build: self.os_build.deep_view(),
        }
    }
}

/// All fields absent.
pub open spec fn settings_v_empty() -> SettingsV {
    SettingsV {
        arch: None,
        arch_build: None,
        build_type: None,
        compiler: None,
        compiler_libcxx: None,
        compiler_version: None,
        os: None,
        os_build: None,
    }
}

/// Tokens rendered for one setting: nothing when absent, the flag `-s`
/// followed by `key=value` when present. `key_eq` is the key with its
/// trailing `=` sign.
pub open spec fn setting_pair(key_eq: Seq<char>, v: Option<Seq<char>>) -> Seq<Seq<char>> {
    match v {
        Some(x) => seq!["-s"@, key_eq + x],
        None => seq![],
    }
}

/// The build type actually rendered: the configured one when set, otherwise
/// one derived from the external build-mode signal (`debug` or `release`),
/// otherwise nothing.
pub open spec fn effective_build_type(
    bt: Option<Seq<char>>,
    build_mode: Option<Seq<char>>,
) -> Option<Seq<char>> {
    if bt is Some {
        bt
    } else if build_mode == Some("debug"@) {
        Some("Debug"@)
    } else if build_mode == Some("release"@) {
        Some("Release"@)
    } else {
        None
    }
}

/// The exact token sequence rendered for a settings value, given the
/// external build-mode signal.
pub open spec fn spec_settings_args(s: SettingsV, build_mode: Option<Seq<char>>) -> Seq<
    Seq<char>,
> {
    setting_pair("arch="@, s.arch) + (setting_pair("arch_build="@, s.arch_build) + (setting_pair(
        "build_type="@,
        effective_build_type(s.build_type, build_mode),
    ) + (setting_pair("compiler="@, s.compiler) + (setting_pair(
        "compiler.libcxx="@,
        s.compiler_libcxx,
    ) + (setting_pair("compiler.version="@, s.compiler_version) + (setting_pair("os="@, s.os)
        + setting_pair("os_build="@, s.os_build)))))))
}

/// Appends the rendered pair of one setting to `out`.
fn push_setting(out: &mut Vec<String>, key_eq: &str, v: &Option<String>)
    ensures
        final(out).deep_view() == old(out).deep_view() + setting_pair(key_eq@, v.deep_view()),
{
    match v {
        Some(x) => {
            out.push(String::from_str("-s"));
            out.push(concat_strs(key_eq, x.as_str()));
            assert(out.deep_view() =~= old(out).deep_view() + setting_pair(
                key_eq@,
                v.deep_view(),
            ));
        },
        None => {
            assert(out.deep_view() =~= old(out).deep_view() + setting_pair(
                key_eq@,
                v.deep_view(),
            ));
        },
    }
}

impl BuildSettings {
    /// A settings value with every field absent.
    pub fn new() -> (r: Self)
        ensures
            r@ == settings_v_empty(),
    {
        BuildSettings {
            arch: None,
            arch_build: None,
            build_type: None,
            compiler: None,
            compiler_libcxx: None,
            compiler_version: None,
            os: None,
            os_build: None,
        }
    }

    /// The build type to render, applying the build-mode fallback when the
    /// field is unset.
    fn detected_build_type(&self, build_mode: Option<&str>) -> (r: Option<String>)
        ensures
            r.deep_view() == effective_build_type(self@.build_type, build_mode.deep_view()),
    {
        match &self.build_type {
            Some(b) => Some(b.clone()),
            None => match build_mode {
                Some(m) => {
                    if str_eq(m, "debug") {
                        Some(String::from_str("Debug"))
                    } else if str_eq(m, "release") {
                        Some(String::from_str("Release"))
                    } else {
                        None
                    }
                },
                None => None,
            },
        }
    }

    /// Renders the settings into `-s key=value` pairs, in the fixed field
    /// order. `build_mode` is the external build-mode signal consulted when
    /// the build type is unset.
    #[verifier::rlimit(30)]
    pub fn args(&self, build_mode: Option<&str>) -> (r: Vec<String>)
        ensures
            r.deep_view() == spec_settings_args(self@, build_mode.deep_view()),
    {
        let mut out: Vec<String> = Vec::new();
        proof {
            assert(out.deep_view() =~= Seq::<Seq<char>>::empty());
        }
        let detected = self.detected_build_type(build_mode);
        push_setting(&mut out, "arch=", &self.arch);
        push_setting(&mut out, "arch_build=", &self.arch_build);
        push_setting(&mut out, "build_type=", &detected);
        push_setting(&mut out, "compiler=", &self.compiler);
        push_setting(&mut out, "compiler.libcxx=", &self.compiler_libcxx);
        push_setting(&mut out, "compiler.version=", &self.compiler_version);
        push_setting(&mut out, "os=", &self.os);
        push_setting(&mut out, "os_build=", &self.os_build);
        proof {
            assert(out.deep_view() =~= spec_settings_args(self@, build_mode.deep_view()));
        }
        out
    }

    /// Sets the target architecture.
    pub fn arch(self, arch: String) -> (r: Self)
        ensures
            r@ == (SettingsV { arch: Some(arch@), ..self@ }),
    {
        BuildSettings { arch: Some(arch), ..self }
    }

    /// Sets the architecture of the build machine.
    pub fn arch_build(self, arch_build: String) -> (r: Self)
        ensures
            r@ == (SettingsV { arch_build: Some(arch_build@), ..self@ }),
    {
        BuildSettings { arch_build: Some(arch_build), ..self }
    }

    /// Sets the build type.
    pub fn build_type(self, build_type: BuildType) -> (r: Self)
        ensures
            r@ == (SettingsV { build_type: Some(build_type.as_str_view()), ..self@ }),
    {
        let s = String::from_str(build_type.as_str());
        BuildSettings { build_type: Some(s), ..self }
    }

    /// Sets the compiler.
    pub fn compiler(self, compiler: String) -> (r: Self)
        ensures
            r@ == (SettingsV { compiler: Some(compiler@), ..self@ }),
    {
        BuildSettings { compiler: Some(compiler), ..self }
    }

    /// Sets the compiler's C++ runtime library.
    pub fn compiler_libcxx(self, compiler_libcxx: String) -> (r: Self)
        ensures
            r@ == (SettingsV { compiler_libcxx: Some(compiler_libcxx@), ..self@ }),
    {
        BuildSettings { compiler_libcxx: Some(compiler_libcxx), ..self }
    }

    /// Sets the compiler version.
    pub fn compiler_version(self, compiler_version: String) -> (r: Self)
        ensures
            r@ == (SettingsV { compiler_version: Some(compiler_version@), ..self@ }),
    {
        BuildSettings { compiler_version: Some(compiler_version), ..self }
    }

    /// Sets the target operating system.
    pub fn os(self, os: String) -> (r: Self)
        ensures
            r@ == (SettingsV { os: Some(os@), ..self@ }),
    {
        BuildSettings { os: Some(os), ..self }
    }

    /// Sets the operating system of the build machine.
    pub fn os_build(self, os_build: String) -> (r: Self)
        ensures
            r@ == (SettingsV { os_build: Some(os_build@), ..self@ }),
    {
        BuildSettings { os_build: Some(os_build), ..self }
    }
}

impl BuildType {
    /// The view of [`BuildType::as_str`]'s result.
    pub open spec fn as_str_view(&self) -> Seq<char> {
        match self {
            BuildType::NoneType => "None"@,
            BuildType::Debug => "Debug"@,
            BuildType::Release => "Release"@,
            BuildType::RelWithDebInfo => "RelWithDebInfo"@,
            BuildType::MinSizeRel => "MinSizeRel"@,
        }
    }
}

impl Default for BuildSettings {
    /// Same as [`BuildSettings::new`].
    fn default() -> (r: Self)
        ensures
            r@ == settings_v_empty(),
    {
        BuildSettings::new()
    }
}

/// The value read back from rendered tokens for one key: the remainder of
/// the first token that starts with `key_eq`, if any.
pub open spec fn spec_read_setting(toks: Seq<Seq<char>>, key_eq: Seq<char>) -> Option<Seq<char>>
    decreases toks.len(),
{
    if toks.len() == 0 {
        None
    } else if is_prefix(key_eq, toks[0]) {
        Some(toks[0].skip(key_eq.len() as int))
    } else {
        spec_read_setting(toks.drop_first(), key_eq)
    }
}

/// Reads one setting back out of a rendered token list: the remainder of the
/// first token that starts with `key_eq`.
pub fn read_setting(args: &Vec<String>, key_eq: &str) -> (r: Option<String>)
    ensures
        r.deep_view() == spec_read_setting(args.deep_view(), key_eq@),
{
    let klen = key_eq.unicode_len();
    let mut i: usize = 0;
    while i < args.len()
        invariant
            i <= args@.len(),
            klen == key_eq@.len(),
            forall|k: int| 0 <= k < i ==> !is_prefix(key_eq@, args.deep_view()[k]),
        decreases args@.len() - i,
    {
        let t: &str = args[i].as_str();
        if str_starts_with(t, key_eq) {
            let tlen = t.unicode_len();
            let rest = t.substring_char(klen, tlen);
            proof {
                lemma_read_skip(args.deep_view(), key_eq@, i as int);
                assert(rest@ =~= args.deep_view()[i as int].skip(key_eq@.len() as int));
                assert(args.deep_view().skip(i as int)[0] == args.deep_view()[i as int]);
            }
            return Some(String::from_str(rest));
        }
        i += 1;
    }
    proof {
        lemma_read_skip(args.deep_view(), key_eq@, args.deep_view().len() as int);
        assert(args.deep_view().skip(args.deep_view().len() as int) =~= Seq::<Seq<char>>::empty());
    }
    None
}

/// Reading a token list whose first `i` tokens match nothing is reading its
/// remainder.
proof fn lemma_read_skip(toks: Seq<Seq<char>>, key_eq: Seq<char>, i: int)
    requires
        0 <= i <= toks.len(),
        forall|k: int| 0 <= k < i ==> !is_prefix(key_eq, toks[k]),
    ensures
        spec_read_setting(toks, key_eq) == spec_read_setting(toks.skip(i), key_eq),
    decreases i,
{
    if i > 0 {
        assert(toks.skip(0) =~= toks);
        assert(toks.drop_first() =~= toks.skip(1));
        lemma_read_skip(toks.skip(1), key_eq, i - 1);
        assert(toks.skip(1).skip(i - 1) =~= toks.skip(i));
    } else {
        assert(toks.skip(0) =~= toks);
    }
}

/// Reading a concatenation: the left part answers when it holds a matching
/// token, otherwise the right part does.
proof fn lemma_read_concat(a: Seq<Seq<char>>, b: Seq<Seq<char>>, key_eq: Seq<char>)
    ensures
        spec_read_setting(a + b, key_eq) == if (exists|i: int|
            0 <= i < a.len() && is_prefix(key_eq, a[i])) {
            spec_read_setting(a, key_eq)
        } else {
            spec_read_setting(b, key_eq)
        },
    decreases a.len(),
{
    if a.len() == 0 {
        assert(a + b =~= b);
    } else if is_prefix(key_eq, a[0]) {
        assert((a + b)[0] == a[0]);
    } else {
        assert((a + b)[0] == a[0]);
        assert((a + b).drop_first() =~= a.drop_first() + b);
        lemma_read_concat(a.drop_first(), b, key_eq);
        if exists|i: int| 0 <= i < a.len() && is_prefix(key_eq, a[i]) {
            let i = choose|i: int| 0 <= i < a.len() && is_prefix(key_eq, a[i]);
            assert(a.drop_first()[i - 1] == a[i]);
        }
    }
}

/// A key with its trailing `=`: the `=` ends it and occurs nowhere else.
pub open spec fn clean_key(k: Seq<char>) -> bool {
    k.len() >= 1 && k[k.len() - 1] == '=' && (forall|p: int| 0 <= p < k.len() - 1 ==> k[p] != '=')
}

/// A clean key is never a prefix of a token rendered for a different clean
/// key, whatever the value.
proof fn lemma_clean_keys_not_prefix(ki: Seq<char>, kj: Seq<char>, x: Seq<char>)
    requires
        clean_key(ki),
        clean_key(kj),
        ki != kj,
    ensures
        !is_prefix(ki, kj + x),
{
    if is_prefix(ki, kj + x) {
        let t = kj + x;
        let pre = t.subrange(0, ki.len() as int);
        if ki.len() < kj.len() {
            assert(pre[ki.len() - 1] == kj[ki.len() - 1]);
            assert(ki[ki.len() - 1] == '=');
        } else if ki.len() > kj.len() {
            assert(pre[kj.len() - 1] == kj[kj.len() - 1]);
            assert(ki[kj.len() - 1] != '=');
        } else {
            assert(forall|p: int| 0 <= p < ki.len() ==> pre[p] == kj[p]);
            assert(ki =~= kj);
        }
    }
}

/// No token rendered for a different clean key matches `ki`; the segment of
/// `ki` itself reads back exactly its value.
proof fn lemma_segment_reads(ki: Seq<char>, kj: Seq<char>, v: Option<Seq<char>>)
    requires
        clean_key(ki),
        clean_key(kj),
    ensures
        ki != kj ==> forall|t: int|
            0 <= t < setting_pair(kj, v).len() ==> !is_prefix(ki, setting_pair(kj, v)[t]),
        ki != kj ==> spec_read_setting(setting_pair(kj, v), ki) == None::<Seq<char>>,
        ki == kj && v is Some ==> is_prefix(ki, setting_pair(kj, v)[1]),
        spec_read_setting(setting_pair(ki, v), ki) == v,
{
    reveal_strlit("-s");
    assert(!is_prefix(ki, "-s"@));
    match v {
        Some(x) => {
            if ki != kj {
                lemma_clean_keys_not_prefix(ki, kj, x);
                let q = setting_pair(kj, v);
                assert(q.len() == 2 && q[0] == "-s"@ && q[1] == kj + x);
                assert(spec_read_setting(q, ki) == spec_read_setting(q.drop_first(), ki));
                assert(q.drop_first()[0] == kj + x);
                assert(spec_read_setting(q.drop_first(), ki) == spec_read_setting(
                    q.drop_first().drop_first(),
                    ki,
                ));
                assert(q.drop_first().drop_first() =~= Seq::<Seq<char>>::empty());
            }
            assert((ki + x).subrange(0, ki.len() as int) =~= ki);
            assert(is_prefix(ki, ki + x));
            let p = setting_pair(ki, v);
            assert(p.len() == 2 && p[0] == "-s"@ && p[1] == ki + x);
            assert(spec_read_setting(p, ki) == spec_read_setting(p.drop_first(), ki));
            assert(p.drop_first()[0] == ki + x);
            assert(spec_read_setting(p.drop_first(), ki) == Some(
                (ki + x).skip(ki.len() as int),
            ));
            assert((ki + x).skip(ki.len() as int) =~= x);
        },
        None => {},
    }
}

/// A token list without a matching token reads back nothing.
proof fn lemma_read_no_match(toks: Seq<Seq<char>>, ki: Seq<char>)
    requires
        forall|t: int| 0 <= t < toks.len() ==> !is_prefix(ki, toks[t]),
    ensures
        spec_read_setting(toks, ki) == None::<Seq<char>>,
{
    lemma_read_skip(toks, ki, toks.len() as int);
    assert(toks.skip(toks.len() as int) =~= Seq::<Seq<char>>::empty());
}

/// Law: rendering is pure and deterministic. Settings of equal content,
/// rendered under one build-mode signal, give one and the same token
/// sequence.
pub proof fn lemma_settings_args_deterministic(
    a: BuildSettings,
    b: BuildSettings,
    build_mode: Option<Seq<char>>,
)
    requires
        a@ == b@,
    ensures
        spec_settings_args(a@, build_mode) == spec_settings_args(b@, build_mode),
{
}


/// Two token lists without a matching token concatenate to one.
proof fn lemma_no_match_concat(a: Seq<Seq<char>>, b: Seq<Seq<char>>, ki: Seq<char>)
    requires
        forall|t: int| 0 <= t < a.len() ==> !is_prefix(ki, a[t]),
        forall|t: int| 0 <= t < b.len() ==> !is_prefix(ki, b[t]),
    ensures
        forall|t: int| 0 <= t < (a + b).len() ==> !is_prefix(ki, #[trigger] (a + b)[t]),
{
    assert forall|t: int| 0 <= t < (a + b).len() implies !is_prefix(ki, #[trigger] (a + b)[t]) by {
        if t < a.len() {
            assert((a + b)[t] == a[t]);
        } else {
            assert((a + b)[t] == b[t - a.len()]);
        }
    }
}

/// Round trip of the `arch` field.
proof fn lemma_round_trip_key_1(s: SettingsV, build_mode: Option<Seq<char>>)
    ensures
        spec_read_setting(spec_settings_args(s, build_mode), "arch="@) == s.arch,
{
    lemma_keys_clean();
    lemma_keys_pairwise_distinct();
    let ki = "arch="@;
    let q1 = setting_pair("arch="@, s.arch);
    let q2 = setting_pair("arch_build="@, s.arch_build);
    let q3 = setting_pair("build_type="@, effective_build_type(s.build_type, build_mode));
    let q4 = setting_pair("compiler="@, s.compiler);
    let q5 = setting_pair("compiler.libcxx="@, s.compiler_libcxx);
    let q6 = setting_pair("compiler.version="@, s.compiler_version);
    let q7 = setting_pair("os="@, s.os);
    let q8 = setting_pair("os_build="@, s.os_build);
    let r7 = q8;
    let r6 = q7 + r7;
    let r5 = q6 + r6;
    let r4 = q5 + r5;
    let r3 = q4 + r4;
    let r2 = q3 + r3;
    let r1 = q2 + r2;
    assert(spec_settings_args(s, build_mode) == q1 + r1);
    lemma_segment_reads(ki, "arch="@, s.arch);
    lemma_segment_reads(ki, "arch_build="@, s.arch_build);
    lemma_segment_reads(ki, "build_type="@, effective_build_type(s.build_type, build_mode));
    lemma_segment_reads(ki, "compiler="@, s.compiler);
    lemma_segment_reads(ki, "compiler.libcxx="@, s.compiler_libcxx);
    lemma_segment_reads(ki, "compiler.version="@, s.compiler_version);
    lemma_segment_reads(ki, "os="@, s.os);
    lemma_segment_reads(ki, "os_build="@, s.os_build);
    match s.arch {
        Some(x) => {
            assert(is_prefix(ki, q1[1]));
            lemma_read_concat(q1, r1, ki);
        },
        None => {
            assert(forall|t: int| 0 <= t < q1.len() ==> !is_prefix(ki, #[trigger] q1[t]));
            assert(forall|t: int| 0 <= t < q2.len() ==> !is_prefix(ki, #[trigger] q2[t]));
            assert(forall|t: int| 0 <= t < q3.len() ==> !is_prefix(ki, #[trigger] q3[t]));
            assert(forall|t: int| 0 <= t < q4.len() ==> !is_prefix(ki, #[trigger] q4[t]));
            assert(forall|t: int| 0 <= t < q5.len() ==> !is_prefix(ki, #[trigger] q5[t]));
            assert(forall|t: int| 0 <= t < q6.len() ==> !is_prefix(ki, #[trigger] q6[t]));
            assert(forall|t: int| 0 <= t < q7.len() ==> !is_prefix(ki, #[trigger] q7[t]));
            assert(forall|t: int| 0 <= t < q8.len() ==> !is_prefix(ki, #[trigger] q8[t]));
            lemma_no_match_concat(q7, r7, ki);
            lemma_no_match_concat(q6, r6, ki);
            lemma_no_match_concat(q5, r5, ki);
            lemma_no_match_concat(q4, r4, ki);
            lemma_no_match_concat(q3, r3, ki);
            lemma_no_match_concat(q2, r2, ki);
            lemma_no_match_concat(q1, r1, ki);
            lemma_read_no_match(q1 + r1, ki);
        },
    }
}

/// Round trip of the `arch_build` field.
proof fn lemma_round_trip_key_2(s: SettingsV, build_mode: Option<Seq<char>>)
    ensures
        spec_read_setting(spec_settings_args(s, build_mode), "arch_build="@) == s.arch_build,
{
    lemma_keys_clean();
    lemma_keys_pairwise_distinct();
    let ki = "arch_build="@;
    let q1 = setting_pair("arch="@, s.arch);
    let q2 = setting_pair("arch_build="@, s.arch_build);
    let q3 = setting_pair("build_type="@, effective_build_type(s.build_type, build_mode));
    let q4 = setting_pair("compiler="@, s.compiler);
    let q5 = setting_pair("compiler.libcxx="@, s.compiler_libcxx);
    let q6 = setting_pair("compiler.version="@, s.compiler_version);
    let q7 = setting_pair("os="@, s.os);
    let q8 = setting_pair("os_build="@, s.os_build);
    let r7 = q8;
    let r6 = q7 + r7;
    let r5 = q6 + r6;
    let r4 = q5 + r5;
    let r3 = q4 + r4;
    let r2 = q3 + r3;
    let r1 = q2 + r2;
    assert(spec_settings_args(s, build_mode) == q1 + r1);
    lemma_segment_reads(ki, "arch="@, s.arch);
    lemma_segment_reads(ki, "arch_build="@, s.arch_build);
    lemma_segment_reads(ki, "build_type="@, effective_build_type(s.build_type, build_mode));
    lemma_segment_reads(ki, "compiler="@, s.compiler);
    lemma_segment_reads(ki, "compiler.libcxx="@, s.compiler_libcxx);
    lemma_segment_reads(ki, "compiler.version="@, s.compiler_version);
    lemma_segment_reads(ki, "os="@, s.os);
    lemma_segment_reads(ki, "os_build="@, s.os_build);
    match s.arch_build {
        Some(x) => {
            assert(!(exists|t: int| 0 <= t < q1.len() && is_prefix(ki, q1[t])));
            lemma_read_concat(q1, r1, ki);
            assert(is_prefix(ki, q2[1]));
            lemma_read_concat(q2, r2, ki);
        },
        None => {
            assert(forall|t: int| 0 <= t < q1.len() ==> !is_prefix(ki, #[trigger] q1[t]));
            assert(forall|t: int| 0 <= t < q2.len() ==> !is_prefix(ki, #[trigger] q2[t]));
            assert(forall|t: int| 0 <= t < q3.len() ==> !is_prefix(ki, #[trigger] q3[t]));
            assert(forall|t: int| 0 <= t < q4.len() ==> !is_prefix(ki, #[trigger] q4[t]));
            assert(forall|t: int| 0 <= t < q5.len() ==> !is_prefix(ki, #[trigger] q5[t]));
            assert(forall|t: int| 0 <= t < q6.len() ==> !is_prefix(ki, #[trigger] q6[t]));
            assert(forall|t: int| 0 <= t < q7.len() ==> !is_prefix(ki, #[trigger] q7[t]));
            assert(forall|t: int| 0 <= t < q8.len() ==> !is_prefix(ki, #[trigger] q8[t]));
            lemma_no_match_concat(q7, r7, ki);
            lemma_no_match_concat(q6, r6, ki);
            lemma_no_match_concat(q5, r5, ki);
            lemma_no_match_concat(q4, r4, ki);
            lemma_no_match_concat(q3, r3, ki);
            lemma_no_match_concat(q2, r2, ki);
            lemma_no_match_concat(q1, r1, ki);
            lemma_read_no_match(q1 + r1, ki);
        },
    }
}

/// Round trip of the `build_type` field.
proof fn lemma_round_trip_key_3(s: SettingsV, build_mode: Option<Seq<char>>)
    ensures
        spec_read_setting(spec_settings_args(s, build_mode), "build_type="@) == effective_build_type(s.build_type, build_mode),
{
    lemma_keys_clean();
    lemma_keys_pairwise_distinct();
    let ki = "build_type="@;
    let q1 = setting_pair("arch="@, s.arch);
    let q2 = setting_pair("arch_build="@, s.arch_build);
    let q3 = setting_pair("build_type="@, effective_build_type(s.build_type, build_mode));
    let q4 = setting_pair("compiler="@, s.compiler);
    let q5 = setting_pair("compiler.libcxx="@, s.compiler_libcxx);
    let q6 = setting_pair("compiler.version="@, s.compiler_version);
    let q7 = setting_pair("os="@, s.os);
    let q8 = setting_pair("os_build="@, s.os_build);
    let r7 = q8;
    let r6 = q7 + r7;
    let r5 = q6 + r6;
    let r4 = q5 + r5;
    let r3 = q4 + r4;
    let r2 = q3 + r3;
    let r1 = q2 + r2;
    assert(spec_settings_args(s, build_mode) == q1 + r1);
    lemma_segment_reads(ki, "arch="@, s.arch);
    lemma_segment_reads(ki, "arch_build="@, s.arch_build);
    lemma_segment_reads(ki, "build_type="@, effective_build_type(s.build_type, build_mode));
    lemma_segment_reads(ki, "compiler="@, s.compiler);
    lemma_segment_reads(ki, "compiler.libcxx="@, s.compiler_libcxx);
    lemma_segment_reads(ki, "compiler.version="@, s.compiler_version);
    lemma_segment_reads(ki, "os="@, s.os);
    lemma_segment_reads(ki, "os_build="@, s.os_build);
    match effective_build_type(s.build_type, build_mode) {
        Some(x) => {
            assert(!(exists|t: int| 0 <= t < q1.len() && is_prefix(ki, q1[t])));
            lemma_read_concat(q1, r1, ki);
            assert(!(exists|t: int| 0 <= t < q2.len() && is_prefix(ki, q2[t])));
            lemma_read_concat(q2, r2, ki);
            assert(is_prefix(ki, q3[1]));
            lemma_read_concat(q3, r3, ki);
        },
        None => {
            assert(forall|t: int| 0 <= t < q1.len() ==> !is_prefix(ki, #[trigger] q1[t]));
            assert(forall|t: int| 0 <= t < q2.len() ==> !is_prefix(ki, #[trigger] q2[t]));
            assert(forall|t: int| 0 <= t < q3.len() ==> !is_prefix(ki, #[trigger] q3[t]));
            assert(forall|t: int| 0 <= t < q4.len() ==> !is_prefix(ki, #[trigger] q4[t]));
            assert(forall|t: int| 0 <= t < q5.len() ==> !is_prefix(ki, #[trigger] q5[t]));
            assert(forall|t: int| 0 <= t < q6.len() ==> !is_prefix(ki, #[trigger] q6[t]));
            assert(forall|t: int| 0 <= t < q7.len() ==> !is_prefix(ki, #[trigger] q7[t]));
            assert(forall|t: int| 0 <= t < q8.len() ==> !is_prefix(ki, #[trigger] q8[t]));
            lemma_no_match_concat(q7, r7, ki);
            lemma_no_match_concat(q6, r6, ki);
            lemma_no_match_concat(q5, r5, ki);
            lemma_no_match_concat(q4, r4, ki);
            lemma_no_match_concat(q3, r3, ki);
            lemma_no_match_concat(q2, r2, ki);
            lemma_no_match_concat(q1, r1, ki);
            lemma_read_no_match(q1 + r1, ki);
        },
    }
}

/// Round trip of the `compiler` field.
proof fn lemma_round_trip_key_4(s: SettingsV, build_mode: Option<Seq<char>>)
    ensures
        spec_read_setting(spec_settings_args(s, build_mode), "compiler="@) == s.compiler,
{
    lemma_keys_clean();
    lemma_keys_pairwise_distinct();
    let ki = "compiler="@;
    let q1 = setting_pair("arch="@, s.arch);
    let q2 = setting_pair("arch_build="@, s.arch_build);
    let q3 = setting_pair("build_type="@, effective_build_type(s.build_type, build_mode));
    let q4 = setting_pair("compiler="@, s.compiler);
    let q5 = setting_pair("compiler.libcxx="@, s.compiler_libcxx);
    let q6 = setting_pair("compiler.version="@, s.compiler_version);
    let q7 = setting_pair("os="@, s.os);
    let q8 = setting_pair("os_build="@, s.os_build);
    let r7 = q8;
    let r6 = q7 + r7;
    let r5 = q6 + r6;
    let r4 = q5 + r5;
    let r3 = q4 + r4;
    let r2 = q3 + r3;
    let r1 = q2 + r2;
    assert(spec_settings_args(s, build_mode) == q1 + r1);
    lemma_segment_reads(ki, "arch="@, s.arch);
    lemma_segment_reads(ki, "arch_build="@, s.arch_build);
    lemma_segment_reads(ki, "build_type="@, effective_build_type(s.build_type, build_mode));
    lemma_segment_reads(ki, "compiler="@, s.compiler);
    lemma_segment_reads(ki, "compiler.libcxx="@, s.compiler_libcxx);
    lemma_segment_reads(ki, "compiler.version="@, s.compiler_version);
    lemma_segment_reads(ki, "os="@, s.os);
    lemma_segment_reads(ki, "os_build="@, s.os_build);
    match s.compiler {
        Some(x) => {
            assert(!(exists|t: int| 0 <= t < q1.len() && is_prefix(ki, q1[t])));
            lemma_read_concat(q1, r1, ki);
            assert(!(exists|t: int| 0 <= t < q2.len() && is_prefix(ki, q2[t])));
            lemma_read_concat(q2, r2, ki);
            assert(!(exists|t: int| 0 <= t < q3.len() && is_prefix(ki, q3[t])));
            lemma_read_concat(q3, r3, ki);
            assert(is_prefix(ki, q4[1]));
            lemma_read_concat(q4, r4, ki);
        },
        None => {
            assert(forall|t: int| 0 <= t < q1.len() ==> !is_prefix(ki, #[trigger] q1[t]));
            assert(forall|t: int| 0 <= t < q2.len() ==> !is_prefix(ki, #[trigger] q2[t]));
            assert(forall|t: int| 0 <= t < q3.len() ==> !is_prefix(ki, #[trigger] q3[t]));
            assert(forall|t: int| 0 <= t < q4.len() ==> !is_prefix(ki, #[trigger] q4[t]));
            assert(forall|t: int| 0 <= t < q5.len() ==> !is_prefix(ki, #[trigger] q5[t]));
            assert(forall|t: int| 0 <= t < q6.len() ==> !is_prefix(ki, #[trigger] q6[t]));
            assert(forall|t: int| 0 <= t < q7.len() ==> !is_prefix(ki, #[trigger] q7[t]));
            assert(forall|t: int| 0 <= t < q8.len() ==> !is_prefix(ki, #[trigger] q8[t]));
            lemma_no_match_concat(q7, r7, ki);
            lemma_no_match_concat(q6, r6, ki);
            lemma_no_match_concat(q5, r5, ki);
            lemma_no_match_concat(q4, r4, ki);
            lemma_no_match_concat(q3, r3, ki);
            lemma_no_match_concat(q2, r2, ki);
            lemma_no_match_concat(q1, r1, ki);
            lemma_read_no_match(q1 + r1, ki);
        },
    }
}

/// Round trip of the `compiler.libcxx` field.
proof fn lemma_round_trip_key_5(s: SettingsV, build_mode: Option<Seq<char>>)
    ensures
        spec_read_setting(spec_settings_args(s, build_mode), "compiler.libcxx="@) == s.compiler_libcxx,
{
    lemma_keys_clean();
    lemma_keys_pairwise_distinct();
    let ki = "compiler.libcxx="@;
    let q1 = setting_pair("arch="@, s.arch);
    let q2 = setting_pair("arch_build="@, s.arch_build);
    let q3 = setting_pair("build_type="@, effective_build_type(s.build_type, build_mode));
    let q4 = setting_pair("compiler="@, s.compiler);
    let q5 = setting_pair("compiler.libcxx="@, s.compiler_libcxx);
    let q6 = setting_pair("compiler.version="@, s.compiler_version);
    let q7 = setting_pair("os="@, s.os);
    let q8 = setting_pair("os_build="@, s.os_build);
    let r7 = q8;
    let r6 = q7 + r7;
    let r5 = q6 + r6;
    let r4 = q5 + r5;
    let r3 = q4 + r4;
    let r2 = q3 + r3;
    let r1 = q2 + r2;
    assert(spec_settings_args(s, build_mode) == q1 + r1);
    lemma_segment_reads(ki, "arch="@, s.arch);
    lemma_segment_reads(ki, "arch_build="@, s.arch_build);
    lemma_segment_reads(ki, "build_type="@, effective_build_type(s.build_type, build_mode));
    lemma_segment_reads(ki, "compiler="@, s.compiler);
    lemma_segment_reads(ki, "compiler.libcxx="@, s.compiler_libcxx);
    lemma_segment_reads(ki, "compiler.version="@, s.compiler_version);
    lemma_segment_reads(ki, "os="@, s.os);
    lemma_segment_reads(ki, "os_build="@, s.os_build);
    match s.compiler_libcxx {
        Some(x) => {
            assert(!(exists|t: int| 0 <= t < q1.len() && is_prefix(ki, q1[t])));
            lemma_read_concat(q1, r1, ki);
            assert(!(exists|t: int| 0 <= t < q2.len() && is_prefix(ki, q2[t])));
            lemma_read_concat(q2, r2, ki);
            assert(!(exists|t: int| 0 <= t < q3.len() && is_prefix(ki, q3[t])));
            lemma_read_concat(q3, r3, ki);
            assert(!(exists|t: int| 0 <= t < q4.len() && is_prefix(ki, q4[t])));
            lemma_read_concat(q4, r4, ki);
            assert(is_prefix(ki, q5[1]));
            lemma_read_concat(q5, r5, ki);
        },
        None => {
            assert(forall|t: int| 0 <= t < q1.len() ==> !is_prefix(ki, #[trigger] q1[t]));
            assert(forall|t: int| 0 <= t < q2.len() ==> !is_prefix(ki, #[trigger] q2[t]));
            assert(forall|t: int| 0 <= t < q3.len() ==> !is_prefix(ki, #[trigger] q3[t]));
            assert(forall|t: int| 0 <= t < q4.len() ==> !is_prefix(ki, #[trigger] q4[t]));
            assert(forall|t: int| 0 <= t < q5.len() ==> !is_prefix(ki, #[trigger] q5[t]));
            assert(forall|t: int| 0 <= t < q6.len() ==> !is_prefix(ki, #[trigger] q6[t]));
            assert(forall|t: int| 0 <= t < q7.len() ==> !is_prefix(ki, #[trigger] q7[t]));
            assert(forall|t: int| 0 <= t < q8.len() ==> !is_prefix(ki, #[trigger] q8[t]));
            lemma_no_match_concat(q7, r7, ki);
            lemma_no_match_concat(q6, r6, ki);
            lemma_no_match_concat(q5, r5, ki);
            lemma_no_match_concat(q4, r4, ki);
            lemma_no_match_concat(q3, r3, ki);
            lemma_no_match_concat(q2, r2, ki);
            lemma_no_match_concat(q1, r1, ki);
            lemma_read_no_match(q1 + r1, ki);
        },
    }
}

/// Round trip of the `compiler.version` field.
proof fn lemma_round_trip_key_6(s: SettingsV, build_mode: Option<Seq<char>>)
    ensures
        spec_read_setting(spec_settings_args(s, build_mode), "compiler.version="@) == s.compiler_version,
{
    lemma_keys_clean();
    lemma_keys_pairwise_distinct();
    let ki = "compiler.version="@;
    let q1 = setting_pair("arch="@, s.arch);
    let q2 = setting_pair("arch_build="@, s.arch_build);
    let q3 = setting_pair("build_type="@, effective_build_type(s.build_type, build_mode));
    let q4 = setting_pair("compiler="@, s.compiler);
    let q5 = setting_pair("compiler.libcxx="@, s.compiler_libcxx);
    let q6 = setting_pair("compiler.version="@, s.compiler_version);
    let q7 = setting_pair("os="@, s.os);
    let q8 = setting_pair("os_build="@, s.os_build);
    let r7 = q8;
    let r6 = q7 + r7;
    let r5 = q6 + r6;
    let r4 = q5 + r5;
    let r3 = q4 + r4;
    let r2 = q3 + r3;
    let r1 = q2 + r2;
    assert(spec_settings_args(s, build_mode) == q1 + r1);
    lemma_segment_reads(ki, "arch="@, s.arch);
    lemma_segment_reads(ki, "arch_build="@, s.arch_build);
    lemma_segment_reads(ki, "build_type="@, effective_build_type(s.build_type, build_mode));
    lemma_segment_reads(ki, "compiler="@, s.compiler);
    lemma_segment_reads(ki, "compiler.libcxx="@, s.compiler_libcxx);
    lemma_segment_reads(ki, "compiler.version="@, s.compiler_version);
    lemma_segment_reads(ki, "os="@, s.os);
    lemma_segment_reads(ki, "os_build="@, s.os_build);
    match s.compiler_version {
        Some(x) => {
            assert(!(exists|t: int| 0 <= t < q1.len() && is_prefix(ki, q1[t])));
            lemma_read_concat(q1, r1, ki);
            assert(!(exists|t: int| 0 <= t < q2.len() && is_prefix(ki, q2[t])));
            lemma_read_concat(q2, r2, ki);
            assert(!(exists|t: int| 0 <= t < q3.len() && is_prefix(ki, q3[t])));
            lemma_read_concat(q3, r3, ki);
            assert(!(exists|t: int| 0 <= t < q4.len() && is_prefix(ki, q4[t])));
            lemma_read_concat(q4, r4, ki);
            assert(!(exists|t: int| 0 <= t < q5.len() && is_prefix(ki, q5[t])));
            lemma_read_concat(q5, r5, ki);
            assert(is_prefix(ki, q6[1]));
            lemma_read_concat(q6, r6, ki);
        },
        None => {
            assert(forall|t: int| 0 <= t < q1.len() ==> !is_prefix(ki, #[trigger] q1[t]));
            assert(forall|t: int| 0 <= t < q2.len() ==> !is_prefix(ki, #[trigger] q2[t]));
            assert(forall|t: int| 0 <= t < q3.len() ==> !is_prefix(ki, #[trigger] q3[t]));
            assert(forall|t: int| 0 <= t < q4.len() ==> !is_prefix(ki, #[trigger] q4[t]));
            assert(forall|t: int| 0 <= t < q5.len() ==> !is_prefix(ki, #[trigger] q5[t]));
            assert(forall|t: int| 0 <= t < q6.len() ==> !is_prefix(ki, #[trigger] q6[t]));
            assert(forall|t: int| 0 <= t < q7.len() ==> !is_prefix(ki, #[trigger] q7[t]));
            assert(forall|t: int| 0 <= t < q8.len() ==> !is_prefix(ki, #[trigger] q8[t]));
            lemma_no_match_concat(q7, r7, ki);
            lemma_no_match_concat(q6, r6, ki);
            lemma_no_match_concat(q5, r5, ki);
            lemma_no_match_concat(q4, r4, ki);
            lemma_no_match_concat(q3, r3, ki);
            lemma_no_match_concat(q2, r2, ki);
            lemma_no_match_concat(q1, r1, ki);
            lemma_read_no_match(q1 + r1, ki);
        },
    }
}

/// Round trip of the `os` field.
proof fn lemma_round_trip_key_7(s: SettingsV, build_mode: Option<Seq<char>>)
    ensures
        spec_read_setting(spec_settings_args(s, build_mode), "os="@) == s.os,
{
    lemma_keys_clean();
    lemma_keys_pairwise_distinct();
    let ki = "os="@;
    let q1 = setting_pair("arch="@, s.arch);
    let q2 = setting_pair("arch_build="@, s.arch_build);
    let q3 = setting_pair("build_type="@, effective_build_type(s.build_type, build_mode));
    let q4 = setting_pair("compiler="@, s.compiler);
    let q5 = setting_pair("compiler.libcxx="@, s.compiler_libcxx);
    let q6 = setting_pair("compiler.version="@, s.compiler_version);
    let q7 = setting_pair("os="@, s.os);
    let q8 = setting_pair("os_build="@, s.os_build);
    let r7 = q8;
    let r6 = q7 + r7;
    let r5 = q6 + r6;
    let r4 = q5 + r5;
    let r3 = q4 + r4;
    let r2 = q3 + r3;
    let r1 = q2 + r2;
    assert(spec_settings_args(s, build_mode) == q1 + r1);
    lemma_segment_reads(ki, "arch="@, s.arch);
    lemma_segment_reads(ki, "arch_build="@, s.arch_build);
    lemma_segment_reads(ki, "build_type="@, effective_build_type(s.build_type, build_mode));
    lemma_segment_reads(ki, "compiler="@, s.compiler);
    lemma_segment_reads(ki, "compiler.libcxx="@, s.compiler_libcxx);
    lemma_segment_reads(ki, "compiler.version="@, s.compiler_version);
    lemma_segment_reads(ki, "os="@, s.os);
    lemma_segment_reads(ki, "os_build="@, s.os_build);
    match s.os {
        Some(x) => {
            assert(!(exists|t: int| 0 <= t < q1.len() && is_prefix(ki, q1[t])));
            lemma_read_concat(q1, r1, ki);
            assert(!(exists|t: int| 0 <= t < q2.len() && is_prefix(ki, q2[t])));
            lemma_read_concat(q2, r2, ki);
            assert(!(exists|t: int| 0 <= t < q3.len() && is_prefix(ki, q3[t])));
            lemma_read_concat(q3, r3, ki);
            assert(!(exists|t: int| 0 <= t < q4.len() && is_prefix(ki, q4[t])));
            lemma_read_concat(q4, r4, ki);
            assert(!(exists|t: int| 0 <= t < q5.len() && is_prefix(ki, q5[t])));
            lemma_read_concat(q5, r5, ki);
            assert(!(exists|t: int| 0 <= t < q6.len() && is_prefix(ki, q6[t])));
            lemma_read_concat(q6, r6, ki);
            assert(is_prefix(ki, q7[1]));
            lemma_read_concat(q7, r7, ki);
        },
        None => {
            assert(forall|t: int| 0 <= t < q1.len() ==> !is_prefix(ki, #[trigger] q1[t]));
            assert(forall|t: int| 0 <= t < q2.len() ==> !is_prefix(ki, #[trigger] q2[t]));
            assert(forall|t: int| 0 <= t < q3.len() ==> !is_prefix(ki, #[trigger] q3[t]));
            assert(forall|t: int| 0 <= t < q4.len() ==> !is_prefix(ki, #[trigger] q4[t]));
            assert(forall|t: int| 0 <= t < q5.len() ==> !is_prefix(ki, #[trigger] q5[t]));
            assert(forall|t: int| 0 <= t < q6.len() ==> !is_prefix(ki, #[trigger] q6[t]));
            assert(forall|t: int| 0 <= t < q7.len() ==> !is_prefix(ki, #[trigger] q7[t]));
            assert(forall|t: int| 0 <= t < q8.len() ==> !is_prefix(ki, #[trigger] q8[t]));
            lemma_no_match_concat(q7, r7, ki);
            lemma_no_match_concat(q6, r6, ki);
            lemma_no_match_concat(q5, r5, ki);
            lemma_no_match_concat(q4, r4, ki);
            lemma_no_match_concat(q3, r3, ki);
            lemma_no_match_concat(q2, r2, ki);
            lemma_no_match_concat(q1, r1, ki);
            lemma_read_no_match(q1 + r1, ki);
        },
    }
}

/// Round trip of the `os_build` field.
proof fn lemma_round_trip_key_8(s: SettingsV, build_mode: Option<Seq<char>>)
    ensures
        spec_read_setting(spec_settings_args(s, build_mode), "os_build="@) == s.os_build,
{
    lemma_keys_clean();
    lemma_keys_pairwise_distinct();
    let ki = "os_build="@;
    let q1 = setting_pair("arch="@, s.arch);
    let q2 = setting_pair("arch_build="@, s.arch_build);
    let q3 = setting_pair("build_type="@, effective_build_type(s.build_type, build_mode));
    let q4 = setting_pair("compiler="@, s.compiler);
    let q5 = setting_pair("compiler.libcxx="@, s.compiler_libcxx);
    let q6 = setting_pair("compiler.version="@, s.compiler_version);
    let q7 = setting_pair("os="@, s.os);
    let q8 = setting_pair("os_build="@, s.os_build);
    let r7 = q8;
    let r6 = q7 + r7;
    let r5 = q6 + r6;
    let r4 = q5 + r5;
    let r3 = q4 + r4;
    let r2 = q3 + r3;
    let r1 = q2 + r2;
    assert(spec_settings_args(s, build_mode) == q1 + r1);
    lemma_segment_reads(ki, "arch="@, s.arch);
    lemma_segment_reads(ki, "arch_build="@, s.arch_build);
    lemma_segment_reads(ki, "build_type="@, effective_build_type(s.build_type, build_mode));
    lemma_segment_reads(ki, "compiler="@, s.compiler);
    lemma_segment_reads(ki, "compiler.libcxx="@, s.compiler_libcxx);
    lemma_segment_reads(ki, "compiler.version="@, s.compiler_version);
    lemma_segment_reads(ki, "os="@, s.os);
    lemma_segment_reads(ki, "os_build="@, s.os_build);
    match s.os_build {
        Some(x) => {
            assert(!(exists|t: int| 0 <= t < q1.len() && is_prefix(ki, q1[t])));
            lemma_read_concat(q1, r1, ki);
            assert(!(exists|t: int| 0 <= t < q2.len() && is_prefix(ki, q2[t])));
            lemma_read_concat(q2, r2, ki);
            assert(!(exists|t: int| 0 <= t < q3.len() && is_prefix(ki, q3[t])));
            lemma_read_concat(q3, r3, ki);
            assert(!(exists|t: int| 0 <= t < q4.len() && is_prefix(ki, q4[t])));
            lemma_read_concat(q4, r4, ki);
            assert(!(exists|t: int| 0 <= t < q5.len() && is_prefix(ki, q5[t])));
            lemma_read_concat(q5, r5, ki);
            assert(!(exists|t: int| 0 <= t < q6.len() && is_prefix(ki, q6[t])));
            lemma_read_concat(q6, r6, ki);
            assert(!(exists|t: int| 0 <= t < q7.len() && is_prefix(ki, q7[t])));
            lemma_read_concat(q7, r7, ki);
        },
        None => {
            assert(forall|t: int| 0 <= t < q1.len() ==> !is_prefix(ki, #[trigger] q1[t]));
            assert(forall|t: int| 0 <= t < q2.len() ==> !is_prefix(ki, #[trigger] q2[t]));
            assert(forall|t: int| 0 <= t < q3.len() ==> !is_prefix(ki, #[trigger] q3[t]));
            assert(forall|t: int| 0 <= t < q4.len() ==> !is_prefix(ki, #[trigger] q4[t]));
            assert(forall|t: int| 0 <= t < q5.len() ==> !is_prefix(ki, #[trigger] q5[t]));
            assert(forall|t: int| 0 <= t < q6.len() ==> !is_prefix(ki, #[trigger] q6[t]));
            assert(forall|t: int| 0 <= t < q7.len() ==> !is_prefix(ki, #[trigger] q7[t]));
            assert(forall|t: int| 0 <= t < q8.len() ==> !is_prefix(ki, #[trigger] q8[t]));
            lemma_no_match_concat(q7, r7, ki);
            lemma_no_match_concat(q6, r6, ki);
            lemma_no_match_concat(q5, r5, ki);
            lemma_no_match_concat(q4, r4, ki);
            lemma_no_match_concat(q3, r3, ki);
            lemma_no_match_concat(q2, r2, ki);
            lemma_no_match_concat(q1, r1, ki);
            lemma_read_no_match(q1 + r1, ki);
        },
    }
}

/// Law: round trip. Reading the rendered `key=value` tokens back by the same
/// key names reproduces every field of the settings, present or absent; the
/// build type read back is the effective one, which is the stored field
/// itself whenever no build-mode signal was given.
/// Law: round trip. Reading the rendered `key=value` tokens back by the same
/// key names reproduces every field of the settings, present or absent; the
/// build type read back is the effective one, which is the stored field
/// itself whenever no build-mode signal was given.
/// Law: round trip. Reading the rendered `key=value` tokens back by the same
/// key names reproduces every field of the settings, present or absent; the
/// build type read back is the effective one, which is the stored field
/// itself whenever no build-mode signal was given.
/// Law: round trip. Reading the rendered `key=value` tokens back by the same
/// key names reproduces every field of the settings, present or absent; the
/// build type read back is the effective one, which is the stored field
/// itself whenever no build-mode signal was given.
/// Law: round trip. Reading the rendered `key=value` tokens back by the same
/// key names reproduces every field of the settings, present or absent; the
/// build type read back is the effective one, which is the stored field
/// itself whenever no build-mode signal was given.
/// Law: round trip. Reading the rendered `key=value` tokens back by the same
/// key names reproduces every field of the settings, present or absent; the
/// build type read back is the effective one, which is the stored field
/// itself whenever no build-mode signal was given.
/// Law: round trip. Reading the rendered `key=value` tokens back by the same
/// key names reproduces every field of the settings, present or absent; the
/// build type read back is the effective one, which is the stored field
/// itself whenever no build-mode signal was given.
/// Law: round trip. Reading the rendered `key=value` tokens back by the same
/// key names reproduces every field of the settings, present or absent; the
/// build type read back is the effective one, which is the stored field
/// itself whenever no build-mode signal was given.
/// Law: round trip. Reading the rendered `key=value` tokens back by the same
/// key names reproduces every field of the settings, present or absent; the
/// build type read back is the effective one, which is the stored field
/// itself whenever no build-mode signal was given.
pub proof fn lemma_settings_round_trip(s: SettingsV, build_mode: Option<Seq<char>>)
    ensures
        spec_read_setting(spec_settings_args(s, build_mode), "arch="@) == s.arch,
        spec_read_setting(spec_settings_args(s, build_mode), "arch_build="@) == s.arch_build,
        spec_read_setting(spec_settings_args(s, build_mode), "build_type="@)
            == effective_build_type(s.build_type, build_mode),
        build_mode is None ==> spec_read_setting(spec_settings_args(s, build_mode), "build_type="@)
            == s.build_type,
        spec_read_setting(spec_settings_args(s, build_mode), "compiler="@) == s.compiler,
        spec_read_setting(spec_settings_args(s, build_mode), "compiler.libcxx="@)
            == s.compiler_libcxx,
        spec_read_setting(spec_settings_args(s, build_mode), "compiler.version="@)
            == s.compiler_version,
        spec_read_setting(spec_settings_args(s, build_mode), "os="@) == s.os,
        spec_read_setting(spec_settings_args(s, build_mode), "os_build="@) == s.os_build,
{
    lemma_round_trip_key_1(s, build_mode);
    lemma_round_trip_key_2(s, build_mode);
    lemma_round_trip_key_3(s, build_mode);
    lemma_round_trip_key_4(s, build_mode);
    lemma_round_trip_key_5(s, build_mode);
    lemma_round_trip_key_6(s, build_mode);
    lemma_round_trip_key_7(s, build_mode);
    lemma_round_trip_key_8(s, build_mode);
}

/// The eight settings keys are pairwise distinct.
proof fn lemma_keys_pairwise_distinct()
    ensures
        "arch="@ != "arch_build="@,
        "arch="@ != "build_type="@,
        "arch="@ != "compiler="@,
        "arch="@ != "compiler.libcxx="@,
        "arch="@ != "compiler.version="@,
        "arch="@ != "os="@,
        "arch="@ != "os_build="@,
        "arch_build="@ != "build_type="@,
        "arch_build="@ != "compiler="@,
        "arch_build="@ != "compiler.libcxx="@,
        "arch_build="@ != "compiler.version="@,
        "arch_build="@ != "os="@,
        "arch_build="@ != "os_build="@,
        "build_type="@ != "compiler="@,
        "build_type="@ != "compiler.libcxx="@,
        "build_type="@ != "compiler.version="@,
        "build_type="@ != "os="@,
        "build_type="@ != "os_build="@,
        "compiler="@ != "compiler.libcxx="@,
        "compiler="@ != "compiler.version="@,
        "compiler="@ != "os="@,
        "compiler="@ != "os_build="@,
        "compiler.libcxx="@ != "compiler.version="@,
        "compiler.libcxx="@ != "os="@,
        "compiler.libcxx="@ != "os_build="@,
        "compiler.version="@ != "os="@,
        "compiler.version="@ != "os_build="@,
        "os="@ != "os_build="@,
{
    reveal_strlit("arch=");
    reveal_strlit("arch_build=");
    reveal_strlit("build_type=");
    reveal_strlit("compiler=");
    reveal_strlit("compiler.libcxx=");
    reveal_strlit("compiler.version=");
    reveal_strlit("os=");
    reveal_strlit("os_build=");
    assert("arch="@.len() == 5);
    assert("arch_build="@.len() == 11);
    assert("build_type="@.len() == 11);
    assert("compiler="@.len() == 9);
    assert("compiler.libcxx="@.len() == 16);
    assert("compiler.version="@.len() == 17);
    assert("os="@.len() == 3);
    assert("os_build="@.len() == 9);
    assert("arch_build="@ != "build_type="@) by {
        assert("arch_build="@[0] == 'a' && "build_type="@[0] == 'b');
    }
    assert("compiler.libcxx="@ != "compiler.version="@) by {
        assert("compiler.libcxx="@[9] == 'l' && "compiler.version="@[9] == 'v');
    }
    assert("compiler="@ != "os_build="@) by {
        assert("compiler="@[0] == 'c' && "os_build="@[0] == 'o');
    }
}

/// Every rendered settings key, with its trailing `=`, is clean.
proof fn lemma_keys_clean()
    ensures
        clean_key("arch="@),
        clean_key("arch_build="@),
        clean_key("build_type="@),
        clean_key("compiler="@),
        clean_key("compiler.libcxx="@),
        clean_key("compiler.version="@),
        clean_key("os="@),
        clean_key("os_build="@),
{
    reveal_strlit("arch=");
    reveal_strlit("arch_build=");
    reveal_strlit("build_type=");
    reveal_strlit("compiler=");
    reveal_strlit("compiler.libcxx=");
    reveal_strlit("compiler.version=");
    reveal_strlit("os=");
    reveal_strlit("os_build=");
}

} // verus!
