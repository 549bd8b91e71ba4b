//! The external tool's dependency report: an ordered list of resolved
//! packages and one settings block, read out of the report's JSON text.

use vstd::prelude::*;

use crate::build_dependency::{dep_corresponds, wf_dependency, BuildDependency};
use crate::json::{
    field_of, get_opt_string, json_parse, json_view, opt_string, parse_json_text, wf_opt_string,
    Json, JsonData,
};
use crate::settings::{BuildSettings, SettingsV};
use crate::strutil::{concat_strs, str_eq};

verus! {

broadcast use vstd::std_specs::vec::group_vec_axioms;

/// A parsed dependency report: the resolved packages in report order, and
/// the settings the resolution ran under.
pub struct BuildInfo {
    pub dependencies: Vec<BuildDependency>,
    pub settings: BuildSettings,
}

/// The report shape of the settings block: an object whose known fields,
/// when present, are strings or null.
pub open spec fn wf_settings(j: JsonData) -> bool {
    &&& j is Obj
    &&& wf_opt_string(j, "arch"@)
    &&& wf_opt_string(j, "arch_build"@)
    &&& wf_opt_string(j, "build_type"@)
    &&& wf_opt_string(j, "compiler"@)
    &&& wf_opt_string(j, "compiler.libcxx"@)
    &&& wf_opt_string(j, "compiler.version"@)
    &&& wf_opt_string(j, "os"@)
    &&& wf_opt_string(j, "os_build"@)
}

/// `s` holds exactly the settings the report object `j` stores.
pub open spec fn settings_corresponds(s: BuildSettings, j: JsonData) -> bool {
    s@ == (SettingsV {
        arch: opt_string(j, "arch"@),
        arch_build: opt_string(j, "arch_build"@),
        build_type: opt_string(j, "build_type"@),
        compiler: opt_string(j, "compiler"@),
        compiler_libcxx: opt_string(j, "compiler.libcxx"@),
        compiler_version: opt_string(j, "compiler.version"@),
        os: opt_string(j, "os"@),
        os_build: opt_string(j, "os_build"@),
    })
}

impl BuildSettings {
    /// Reads the settings block out of its report object; absent exactly
    /// when the object does not have the settings shape.
    pub fn from_json(j: &Json) -> (r: Option<BuildSettings>)
        ensures
            r is Some <==> wf_settings(j@),
            r matches Some(s) ==> settings_corresponds(s, j@),
    {
        match j {
            Json::Obj(_) => {},
            _ => {
                return None;
            },
        }
        let arch = match get_opt_string(j, "arch") {
            Ok(v) => v,
            Err(_) => {
                return None;
            },
        };
        let arch_build = match get_opt_string(j, "arch_build") {
            Ok(v) => v,
            Err(_) => {
                return None;
            },
        };
        let build_type = match get_opt_string(j, "build_type") {
            Ok(v) => v,
            Err(_) => {
                return None;
            },
        };
        let compiler = match get_opt_string(j, "compiler") {
            Ok(v) => v,
            Err(_) => {
                return None;
            },
        };
        let compiler_libcxx = match get_opt_string(j, "compiler.libcxx") {
            Ok(v) => v,
            Err(_) => {
                return None;
            },
        };
        let compiler_version = match get_opt_string(j, "compiler.version") {
            Ok(v) => v,
            Err(_) => {
                return None;
            },
        };
        let os = match get_opt_string(j, "os") {
            Ok(v) => v,
            Err(_) => {
                return None;
            },
        };
        let os_build = match get_opt_string(j, "os_build") {
            Ok(v) => v,
            Err(_) => {
                return None;
            },
        };
        Some(
            BuildSettings {
                arch,
                arch_build,
                build_type,
                compiler,
                compiler_libcxx,
                compiler_version,
                os,
                os_build,
            },
        )
    }
}

/// The report shape of the whole document: an object with a `dependencies`
/// array of dependency entries and a `settings` block.
pub open spec fn wf_build_info(j: JsonData) -> bool {
    &&& j is Obj
    &&& match field_of(j, "dependencies"@) {
        Some(JsonData::Arr(a)) => forall|i: int| 0 <= i < a.len() ==> wf_dependency(#[trigger] a[i]),
        _ => false,
    }
    &&& match field_of(j, "settings"@) {
        Some(sj) => wf_settings(sj),
        None => false,
    }
}

/// `b` holds exactly what the report document `j` stores: one dependency per
/// array element, in order, and the settings block.
pub open spec fn info_corresponds(b: BuildInfo, j: JsonData) -> bool {
    &&& match field_of(j, "dependencies"@) {
        Some(JsonData::Arr(a)) => b.dependencies@.len() == a.len() && forall|i: int|
            0 <= i < a.len() ==> dep_corresponds(#[trigger] b.dependencies@[i], a[i]),
        _ => false,
    }
    &&& match field_of(j, "settings"@) {
        Some(sj) => settings_corresponds(b.settings, sj),
        None => false,
    }
}

/// The first dependency whose name is `name`, scanning in report order.
pub open spec fn spec_find_dep(deps: Seq<BuildDependency>, name: Seq<char>) -> Option<
    BuildDependency,
>
    decreases deps.len(),
{
    if deps.len() == 0 {
        None
    } else if deps[0].name@ == name {
        Some(deps[0])
    } else {
        spec_find_dep(deps.drop_first(), name)
    }
}

/// Law: a lookup on a report with no dependency of the asked name returns
/// absence; a lookup never invents an entry the report does not hold.
pub proof fn lemma_find_dep_none(deps: Seq<BuildDependency>, name: Seq<char>)
    ensures
        spec_find_dep(deps, name) is None <==> (forall|i: int|
            0 <= i < deps.len() ==> #[trigger] deps[i].name@ != name),
        spec_find_dep(deps, name) matches Some(d) ==> exists|i: int|
            0 <= i < deps.len() && #[trigger] deps[i] == d && d.name@ == name,
    decreases deps.len(),
{
    if deps.len() > 0 {
        lemma_find_dep_none(deps.drop_first(), name);
        assert(forall|i: int|
            0 <= i < deps.drop_first().len() ==> #[trigger] deps.drop_first()[i] == deps[i + 1]);
        assert(forall|i: int| 1 <= i < deps.len() ==> #[trigger] deps[i] == deps.drop_first()[i - 1]);
        if deps[0].name@ != name {
            if forall|i: int| 0 <= i < deps.len() ==> #[trigger] deps[i].name@ != name {
                assert(forall|i: int|
                    0 <= i < deps.drop_first().len() ==> #[trigger] deps.drop_first()[i].name@
                        != name);
            }
            if spec_find_dep(deps, name) is None {
                assert forall|i: int| 0 <= i < deps.len() implies #[trigger] deps[i].name@
                    != name by {
                    if i >= 1 {
                        assert(deps[i] == deps.drop_first()[i - 1]);
                    }
                }
            }
            match spec_find_dep(deps.drop_first(), name) {
                Some(d) => {
                    let i = choose|i: int|
                        0 <= i < deps.drop_first().len() && #[trigger] deps.drop_first()[i] == d
                            && d.name@ == name;
                    assert(deps[i + 1] == d);
                },
                None => {},
            }
        }
    }
}

/// Looking past dependencies of other names is looking in the remainder.
proof fn lemma_find_dep_skip(deps: Seq<BuildDependency>, name: Seq<char>, i: int)
    requires
        0 <= i <= deps.len(),
        forall|k: int| 0 <= k < i ==> #[trigger] deps[k].name@ != name,
    ensures
        spec_find_dep(deps, name) == spec_find_dep(deps.skip(i), name),
    decreases i,
{
    if i > 0 {
        assert(deps.drop_first() =~= deps.skip(1));
        lemma_find_dep_skip(deps.skip(1), name, i - 1);
        assert(deps.skip(1).skip(i - 1) =~= deps.skip(i));
    } else {
        assert(deps.skip(0) =~= deps);
    }
}

impl BuildInfo {
    /// Reads a whole report out of its JSON text. Absent exactly when the
    /// text is not JSON or the document does not have the report shape: a
    /// failed parse is never a default-empty report.
    pub fn from_str(json: &str) -> (r: Option<BuildInfo>)
        ensures
            match json_parse(json@) {
                None => r is None,
                Some(jd) => {
                    &&& r is Some <==> wf_build_info(jd)
                    &&& r matches Some(b) ==> info_corresponds(b, jd)
                },
            },
    {
        match parse_json_text(json) {
            Some(tree) => BuildInfo::from_json(&tree),
            None => None,
        }
    }

    /// Reads a whole report out of a parsed JSON document; absent exactly
    /// when the document does not have the report shape.
    pub fn from_json(j: &Json) -> (r: Option<BuildInfo>)
        ensures
            r is Some <==> wf_build_info(j@),
            r matches Some(b) ==> info_corresponds(b, j@),
    {
        match j {
            Json::Obj(_) => {},
            _ => {
                return None;
            },
        }
        let deps_field = match j.field("dependencies") {
            Some(v) => v,
            None => {
                return None;
            },
        };
        let items = match deps_field {
            Json::Arr(items) => items,
            _ => {
                return None;
            },
        };
        let ghost av = deps_field@->Arr_0;
        let mut deps: Vec<BuildDependency> = Vec::new();
        let mut i: usize = 0;
        while i < items.len()
            invariant
                i <= items@.len(),
                av == json_view(Json::Arr(*items))->Arr_0,
                field_of(j@, "dependencies"@) == Some(JsonData::Arr(av)),
                av.len() == items@.len(),
                deps@.len() == i,
                forall|k: int| 0 <= k < i ==> wf_dependency(#[trigger] av[k]),
                forall|k: int| 0 <= k < i ==> dep_corresponds(#[trigger] deps@[k], av[k]),
            decreases items@.len() - i,
        {
            proof {
                assert(av[i as int] == json_view(items@[i as int]));
            }
            match BuildDependency::from_json(&items[i]) {
                Some(d) => {
                    deps.push(d);
                },
                None => {
                    return None;
                },
            }
            i += 1;
        }
        let settings_field = match j.field("settings") {
            Some(v) => v,
            None => {
                return None;
            },
        };
        let settings = match BuildSettings::from_json(settings_field) {
            Some(s) => s,
            None => {
                return None;
            },
        };
        Some(BuildInfo { dependencies: deps, settings })
    }

    /// The first dependency of the given name, if the report holds one;
    /// absence otherwise, never a default entry.
    pub fn get_dependency<'a>(&'a self, name: &str) -> (r: Option<&'a BuildDependency>)
        ensures
            match r {
                Some(d) => spec_find_dep(self.dependencies@, name@) == Some(*d),
                None => spec_find_dep(self.dependencies@, name@) is None,
            },
    {
        let mut i: usize = 0;
        while i < self.dependencies.len()
            invariant
                i <= self.dependencies@.len(),
                forall|k: int| 0 <= k < i ==> #[trigger] self.dependencies@[k].name@ != name@,
            decreases self.dependencies@.len() - i,
        {
            let d = &self.dependencies[i];
            if str_eq(d.name.as_str(), name) {
                proof {
                    lemma_find_dep_skip(self.dependencies@, name@, i as int);
                    assert(self.dependencies@.skip(i as int)[0] == self.dependencies@[i as int]);
                }
                return Some(d);
            }
            i += 1;
        }
        proof {
            lemma_find_dep_skip(self.dependencies@, name@, self.dependencies@.len() as int);
            assert(self.dependencies@.skip(self.dependencies@.len() as int)
                =~= Seq::<BuildDependency>::empty());
        }
        None
    }

    /// The dependencies, in report order.
    pub fn dependencies(&self) -> (r: &Vec<BuildDependency>)
        ensures
            r@ == self.dependencies@,
    {
        &self.dependencies
    }
}

/// Each value of `vals` prefixed with `prefix`, one line per value.
pub open spec fn prefix_lines(prefix: Seq<char>, vals: Seq<Seq<char>>) -> Seq<Seq<char>> {
    vals.map_values(|v: Seq<char>| prefix + v)
}

/// The cargo directives one dependency emits: a search path per library
/// path, a link directive per library and per system library, an include
/// advertisement per include path, and the re-run marker.
pub open spec fn spec_dep_emit(d: BuildDependency) -> Seq<Seq<char>> {
    prefix_lines("cargo:rustc-link-search=native="@, d.lib_paths.deep_view()) + prefix_lines(
        "cargo:rustc-link-lib="@,
        d.libs.deep_view(),
    ) + (match d.system_libs {
        Some(sl) => prefix_lines("cargo:rustc-link-lib="@, sl.deep_view()),
        None => Seq::empty(),
    }) + prefix_lines("cargo:include="@, d.include_paths.deep_view()) + seq![
        "cargo:rerun-if-env-changed=CONAN"@,
    ]
}

/// The cargo directives a whole report emits, dependency by dependency in
/// report order.
pub open spec fn spec_info_emit(deps: Seq<BuildDependency>) -> Seq<Seq<char>>
    decreases deps.len(),
{
    if deps.len() == 0 {
        Seq::empty()
    } else {
        spec_dep_emit(deps[0]) + spec_info_emit(deps.drop_first())
    }
}

/// One more dependency appends its directives at the end.
proof fn lemma_info_emit_snoc(deps: Seq<BuildDependency>, d: BuildDependency)
    ensures
        spec_info_emit(deps.push(d)) == spec_info_emit(deps) + spec_dep_emit(d),
    decreases deps.len(),
{
    if deps.len() == 0 {
        assert(deps.push(d)[0] == d);
        assert(deps.push(d).drop_first() =~= Seq::<BuildDependency>::empty());
        assert(spec_info_emit(Seq::<BuildDependency>::empty()) == Seq::<Seq<char>>::empty());
        assert(spec_dep_emit(d) + Seq::<Seq<char>>::empty() =~= spec_dep_emit(d));
        assert(spec_info_emit(deps) + spec_dep_emit(d) =~= spec_dep_emit(d));
    } else {
        assert(deps.push(d)[0] == deps[0]);
        assert(deps.push(d).drop_first() =~= deps.drop_first().push(d));
        lemma_info_emit_snoc(deps.drop_first(), d);
        assert(spec_dep_emit(deps[0]) + (spec_info_emit(deps.drop_first()) + spec_dep_emit(d))
            =~= (spec_dep_emit(deps[0]) + spec_info_emit(deps.drop_first())) + spec_dep_emit(d));
    }
}

/// Appends one line for each value, prefixed.
fn push_prefixed(out: &mut Vec<String>, prefix: &str, vals: &Vec<String>)
    ensures
        final(out).deep_view() == old(out).deep_view() + prefix_lines(prefix@, vals.deep_view()),
{
    let mut i: usize = 0;
    while i < vals.len()
        invariant
            i <= vals@.len(),
            out.deep_view() == old(out).deep_view() + prefix_lines(prefix@, vals.deep_view()).take(
                i as int,
            ),
        decreases vals@.len() - i,
    {
        let ghost pre = out.deep_view();
        out.push(concat_strs(prefix, vals[i].as_str()));
        proof {
            assert(out.deep_view() =~= pre.push(prefix@ + vals.deep_view()[i as int]));
            assert(out.deep_view() =~= old(out).deep_view() + prefix_lines(
                prefix@,
                vals.deep_view(),
            ).take(i as int + 1));
        }
        i += 1;
    }
    proof {
        assert(prefix_lines(prefix@, vals.deep_view()).take(vals.deep_view().len() as int)
            =~= prefix_lines(prefix@, vals.deep_view()));
        assert(out.deep_view() =~= old(out).deep_view() + prefix_lines(prefix@, vals.deep_view()));
    }
}

/// Appends the directives of one dependency.
fn push_dep_lines(out: &mut Vec<String>, d: &BuildDependency)
    ensures
        final(out).deep_view() == old(out).deep_view() + spec_dep_emit(*d),
{
    push_prefixed(out, "cargo:rustc-link-search=native=", &d.lib_paths);
    push_prefixed(out, "cargo:rustc-link-lib=", &d.libs);
    match &d.system_libs {
        Some(sl) => {
            push_prefixed(out, "cargo:rustc-link-lib=", sl);
        },
        None => {},
    }
    push_prefixed(out, "cargo:include=", &d.include_paths);
    let ghost pre = out.deep_view();
    out.push(String::from_str("cargo:rerun-if-env-changed=CONAN"));
    proof {
        assert(out.deep_view() =~= pre.push("cargo:rerun-if-env-changed=CONAN"@));
        assert(out.deep_view() =~= old(out).deep_view() + spec_dep_emit(*d));
    }
}

impl BuildInfo {
    /// The cargo directive lines this report emits, in report order: the
    /// caller prints them one per line for the build orchestrator.
    pub fn cargo_emit_lines(&self) -> (r: Vec<String>)
        ensures
            r.deep_view() == spec_info_emit(self.dependencies@),
    {
        let mut out: Vec<String> = Vec::new();
        proof {
            assert(out.deep_view() =~= Seq::<Seq<char>>::empty());
            assert(self.dependencies@.take(0) =~= Seq::<BuildDependency>::empty());
        }
        let mut i: usize = 0;
        while i < self.dependencies.len()
            invariant
                i <= self.dependencies@.len(),
                out.deep_view() == spec_info_emit(self.dependencies@.take(i as int)),
            decreases self.dependencies@.len() - i,
        {
            push_dep_lines(&mut out, &self.dependencies[i]);
            proof {
                lemma_info_emit_snoc(
                    self.dependencies@.take(i as int),
                    self.dependencies@[i as int],
                );
                assert(self.dependencies@.take(i as int).push(self.dependencies@[i as int])
                    =~= self.dependencies@.take(i as int + 1));
            }
            i += 1;
        }
        proof {
            assert(self.dependencies@.take(self.dependencies@.len() as int)
                =~= self.dependencies@);
        }
        out
    }
}

} // verus!
