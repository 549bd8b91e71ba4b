//! One resolved package entry of the external tool's dependency report.

use vstd::prelude::*;

use crate::json::{
    description_value, field_of, get_description, get_opt_string_arr, get_req_string,
    get_req_string_arr, opt_string_arr, req_string, req_string_arr, wf_description_value,
    wf_opt_string_arr, wf_req_string, wf_req_string_arr, Json, JsonData,
};

verus! {

/// One resolved package: its identity, its installed paths, and the flags
/// and libraries a consumer needs.
pub struct BuildDependency {
    pub version: String,
    pub description: Option<String>,
    pub rootpath: String,
    pub sysroot: String,
    pub include_paths: Vec<String>,
    pub lib_paths: Vec<String>,
    pub bin_paths: Vec<String>,
    pub build_paths: Vec<String>,
    pub res_paths: Vec<String>,
    pub libs: Vec<String>,
    pub system_libs: Option<Vec<String>>,
    pub defines: Vec<String>,
    pub cflags: Vec<String>,
    pub cxxflags: Option<Vec<String>>,
    pub sharedlinkflags: Vec<String>,
    pub exelinkflags: Vec<String>,
    pub cppflags: Option<Vec<String>>,
    pub name: String,
}

/// The report shape of one dependency entry: an object whose required fields
/// are strings or arrays of strings, whose optional list fields may be
/// absent or null, and whose description takes the tolerant shapes.
pub open spec fn wf_dependency(j: JsonData) -> bool {
    &&& j is Obj
    &&& wf_req_string(j, "version"@)
    &&& wf_description_value(field_of(j, "description"@))
    &&& wf_req_string(j, "rootpath"@)
    &&& wf_req_string(j, "sysroot"@)
    &&& wf_req_string_arr(j, "include_paths"@)
    &&& wf_req_string_arr(j, "lib_paths"@)
    &&& wf_req_string_arr(j, "bin_paths"@)
    &&& wf_req_string_arr(j, "build_paths"@)
    &&& wf_req_string_arr(j, "res_paths"@)
    &&& wf_req_string_arr(j, "libs"@)
    &&& wf_opt_string_arr(j, "system_libs"@)
    &&& wf_req_string_arr(j, "defines"@)
    &&& wf_req_string_arr(j, "cflags"@)
    &&& wf_opt_string_arr(j, "cxxflags"@)
    &&& wf_req_string_arr(j, "sharedlinkflags"@)
    &&& wf_req_string_arr(j, "exelinkflags"@)
    &&& wf_opt_string_arr(j, "cppflags"@)
    &&& wf_req_string(j, "name"@)
}

/// `d` holds exactly what the report object `j` stores, field by field.
pub open spec fn dep_corresponds(d: BuildDependency, j: JsonData) -> bool {
    &&& d.version@ == req_string(j, "version"@)
    &&& d.description.deep_view() == description_value(field_of(j, "description"@))
    &&& d.rootpath@ == req_string(j, "rootpath"@)
    &&& d.sysroot@ == req_string(j, "sysroot"@)
    &&& d.include_paths.deep_view() == req_string_arr(j, "include_paths"@)
    &&& d.lib_paths.deep_view() == req_string_arr(j, "lib_paths"@)
    &&& d.bin_paths.deep_view() == req_string_arr(j, "bin_paths"@)
    &&& d.build_paths.deep_view() == req_string_arr(j, "build_paths"@)
    &&& d.res_paths.deep_view() == req_string_arr(j, "res_paths"@)
    &&& d.libs.deep_view() == req_string_arr(j, "libs"@)
    &&& d.system_libs.deep_view() == opt_string_arr(j, "system_libs"@)
    &&& d.defines.deep_view() == req_string_arr(j, "defines"@)
    &&& d.cflags.deep_view() == req_string_arr(j, "cflags"@)
    &&& d.cxxflags.deep_view() == opt_string_arr(j, "cxxflags"@)
    &&& d.sharedlinkflags.deep_view() == req_string_arr(j, "sharedlinkflags"@)
    &&& d.exelinkflags.deep_view() == req_string_arr(j, "exelinkflags"@)
    &&& d.cppflags.deep_view() == opt_string_arr(j, "cppflags"@)
    &&& d.name@ == req_string(j, "name"@)
}

impl BuildDependency {
    /// Reads one dependency entry out of its report object, normalizing the
    /// description field; absent exactly when the object does not have the
    /// entry shape.
    pub fn from_json(j: &Json) -> (r: Option<BuildDependency>)
        ensures
            r is Some <==> wf_dependency(j@),
            r matches Some(d) ==> dep_corresponds(d, j@),
    {
        let version = match get_req_string(j, "version") {
            Ok(v) => v,
            Err(_) => {
                return None;
            },
        };
        let description = match get_description(j, "description") {
            Ok(v) => v,
            Err(_) => {
                return None;
            },
        };
        let rootpath = match get_req_string(j, "rootpath") {
            Ok(v) => v,
            Err(_) => {
                return None;
            },
        };
        let sysroot = match get_req_string(j, "sysroot") {
            Ok(v) => v,
            Err(_) => {
                return None;
            },
        };
        let include_paths = match get_req_string_arr(j, "include_paths") {
            Ok(v) => v,
            Err(_) => {
                return None;
            },
        };
        let lib_paths = match get_req_string_arr(j, "lib_paths") {
            Ok(v) => v,
            Err(_) => {
                return None;
            },
        };
        let bin_paths = match get_req_string_arr(j, "bin_paths") {
            Ok(v) => v,
            Err(_) => {
                return None;
            },
        };
        let build_paths = match get_req_string_arr(j, "build_paths") {
            Ok(v) => v,
            Err(_) => {
                return None;
            },
        };
        let res_paths = match get_req_string_arr(j, "res_paths") {
            Ok(v) => v,
            Err(_) => {
                return None;
            },
        };
        let libs = match get_req_string_arr(j, "libs") {
            Ok(v) => v,
            Err(_) => {
                return None;
            },
        };
        let system_libs = match get_opt_string_arr(j, "system_libs") {
            Ok(v) => v,
            Err(_) => {
                return None;
            },
        };
        let defines = match get_req_string_arr(j, "defines") {
            Ok(v) => v,
            Err(_) => {
                return None;
            },
        };
        let cflags = match get_req_string_arr(j, "cflags") {
            Ok(v) => v,
            Err(_) => {
                return None;
            },
        };
        let cxxflags = match get_opt_string_arr(j, "cxxflags") {
            Ok(v) => v,
            Err(_) => {
                return None;
            },
        };
        let sharedlinkflags = match get_req_string_arr(j, "sharedlinkflags") {
            Ok(v) => v,
            Err(_) => {
                return None;
            },
        };
        let exelinkflags = match get_req_string_arr(j, "exelinkflags") {
            Ok(v) => v,
            Err(_) => {
                return None;
            },
        };
        let cppflags = match get_opt_string_arr(j, "cppflags") {
            Ok(v) => v,
            Err(_) => {
                return None;
            },
        };
        let name = match get_req_string(j, "name") {
            Ok(v) => v,
            Err(_) => {
                return None;
            },
        };
        Some(
            BuildDependency {
                version,
                description,
                rootpath,
                sysroot,
                include_paths,
                lib_paths,
                bin_paths,
                build_paths,
                res_paths,
                libs,
                system_libs,
                defines,
                cflags,
                cxxflags,
                sharedlinkflags,
                exelinkflags,
                cppflags,
                name,
            },
        )
    }

    /// The package's root directory.
    pub fn get_root_dir(&self) -> (r: Option<&str>)
        ensures
            r matches Some(s) && s@ == self.rootpath@,
    {
        Some(self.rootpath.as_str())
    }

    /// The package's first library directory, if it has one.
    pub fn get_library_dir(&self) -> (r: Option<&str>)
        ensures
            match r {
                Some(s) => self.lib_paths@.len() > 0 && s@ == self.lib_paths@[0]@,
                None => self.lib_paths@.len() == 0,
            },
    {
        if self.lib_paths.len() > 0 {
            Some(self.lib_paths[0].as_str())
        } else {
            None
        }
    }

    /// The package's first include directory, if it has one.
    pub fn get_include_dir(&self) -> (r: Option<&str>)
        ensures
            match r {
                Some(s) => self.include_paths@.len() > 0 && s@ == self.include_paths@[0]@,
                None => self.include_paths@.len() == 0,
            },
    {
        if self.include_paths.len() > 0 {
            Some(self.include_paths[0].as_str())
        } else {
            None
        }
    }

    /// The package's first binary directory, if it has one.
    pub fn get_binary_dir(&self) -> (r: Option<&str>)
        ensures
            match r {
                Some(s) => self.bin_paths@.len() > 0 && s@ == self.bin_paths@[0]@,
                None => self.bin_paths@.len() == 0,
            },
    {
        if self.bin_paths.len() > 0 {
            Some(self.bin_paths[0].as_str())
        } else {
            None
        }
    }
}

} // verus!
