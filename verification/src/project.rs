//! Projects: a root directory with a manifest and source files.
//!
//! Reading the manifest and listing the directory happen outside of this
//! library; what is decided from their results is decided here.

use crate::dependency::{ModuleId, ModuleIdView};
use crate::path::{
    file_stem, file_stem_spec, is_bal_file, is_bal_file_spec, join, join_spec, parent,
    parent_spec,
};
use crate::text::{opt_string_view, strings_view};
use vstd::prelude::*;
use vstd::string::*;

verus! {

broadcast use vstd::string::group_string_axioms;

/// The manifest of a package.
#[derive(Debug)]
pub struct Package {
    pub info: PackageInfo,
    pub build_options: BuildOptions,
}

/// The identity of a package.
#[derive(Debug)]
pub struct PackageInfo {
    pub org: String,
    pub name: String,
    pub version: String,
    pub distribution: String,
}

/// Options of a build, as the manifest spells them.
#[derive(Debug)]
#[allow(non_snake_case)]
pub struct BuildOptions {
    pub observabilityIncluded: bool,
}

impl Default for BuildOptions {
    fn default() -> (options: BuildOptions)
        ensures
            !options.observabilityIncluded,
    {
        BuildOptions { observabilityIncluded: false }
    }
}

/// A loaded project.
#[derive(Debug)]
pub struct Project {
    pub root_dir: String,
    pub package: Package,
    pub source_files: Vec<String>,
}

/// Why a project could not be loaded.
#[derive(Debug)]
pub enum ProjectError {
    /// Reading failed; carries the reason.
    Io(String),
    /// The manifest did not parse; carries the reason.
    TomlParse(String),
    /// The directory is no project; carries the reason.
    Invalid(String),
}

impl ProjectError {
    /// The error as it is shown to users.
    pub open spec fn message_spec(self) -> Seq<char> {
        match self {
            ProjectError::Io(reason) => "IO error: "@ + reason@,
            ProjectError::TomlParse(reason) => "TOML parse error: "@ + reason@,
            ProjectError::Invalid(reason) => "Invalid project: "@ + reason@,
        }
    }

    /// The error as it is shown to users.
    pub fn message(&self) -> (s: String)
        ensures
            s@ == self.message_spec(),
    {
        match self {
            ProjectError::Io(reason) => String::from_str("IO error: ").concat(reason.as_str()),
            ProjectError::TomlParse(reason) => String::from_str("TOML parse error: ").concat(
                reason.as_str(),
            ),
            ProjectError::Invalid(reason) => String::from_str("Invalid project: ").concat(
                reason.as_str(),
            ),
        }
    }
}

/// The name of the manifest.
pub open spec fn manifest_name() -> Seq<char> {
    "Ballerina.toml"@
}

/// The name of the manifest in lower case, which is accepted too.
pub open spec fn manifest_name_lower() -> Seq<char> {
    "ballerina.toml"@
}

/// The manifest of the directory `dir`, given which of its two spellings
/// exist there: `Ballerina.toml` is preferred to `ballerina.toml`.
pub fn find_ballerina_toml(dir: &str, has_upper: bool, has_lower: bool) -> (r: Option<String>)
    ensures
        opt_string_view(r) == (if has_upper {
            Some(join_spec(dir@, manifest_name()))
        } else if has_lower {
            Some(join_spec(dir@, manifest_name_lower()))
        } else {
            None
        }),
{
    if has_upper {
        Some(join(dir, "Ballerina.toml"))
    } else if has_lower {
        Some(join(dir, "ballerina.toml"))
    } else {
        None
    }
}

/// The `.bal` files among `paths`, in order.
pub open spec fn bal_files_spec(paths: Seq<Seq<char>>) -> Seq<Seq<char>>
    decreases paths.len(),
{
    if paths.len() == 0 {
        Seq::empty()
    } else if is_bal_file_spec(paths.last()) {
        bal_files_spec(paths.drop_last()).push(paths.last())
    } else {
        bal_files_spec(paths.drop_last())
    }
}

/// The source files among the entries of a directory.
pub fn find_bal_files(entries: &Vec<String>) -> (files: Vec<String>)
    ensures
        strings_view(files@) == bal_files_spec(strings_view(entries@)),
{
    let ghost all = strings_view(entries@);
    let mut files: Vec<String> = Vec::new();
    let mut i: usize = 0;
    while i < entries.len()
        invariant
            i <= entries@.len(),
            all == strings_view(entries@),
            strings_view(files@) == bal_files_spec(all.subrange(0, i as int)),
        decreases entries@.len() - i,
    {
        proof {
            let upto = all.subrange(0, i + 1);
            assert(upto.drop_last() =~= all.subrange(0, i as int));
        }
        if is_bal_file(entries[i].as_str()) {
            files.push(entries[i].clone());
        }
        i += 1;
    }
    assert(all.subrange(0, i as int) =~= all);
    files
}

impl Project {
    /// The root directory for a path that was given as a project: the
    /// path itself, or its parent where the path is a file.
    pub fn root_for(path: &str, is_file: bool) -> (r: Result<String, ProjectError>)
        ensures
            match r {
                Ok(root) => if is_file {
                    parent_spec(path@) == Some(root@)
                } else {
                    root@ == path@
                },
                Err(e) => is_file && parent_spec(path@) is None && e.message_spec()
                    == "Invalid project: "@ + "Invalid project path"@,
            },
    {
        if is_file {
            match parent(path) {
                Some(root) => Ok(root),
                None => Err(ProjectError::Invalid(String::from_str("Invalid project path"))),
            }
        } else {
            Ok(String::from_str(path))
        }
    }

    /// Puts a project together from what was read. A project needs at
    /// least one source file.
    pub fn assemble(root_dir: String, package: Package, source_files: Vec<String>) -> (r: Result<
        Project,
        ProjectError,
    >)
        ensures
            r is Ok <==> source_files@.len() > 0,
            r matches Ok(p) ==> p.root_dir == root_dir && p.package == package && p.source_files
                == source_files,
            r matches Err(e) ==> e.message_spec() == "Invalid project: "@
                + "No .bal files found in project"@,
    {
        if source_files.len() == 0 {
            Err(ProjectError::Invalid(String::from_str("No .bal files found in project")))
        } else {
            Ok(Project { root_dir, package, source_files })
        }
    }

    /// The error for a directory without a manifest.
    pub fn missing_manifest() -> (e: ProjectError)
        ensures
            e.message_spec() == "Invalid project: "@ + "No Ballerina.toml found"@,
    {
        ProjectError::Invalid(String::from_str("No Ballerina.toml found"))
    }

    /// True for the `.bal` files directly in the project's root directory.
    pub fn is_valid_source_file(&self, path: &str) -> (b: bool)
        ensures
            b == (is_bal_file_spec(path@) && parent_spec(path@) == Some(self.root_dir@)),
    {
        if !is_bal_file(path) {
            return false;
        }
        match parent(path) {
            Some(dir) => dir == self.root_dir,
            None => false,
        }
    }
}

/// The identity of the module in the file `path` of a project: the
/// package's organisation, name and version, and the file's stem.
pub fn module_id_from_path(project: &Project, path: &str) -> (id: ModuleId)
    requires
        file_stem_spec(path@) is Some,
    ensures
        id@ == (ModuleIdView {
            org: project.package.info.org@,
            name: project.package.info.name@,
            version: project.package.info.version@,
            module: file_stem_spec(path@)->0,
        }),
{
    let module = match file_stem(path) {
        Some(stem) => stem,
        None => String::new(),
    };
    ModuleId::new(
        project.package.info.org.clone(),
        project.package.info.name.clone(),
        project.package.info.version.clone(),
        module,
    )
}

} // verus!
