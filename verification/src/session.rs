//! The build of a project, file by file.
//!
//! The files of a project are built one at a time, in build order. A file
//! that fails is counted and the build goes on; the build as a whole has
//! failed if any file has, and says so once every file was attempted.
//! The caller reads each file and hands the outcome of its build back.

use crate::dependency::{ids_view, BuildError, DependencyGraph, ModuleId, ModuleIdView};
use crate::path::{is_bal_file, is_bal_file_spec};
use crate::pipeline::FileStatus;
use crate::text::strings_view;
use vstd::prelude::*;
use vstd::string::*;

verus! {

broadcast use vstd::string::group_string_axioms;

/// The files to build for a build order: for each module of the order that
/// has a source file, the module and the file.
pub open spec fn tasks_spec(order: Seq<ModuleIdView>, files: Map<ModuleIdView, Seq<char>>) -> Seq<
    (ModuleIdView, Seq<char>),
>
    decreases order.len(),
{
    if order.len() == 0 {
        Seq::empty()
    } else if files.contains_key(order.last()) {
        tasks_spec(order.drop_last(), files).push((order.last(), files[order.last()]))
    } else {
        tasks_spec(order.drop_last(), files)
    }
}

/// The views of a list of tasks.
pub open spec fn tasks_view(tasks: Seq<(ModuleId, String)>) -> Seq<(ModuleIdView, Seq<char>)> {
    Seq::new(tasks.len(), |i: int| (tasks[i].0@, tasks[i].1@))
}

/// The message of a project build in which a file failed.
pub open spec fn failed_build_message() -> Seq<char> {
    "Project build completed with errors"@
}

/// The state of a project build.
pub struct ProjectBuild {
    order: Vec<ModuleId>,
    tasks: Vec<(ModuleId, String)>,
    next: usize,
    failed: bool,
}

impl ProjectBuild {
    /// The build order of the project's modules.
    pub closed spec fn order(&self) -> Seq<ModuleIdView> {
        ids_view(self.order@)
    }

    /// The files that are still to build, in order.
    pub closed spec fn remaining(&self) -> Seq<(ModuleIdView, Seq<char>)> {
        tasks_view(self.tasks@).skip(self.next as int)
    }

    /// Whether a file has failed so far.
    pub closed spec fn has_failed(&self) -> bool {
        self.failed
    }

    /// The build stands inside its list of files.
    pub closed spec fn wf(&self) -> bool {
        self.next <= self.tasks@.len()
    }

    /// Plans the build of a project: its modules in build order, and of
    /// those the ones that have a source file. Fails where modules depend
    /// on each other in a circle.
    pub fn start(graph: &DependencyGraph) -> (r: Result<ProjectBuild, BuildError>)
        requires
            graph.wf(),
        ensures
            r is Ok <==> !graph.has_cycle(),
            match r {
                Ok(build) => {
                    &&& build.wf()
                    &&& graph.is_build_order(build.order())
                    &&& build.remaining() == tasks_spec(build.order(), graph.files())
                    &&& !build.has_failed()
                },
                Err(BuildError::CircularDependency { cycle }) => graph.is_cycle(ids_view(cycle@)),
            },
    {
        match graph.build_order() {
            Err(e) => Err(e),
            Ok(order) => {
                let ghost ov = ids_view(order@);
                let mut tasks: Vec<(ModuleId, String)> = Vec::new();
                let mut i: usize = 0;
                while i < order.len()
                    invariant
                        graph.wf(),
                        i <= order@.len(),
                        ov == ids_view(order@),
                        tasks_view(tasks@) == tasks_spec(ov.subrange(0, i as int), graph.files()),
                    decreases order@.len() - i,
                {
                    proof {
                        let upto = ov.subrange(0, i + 1);
                        assert(upto.drop_last() =~= ov.subrange(0, i as int));
                    }
                    match graph.module_file(&order[i]) {
                        Some(path) => {
                            tasks.push((order[i].clone(), path.clone()));
                        },
                        None => {},
                    }
                    i += 1;
                }
                assert(ov.subrange(0, i as int) =~= ov);
                let build = ProjectBuild { order, tasks, next: 0, failed: false };
                Ok(build)
            },
        }
    }

    /// The modules of the project in build order.
    pub fn modules(&self) -> (order: &Vec<ModuleId>)
        ensures
            ids_view(order@) == self.order(),
    {
        &self.order
    }

    /// The file to build next, if any is left.
    pub fn next_file(&self) -> (r: Option<&String>)
        requires
            self.wf(),
        ensures
            match r {
                Some(path) => self.remaining().len() > 0 && path@ == self.remaining()[0].1,
                None => self.remaining().len() == 0,
            },
    {
        if self.next < self.tasks.len() {
            Some(&self.tasks[self.next].1)
        } else {
            None
        }
    }

    /// Takes note of how the build of the next file ended, and moves on to
    /// the file behind it. Does nothing where no file is left.
    pub fn record(&mut self, status: FileStatus)
        requires
            old(self).wf(),
        ensures
            final(self).wf(),
            final(self).order() == old(self).order(),
            old(self).remaining().len() > 0 ==> final(self).remaining() == old(
                self,
            ).remaining().drop_first() && final(self).has_failed() == (old(self).has_failed()
                || !status.is_success()),
            old(self).remaining().len() == 0 ==> final(self).remaining() == old(self).remaining()
                && final(self).has_failed() == old(self).has_failed(),
    {
        if self.next < self.tasks.len() {
            proof {
                assert(tasks_view(self.tasks@).skip(self.next + 1) =~= tasks_view(
                    self.tasks@,
                ).skip(self.next as int).drop_first());
            }
            self.next = self.next + 1;
            if !status.succeeded() {
                self.failed = true;
            }
        }
    }

    /// The outcome of the build: none while files are left; then success
    /// if no file has failed, and the failure message if one has.
    pub fn outcome(&self) -> (r: Option<Result<(), String>>)
        requires
            self.wf(),
        ensures
            r is None <==> self.remaining().len() > 0,
            r matches Some(result) ==> (result is Ok <==> !self.has_failed()),
            r matches Some(Err(message)) ==> message@ == failed_build_message(),
    {
        if self.next < self.tasks.len() {
            None
        } else if self.failed {
            Some(Err(String::from_str("Project build completed with errors")))
        } else {
            Some(Ok(()))
        }
    }
}

/// The first directory of `dirs` that holds a manifest, with the manifest's
/// name: `flags[i]` tells whether `dirs[i]` holds `Ballerina.toml` and
/// whether it holds `ballerina.toml`. Directories without flags hold none.
pub open spec fn first_manifest_spec(dirs: Seq<Seq<char>>, flags: Seq<(bool, bool)>) -> Option<
    (Seq<char>, Seq<char>),
>
    decreases dirs.len(),
{
    if dirs.len() == 0 || flags.len() == 0 {
        None
    } else if flags[0].0 {
        Some((dirs[0], crate::project::manifest_name()))
    } else if flags[0].1 {
        Some((dirs[0], crate::project::manifest_name_lower()))
    } else {
        first_manifest_spec(dirs.drop_first(), flags.drop_first())
    }
}

/// The first of the given directories that holds a manifest, and the name
/// of that manifest.
pub fn first_manifest(dirs: &Vec<String>, flags: &Vec<(bool, bool)>) -> (r: Option<
    (String, String),
>)
    ensures
        match r {
            Some((dir, name)) => first_manifest_spec(strings_view(dirs@), flags@) == Some(
                (dir@, name@),
            ),
            None => first_manifest_spec(strings_view(dirs@), flags@) is None,
        },
{
    let ghost all = strings_view(dirs@);
    let mut i: usize = 0;
    assert(all.skip(0) =~= all);
    assert(flags@.skip(0) =~= flags@);
    while i < dirs.len() && i < flags.len()
        invariant
            i <= dirs@.len(),
            i <= flags@.len(),
            all == strings_view(dirs@),
            first_manifest_spec(all.skip(i as int), flags@.skip(i as int)) == first_manifest_spec(
                all,
                flags@,
            ),
        decreases dirs@.len() - i,
    {
        proof {
            assert(all.skip(i as int).drop_first() =~= all.skip(i + 1));
            assert(flags@.skip(i as int).drop_first() =~= flags@.skip(i + 1));
        }
        if flags[i].0 {
            return Some((dirs[i].clone(), String::from_str("Ballerina.toml")));
        }
        if flags[i].1 {
            return Some((dirs[i].clone(), String::from_str("ballerina.toml")));
        }
        i += 1;
    }
    None
}

/// Why a single file is not built, if it is not.
pub open spec fn single_file_refusal(
    path: Seq<char>,
    exists: bool,
    project: Option<(Seq<char>, Seq<char>)>,
) -> Option<Seq<char>> {
    if !exists {
        Some("File not found: "@ + path)
    } else if !is_bal_file_spec(path) {
        Some("Not a Ballerina file: "@ + path)
    } else {
        match project {
            Some((dir, name)) => Some(
                "File "@ + path + " is in a Ballerina project directory (found "@ + name + " in "@
                    + dir + "). Use 'bal build' in the project directory."@,
            ),
            None => None,
        }
    }
}

/// Decides whether a path may be built as a single file. The file must
/// exist and be a source file, and no directory above it may hold a
/// manifest: `project` is the nearest such directory and the name of its
/// manifest, if there is one.
pub fn check_single_file(path: &str, exists: bool, project: &Option<(String, String)>) -> (r:
    Result<(), String>)
    ensures
        match r {
            Ok(_) => single_file_refusal(path@, exists, project_view(*project)) is None,
            Err(message) => single_file_refusal(path@, exists, project_view(*project)) == Some(
                message@,
            ),
        },
{
    if !exists {
        return Err(String::from_str("File not found: ").concat(path));
    }
    if !is_bal_file(path) {
        return Err(String::from_str("Not a Ballerina file: ").concat(path));
    }
    match project {
        Some((dir, name)) => {
            let mut m = String::from_str("File ");
            m.append(path);
            m.append(" is in a Ballerina project directory (found ");
            m.append(name.as_str());
            m.append(" in ");
            m.append(dir.as_str());
            m.append("). Use 'bal build' in the project directory.");
            Err(m)
        },
        None => Ok(()),
    }
}

/// The view of an optional directory with its manifest name.
pub open spec fn project_view(project: Option<(String, String)>) -> Option<
    (Seq<char>, Seq<char>),
> {
    match project {
        Some((dir, name)) => Some((dir@, name@)),
        None => None,
    }
}

} // verus!
