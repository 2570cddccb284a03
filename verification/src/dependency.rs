//! Module identities, the dependency graph with its build order, and the
//! content-addressed parse cache.

use crate::table::{Keyed, Table};
use crate::text::{string_from_chars, to_chars};
use crate::topo;
use std::collections::hash_map::DefaultHasher;
use std::hash::Hasher;
use vstd::prelude::*;
use vstd::slice::*;
use vstd::std_specs::hash::*;
use vstd::string::*;
use vstd::utf8::encode_utf8;

verus! {

broadcast use vstd::string::group_string_axioms;

/// Identity of a compilation unit: organisation, package, version and
/// module. A value, compared field by field.
#[derive(Debug, Hash, Eq, PartialEq)]
pub struct ModuleId {
    org: String,
    name: String,
    version: String,
    module: String,
}

/// Mathematical value of a [`ModuleId`].
pub struct ModuleIdView {
    pub org: Seq<char>,
    pub name: Seq<char>,
    pub version: Seq<char>,
    pub module: Seq<char>,
}

impl View for ModuleId {
    type V = ModuleIdView;

    closed spec fn view(&self) -> ModuleIdView {
        ModuleIdView {
            org: self.org@,
            name: self.name@,
            version: self.version@,
            module: self.module@,
        }
    }
}

impl Clone for ModuleId {
    fn clone(&self) -> (r: Self)
        ensures
            r == *self,
    {
        ModuleId {
            org: self.org.clone(),
            name: self.name.clone(),
            version: self.version.clone(),
            module: self.module.clone(),
        }
    }
}

impl Keyed for ModuleId {
    fn same_key(&self, other: &Self) -> (b: bool) {
        self.org == other.org && self.name == other.name && self.version == other.version
            && self.module == other.module
    }
}

/// The version given to modules that are known from an import only.
pub open spec fn default_version() -> Seq<char> {
    "0.1.0"@
}

/// The `index`-th part of `path` when it is split at `/`; empty where the
/// path has fewer parts.
pub open spec fn import_part(path: Seq<char>, index: nat) -> Seq<char>
    decreases index,
{
    let cut = first_slash(path);
    if index == 0 {
        path.subrange(0, cut)
    } else if cut >= path.len() {
        Seq::empty()
    } else {
        import_part(path.subrange(cut + 1, path.len() as int), (index - 1) as nat)
    }
}

/// Index of the first `/` of `s`; the length of `s` where there is none.
pub open spec fn first_slash(s: Seq<char>) -> int
    decreases s.len(),
{
    if s.len() == 0 || s[0] == '/' {
        0
    } else {
        1 + first_slash(s.drop_first())
    }
}

/// The first `/` is where a `/` stands behind none.
proof fn lemma_first_slash_is(s: Seq<char>, cut: int)
    requires
        0 <= cut <= s.len(),
        cut < s.len() ==> s[cut] == '/',
        forall|i: int| 0 <= i < cut ==> s[i] != '/',
    ensures
        first_slash(s) == cut,
    decreases s.len(),
{
    if s.len() > 0 && s[0] != '/' {
        lemma_first_slash_is(s.drop_first(), cut - 1);
    }
}

/// Finds the first `/` in `chars[from..]`.
fn find_slash(chars: &Vec<char>, from: usize) -> (cut: usize)
    requires
        from <= chars@.len(),
    ensures
        from <= cut <= chars@.len(),
        cut - from == first_slash(chars@.subrange(from as int, chars@.len() as int)),
{
    let mut cut = from;
    while cut < chars.len() && chars[cut] != '/'
        invariant
            from <= cut <= chars@.len(),
            forall|i: int| from <= i < cut ==> chars@[i] != '/',
        decreases chars@.len() - cut,
    {
        cut += 1;
    }
    proof {
        lemma_first_slash_is(chars@.subrange(from as int, chars@.len() as int), cut - from);
    }
    cut
}

impl ModuleId {
    /// The identity with the given parts.
    pub fn new(org: String, name: String, version: String, module: String) -> (id: ModuleId)
        ensures
            id@ == (ModuleIdView { org: org@, name: name@, version: version@, module: module@ }),
    {
        ModuleId { org, name, version, module }
    }

    /// The identity that an import path names: its first three parts
    /// between slashes are organisation, package and module; parts that
    /// are missing are empty, and the version is the default one.
    pub fn from_import(import_path: &str) -> (id: ModuleId)
        ensures
            id@ == (ModuleIdView {
                org: import_part(import_path@, 0),
                name: import_part(import_path@, 1),
                version: default_version(),
                module: import_part(import_path@, 2),
            }),
    {
        let chars = to_chars(import_path);
        let ghost s = chars@;
        let n = chars.len();
        proof {
            reveal_with_fuel(import_part, 3);
        }
        let c0 = find_slash(&chars, 0);
        assert(s.subrange(0, n as int) =~= s);
        let org = string_from_chars(&chars, 0, c0);
        let (name, module) = if c0 >= n {
            (String::new(), String::new())
        } else {
            let ghost r1 = s.subrange(c0 + 1, n as int);
            let c1 = find_slash(&chars, c0 + 1);
            let name = string_from_chars(&chars, c0 + 1, c1);
            assert(s.subrange(c0 + 1, c1 as int) =~= r1.subrange(0, c1 - c0 - 1));
            let module = if c1 >= n {
                String::new()
            } else {
                let ghost r2 = s.subrange(c1 + 1, n as int);
                assert(r2 =~= r1.subrange(c1 - c0, r1.len() as int));
                let c2 = find_slash(&chars, c1 + 1);
                assert(s.subrange(c1 + 1, c2 as int) =~= r2.subrange(0, c2 - c1 - 1));
                string_from_chars(&chars, c1 + 1, c2)
            };
            (name, module)
        };
        ModuleId { org, name, version: String::from_str("0.1.0"), module }
    }

    /// The organisation.
    pub fn org(&self) -> (s: &String)
        ensures
            s@ == self@.org,
    {
        &self.org
    }

    /// The package name.
    pub fn name(&self) -> (s: &String)
        ensures
            s@ == self@.name,
    {
        &self.name
    }

    /// The version.
    pub fn version(&self) -> (s: &String)
        ensures
            s@ == self@.version,
    {
        &self.version
    }

    /// The module name.
    pub fn module(&self) -> (s: &String)
        ensures
            s@ == self@.module,
    {
        &self.module
    }

    /// The identity as it is shown to users: `org/name/module`.
    pub fn to_text(&self) -> (s: String)
        ensures
            s@ == self@.org + "/"@ + self@.name + "/"@ + self@.module,
    {
        let mut s = String::new();
        s.append(self.org.as_str());
        s.append("/");
        s.append(self.name.as_str());
        s.append("/");
        s.append(self.module.as_str());
        s
    }
}

/// A modification time, as seconds and nanoseconds since the Unix epoch.
#[derive(Debug, Clone, Copy, PartialEq, Eq, Structural)]
pub struct Timestamp {
    pub secs: u64,
    pub nanos: u32,
}

/// Why no build order exists.
#[derive(Debug)]
pub enum BuildError {
    /// The modules of `cycle` depend on each other in a circle: each on the
    /// next, and the last is the first again.
    CircularDependency { cycle: Vec<ModuleId> },
}

/// The views of a sequence of identities.
pub open spec fn ids_view(ids: Seq<ModuleId>) -> Seq<ModuleIdView> {
    Seq::new(ids.len(), |i: int| ids[i]@)
}

/// The set of the views of a sequence of identities.
pub open spec fn ids_set(ids: Seq<ModuleId>) -> Set<ModuleIdView> {
    Set::new(|m: ModuleIdView| exists|i: int| 0 <= i < ids.len() && #[trigger] ids[i]@ == m)
}

/// `m` is one of the first `limit` identities of `ids`.
pub open spec fn id_listed(ids: Seq<ModuleId>, limit: int, m: ModuleIdView) -> bool {
    exists|j: int| 0 <= j < limit && j < ids.len() && #[trigger] ids[j]@ == m
}

/// The content hash of a source text: the standard library's default
/// hasher, fed the bytes of the text and the byte `0xff`.
pub open spec fn content_hash(source: Seq<char>) -> u64 {
    DefaultHasher::spec_finish(seq![encode_utf8(source), seq![0xffu8]])
}

/// What a parse cache answers for a path and a content hash: the tree
/// stored under the path, if it is stored with that hash.
pub open spec fn lookup_hash(
    cache: Map<Seq<char>, (rowan::GreenNode, u64)>,
    path: Seq<char>,
    hash: u64,
) -> Option<rowan::GreenNode> {
    if cache.contains_key(path) && cache[path].1 == hash {
        Some(cache[path].0)
    } else {
        None
    }
}

/// What a parse cache answers for a path and a source: the tree stored
/// under the path, if the stored hash is the content hash of the source.
pub open spec fn lookup(
    cache: Map<Seq<char>, (rowan::GreenNode, u64)>,
    path: Seq<char>,
    source: Seq<char>,
) -> Option<rowan::GreenNode> {
    lookup_hash(cache, path, content_hash(source))
}

/// Calculates the content hash of a source text, for change detection.
pub fn calculate_hash(source: &str) -> (hash: u64)
    ensures
        hash == content_hash(source@),
{
    let mut hasher = DefaultHasher::new();
    hasher.write(source.as_bytes());
    let mut end: Vec<u8> = Vec::new();
    end.push(0xff);
    hasher.write(end.as_slice());
    assert(hasher@ =~= seq![encode_utf8(source@), seq![0xffu8]]);
    hasher.finish()
}

/// Which modules depend on which, where their sources are, when those were
/// last seen modified, and the trees that were parsed from them.
pub struct DependencyGraph {
    dependencies: Table<ModuleId, Vec<ModuleId>>,
    timestamps: Table<String, Timestamp>,
    module_files: Table<ModuleId, String>,
    parse_cache: Table<String, (rowan::GreenNode, u64)>,
}

impl DependencyGraph {
    /// The graph is well formed: each of its maps has one entry for a key.
    pub closed spec fn wf(&self) -> bool {
        &&& self.dependencies.wf()
        &&& self.timestamps.wf()
        &&& self.module_files.wf()
        &&& self.parse_cache.wf()
    }

    /// The dependency sets of the modules that were added.
    pub closed spec fn deps(&self) -> Map<ModuleIdView, Set<ModuleIdView>> {
        Map::new(
            |m: ModuleIdView| self.dependencies.has(m),
            |m: ModuleIdView| ids_set(self.dependencies.value(m)@),
        )
    }

    /// The modules that were added, in the order in which they were first
    /// added.
    pub closed spec fn module_list(&self) -> Seq<ModuleIdView> {
        Seq::new(self.dependencies.seq().len(), |i: int| self.dependencies.seq()[i].0@)
    }

    /// The list of modules names each module that was added once.
    proof fn lemma_module_list(&self)
        requires
            self.wf(),
        ensures
            forall|i: int, j: int|
                0 <= i < j < self.module_list().len() ==> self.module_list()[i]
                    != self.module_list()[j],
            forall|m: ModuleIdView| self.deps().contains_key(m) <==> self.module_list().contains(m),
    {
        assert forall|m: ModuleIdView| self.deps().contains_key(m) <==> self.module_list().contains(
            m,
        ) by {
            if self.deps().contains_key(m) {
                let i = self.dependencies.index_of(m);
                assert(self.module_list()[i] == m);
            }
        }
    }

    /// The dependencies with which a module was added, as they were given.
    pub closed spec fn dependency_list(&self, m: ModuleIdView) -> Seq<ModuleIdView> {
        ids_view(self.dependencies.value(m)@)
    }

    /// The source file of each module that was added.
    pub closed spec fn files(&self) -> Map<ModuleIdView, Seq<char>> {
        Map::new(
            |m: ModuleIdView| self.module_files.has(m),
            |m: ModuleIdView| self.module_files.value(m)@,
        )
    }

    /// The files whose modification time is recorded, with that time, in
    /// the order in which they were first recorded.
    pub closed spec fn watched(&self) -> Seq<(Seq<char>, Timestamp)> {
        Seq::new(
            self.timestamps.seq().len(),
            |i: int| (self.timestamps.seq()[i].0@, self.timestamps.seq()[i].1),
        )
    }

    /// The parse cache: for each path the cached tree and the hash of the
    /// source it was parsed from.
    pub closed spec fn cache(&self) -> Map<Seq<char>, (rowan::GreenNode, u64)> {
        self.parse_cache.map()
    }

    /// Module `m` was added with `d` among its dependencies.
    pub open spec fn depends_on(&self, m: ModuleIdView, d: ModuleIdView) -> bool {
        self.deps().contains_key(m) && self.deps()[m].contains(d)
    }

    /// Module `m` occurs in the graph: it was added, or it is a dependency
    /// of a module that was.
    pub open spec fn mentions(&self, m: ModuleIdView) -> bool {
        self.deps().contains_key(m) || exists|k: ModuleIdView| self.depends_on(k, m)
    }

    /// Each module of `path` depends on the next, and the last is the
    /// first again.
    pub open spec fn is_cycle(&self, path: Seq<ModuleIdView>) -> bool {
        &&& path.len() >= 2
        &&& path[0] == path.last()
        &&& forall|k: int| 0 <= k < path.len() - 1 ==> self.depends_on(#[trigger] path[k], path[k + 1])
    }

    /// Some modules depend on each other in a circle.
    pub open spec fn has_cycle(&self) -> bool {
        exists|path: Seq<ModuleIdView>| self.is_cycle(path)
    }

    /// `order` lists each module of the graph once, behind every module
    /// that it depends on.
    pub open spec fn is_build_order(&self, order: Seq<ModuleIdView>) -> bool {
        &&& forall|a: int, b: int| 0 <= a < b < order.len() ==> order[a] != order[b]
        &&& forall|a: int| 0 <= a < order.len() ==> self.mentions(#[trigger] order[a])
        &&& forall|m: ModuleIdView| self.mentions(m) ==> order.contains(m)
        &&& forall|a: int, b: int|
            0 <= a < order.len() && 0 <= b < order.len() && self.depends_on(
                #[trigger] order[a],
                #[trigger] order[b],
            ) ==> b < a
    }

    /// Whether the recorded modification times are the observed ones:
    /// `observed` holds, for each watched file in order, the time that was
    /// read for it, or `None` where none could be read.
    pub open spec fn up_to_date(&self, observed: Seq<Option<Timestamp>>) -> bool {
        &&& observed.len() == self.watched().len()
        &&& forall|i: int|
            0 <= i < observed.len() ==> #[trigger] observed[i] == Some(self.watched()[i].1)
    }

    /// An empty graph: no module, no file, no recorded time and no cached
    /// tree.
    pub fn new() -> (graph: DependencyGraph)
        ensures
            graph.wf(),
            graph.deps() == Map::<ModuleIdView, Set<ModuleIdView>>::empty(),
            graph.module_list() == Seq::<ModuleIdView>::empty(),
            graph.files() == Map::<ModuleIdView, Seq<char>>::empty(),
            graph.watched() == Seq::<(Seq<char>, Timestamp)>::empty(),
            forall|path: Seq<char>| graph.time_of(path) is None,
            graph.cache() == Map::<Seq<char>, (rowan::GreenNode, u64)>::empty(),
    {
        let graph = DependencyGraph {
            dependencies: Table::new(),
            timestamps: Table::new(),
            module_files: Table::new(),
            parse_cache: Table::new(),
        };
        graph
    }

    /// Adds a module with its dependencies and its source file, in place
    /// of what was known of the module. `modified` is the file's
    /// modification time as just read; where none could be read, no time
    /// is recorded and an earlier record stays.
    pub fn add_module(
        &mut self,
        module: ModuleId,
        dependencies: Vec<ModuleId>,
        file_path: String,
        modified: Option<Timestamp>,
    )
        requires
            old(self).wf(),
        ensures
            final(self).wf(),
            final(self).deps() == old(self).deps().insert(module@, ids_set(dependencies@)),
            final(self).files() == old(self).files().insert(module@, file_path@),
            final(self).cache() == old(self).cache(),
            final(self).dependency_list(module@) == ids_view(dependencies@),
            forall|m: ModuleIdView|
                m != module@ && old(self).deps().contains_key(m) ==> final(self).dependency_list(m)
                    == old(self).dependency_list(m),
            final(self).module_list() == (if old(self).deps().contains_key(module@) {
                old(self).module_list()
            } else {
                old(self).module_list().push(module@)
            }),
            modified is None ==> final(self).watched() == old(self).watched(),
            modified matches Some(t) ==> final(self).time_of(file_path@) == Some(t) && forall|
                p: Seq<char>,
            |
                p != file_path@ ==> final(self).time_of(p) == old(self).time_of(p),
            modified matches Some(t) ==> (if old(self).time_of(file_path@) is Some {
                &&& final(self).watched().len() == old(self).watched().len()
                &&& forall|i: int|
                    0 <= i < old(self).watched().len() ==> #[trigger] final(self).watched()[i] == (
                    if old(self).watched()[i].0 == file_path@ {
                        (file_path@, t)
                    } else {
                        old(self).watched()[i]
                    })
            } else {
                final(self).watched() == old(self).watched().push((file_path@, t))
            }),
    {
        let ghost before = *self;
        let ghost mv = module@;
        let ghost deps_set = ids_set(dependencies@);
        let ghost path = file_path@;
        let second = module.clone();
        let path_copy = file_path.clone();
        self.dependencies.insert(module, dependencies);
        self.module_files.insert(second, file_path);
        match modified {
            Some(t) => {
                self.timestamps.insert(path_copy, t);
            },
            None => {},
        }
        proof {
            assert forall|m: ModuleIdView| #[trigger]
                self.deps().contains_key(m) == before.deps().insert(mv, deps_set).contains_key(
                    m,
                ) by {
                assert(self.dependencies.map().contains_key(m) == before.dependencies.map().insert(
                    mv,
                    dependencies,
                ).contains_key(m));
            }
            assert forall|m: ModuleIdView| self.deps().contains_key(m) implies #[trigger]
                self.deps()[m] == before.deps().insert(mv, deps_set)[m] by {
                assert(self.dependencies.map()[m] == before.dependencies.map().insert(
                    mv,
                    dependencies,
                )[m]);
            }
            assert forall|m: ModuleIdView| #[trigger]
                self.files().contains_key(m) == before.files().insert(mv, path).contains_key(
                    m,
                ) by {
                assert(self.module_files.map().contains_key(m) == before.module_files.map().insert(
                    mv,
                    file_path,
                ).contains_key(m));
            }
            assert forall|m: ModuleIdView| self.files().contains_key(m) implies #[trigger]
                self.files()[m] == before.files().insert(mv, path)[m] by {
                assert(self.module_files.map()[m] == before.module_files.map().insert(
                    mv,
                    file_path,
                )[m]);
            }
            assert(self.dependencies.map()[mv] == dependencies);
            assert forall|m: ModuleIdView|
                m != mv && before.deps().contains_key(m) implies self.dependency_list(m)
                == before.dependency_list(m) by {
                assert(self.dependencies.map().contains_key(m));
            }
            match modified {
                Some(t) => {
                    if before.time_of(path) is Some {
                        assert forall|i: int| 0 <= i < before.watched().len() implies #[trigger]
                            self.watched()[i] == (if before.watched()[i].0 == path {
                            (path, t)
                        } else {
                            before.watched()[i]
                        }) by {}
                    }
                },
                None => {},
            }
        }
    }

    /// The recorded modification time of a file.
    pub closed spec fn time_of(&self, path: Seq<char>) -> Option<Timestamp> {
        if self.timestamps.map().contains_key(path) {
            Some(self.timestamps.map()[path])
        } else {
            None
        }
    }

    /// The recorded modification time of a file, if one is recorded.
    pub fn recorded_time(&self, path: &str) -> (r: Option<Timestamp>)
        requires
            self.wf(),
        ensures
            r == self.time_of(path@),
    {
        let key = String::from_str(path);
        match self.timestamps.get(&key) {
            Some(t) => Some(*t),
            None => None,
        }
    }

    /// The paths of the watched files, in order.
    pub fn watched_files(&self) -> (paths: Vec<String>)
        ensures
            paths@.len() == self.watched().len(),
            forall|i: int| 0 <= i < paths@.len() ==> (#[trigger] paths@[i])@ == self.watched()[i].0,
    {
        let mut paths: Vec<String> = Vec::new();
        let mut i: usize = 0;
        while i < self.timestamps.len()
            invariant
                i <= self.timestamps.seq().len(),
                paths@.len() == i,
                forall|j: int| 0 <= j < i ==> (#[trigger] paths@[j])@ == self.watched()[j].0,
            decreases self.timestamps.seq().len() - i,
        {
            paths.push(self.timestamps.key_at(i).clone());
            i += 1;
        }
        paths
    }

    /// Checks the recorded modification times against the observed ones
    /// (see [`DependencyGraph::up_to_date`]). One file whose time differs
    /// or cannot be read makes the whole graph stale.
    pub fn is_up_to_date(&self, observed: &Vec<Option<Timestamp>>) -> (b: bool)
        ensures
            b == self.up_to_date(observed@),
    {
        if observed.len() != self.timestamps.len() {
            return false;
        }
        let mut i: usize = 0;
        while i < observed.len()
            invariant
                i <= observed@.len(),
                observed@.len() == self.timestamps.seq().len(),
                forall|j: int| 0 <= j < i ==> #[trigger] observed@[j] == Some(self.watched()[j].1),
            decreases observed@.len() - i,
        {
            let recorded = *self.timestamps.value_at(i);
            match observed[i] {
                Some(t) => {
                    if t != recorded {
                        return false;
                    }
                },
                None => {
                    return false;
                },
            }
            i += 1;
        }
        true
    }

    /// The source file of a module, if the module was added.
    pub fn module_file(&self, module: &ModuleId) -> (r: Option<&String>)
        requires
            self.wf(),
        ensures
            match r {
                Some(path) => self.files().contains_key(module@) && path@ == self.files()[module@],
                None => !self.files().contains_key(module@),
            },
    {
        self.module_files.get(module)
    }

    /// The dependencies of a module, if the module was added.
    pub fn dependencies_of(&self, module: &ModuleId) -> (r: Option<&Vec<ModuleId>>)
        requires
            self.wf(),
        ensures
            match r {
                Some(list) => self.deps().contains_key(module@) && ids_set(list@)
                    == self.deps()[module@] && ids_view(list@) == self.dependency_list(module@),
                None => !self.deps().contains_key(module@),
            },
    {
        self.dependencies.get(module)
    }

    /// The modules that were added, in the order in which they were first
    /// added.
    pub fn modules(&self) -> (ids: Vec<ModuleId>)
        requires
            self.wf(),
        ensures
            ids_view(ids@) == self.module_list(),
            forall|i: int, j: int|
                0 <= i < j < ids@.len() ==> (#[trigger] ids@[i])@ != (#[trigger] ids@[j])@,
            forall|m: ModuleIdView| self.deps().contains_key(m) <==> ids_view(ids@).contains(m),
    {
        let mut ids: Vec<ModuleId> = Vec::new();
        let mut i: usize = 0;
        while i < self.dependencies.len()
            invariant
                i <= self.dependencies.seq().len(),
                ids@.len() == i,
                forall|j: int| 0 <= j < i ==> (#[trigger] ids@[j])@ == self.dependencies.seq()[j].0@,
            decreases self.dependencies.seq().len() - i,
        {
            ids.push(self.dependencies.key_at(i).clone());
            i += 1;
        }
        proof {
            self.lemma_module_list();
        }
        ids
    }

    /// The tree that the cache holds for a file and a source: the tree
    /// cached for the path, if it was parsed from a source with the same
    /// content hash.
    pub open spec fn cached_tree(&self, path: Seq<char>, source: Seq<char>) -> Option<
        rowan::GreenNode,
    > {
        lookup(self.cache(), path, source)
    }

    /// The cached tree of a file, if it is cached with the given content
    /// hash.
    pub fn get_cached_by_hash(&self, path: &str, hash: u64) -> (r: Option<&rowan::GreenNode>)
        requires
            self.wf(),
        ensures
            match r {
                Some(tree) => lookup_hash(self.cache(), path@, hash) == Some(*tree),
                None => lookup_hash(self.cache(), path@, hash) is None,
            },
    {
        let key = String::from_str(path);
        match self.parse_cache.get(&key) {
            Some(entry) => {
                if entry.1 == hash {
                    Some(&entry.0)
                } else {
                    None
                }
            },
            None => None,
        }
    }

    /// The cached tree of a file, if the file was parsed before from a
    /// source with the same content hash as `source`.
    pub fn get_cached_parse(&self, path: &str, source: &str) -> (r: Option<&rowan::GreenNode>)
        requires
            self.wf(),
        ensures
            match r {
                Some(tree) => self.cached_tree(path@, source@) == Some(*tree),
                None => self.cached_tree(path@, source@) is None,
            },
    {
        self.get_cached_by_hash(path, calculate_hash(source))
    }

    /// Caches a tree for a file under the given content hash, in place of
    /// what was cached for the file.
    pub fn cache_by_hash(&mut self, path: String, hash: u64, tree: rowan::GreenNode)
        requires
            old(self).wf(),
        ensures
            final(self).wf(),
            final(self).cache() == old(self).cache().insert(path@, (tree, hash)),
            final(self).deps() == old(self).deps(),
            final(self).module_list() == old(self).module_list(),
            forall|m: ModuleIdView| final(self).dependency_list(m) == old(self).dependency_list(m),
            final(self).files() == old(self).files(),
            final(self).watched() == old(self).watched(),
    {
        self.parse_cache.insert(path, (tree, hash));
    }

    /// Caches the tree parsed from `source` for a file, in place of what
    /// was cached for it.
    pub fn cache_parse(&mut self, path: String, source: &str, tree: rowan::GreenNode)
        requires
            old(self).wf(),
        ensures
            final(self).wf(),
            final(self).cache() == old(self).cache().insert(path@, (tree, content_hash(source@))),
            final(self).deps() == old(self).deps(),
            final(self).module_list() == old(self).module_list(),
            forall|m: ModuleIdView| final(self).dependency_list(m) == old(self).dependency_list(m),
            final(self).files() == old(self).files(),
            final(self).watched() == old(self).watched(),
    {
        self.cache_by_hash(path, calculate_hash(source), tree);
    }
}

/// `m` is among the dependencies of an entry.
pub open spec fn is_listed_dependency(
    entries: Seq<(ModuleId, Vec<ModuleId>)>,
    m: ModuleIdView,
) -> bool {
    exists|a: int, k: int|
        0 <= a < entries.len() && 0 <= k < entries[a].1@.len() && #[trigger] entries[a].1@[k]@ == m
}

impl DependencyGraph {
    /// `nodes` lists the modules of the graph once each: first those that
    /// were added, in their order, then the other dependencies.
    spec fn nodes_ok(&self, nodes: Seq<ModuleId>, scanned: int) -> bool {
        let keys = self.dependencies.seq();
        &&& keys.len() <= nodes.len()
        &&& forall|i: int| 0 <= i < keys.len() ==> (#[trigger] nodes[i])@ == keys[i].0@
        &&& forall|i: int, j: int| 0 <= i < j < nodes.len() ==> (#[trigger] nodes[i])@ != (
        #[trigger] nodes[j])@
        &&& forall|a: int, k: int|
            0 <= a < scanned && a < keys.len() && 0 <= k < keys[a].1@.len() ==> id_listed(
                nodes,
                nodes.len() as int,
                #[trigger] keys[a].1@[k]@,
            )
        &&& forall|j: int|
            keys.len() <= j < nodes.len() ==> is_listed_dependency(keys, (#[trigger] nodes[j])@)
    }

    /// `adj` lists, for each node, the nodes that it depends on.
    spec fn adj_ok(&self, nodes: Seq<ModuleId>, adj: Seq<Vec<usize>>, built: int) -> bool {
        let keys = self.dependencies.seq();
        &&& adj.len() == built
        &&& forall|i: int|
            0 <= i < built && i < keys.len() ==> (#[trigger] adj[i])@.len() == keys[i].1@.len()
        &&& forall|i: int, k: int|
            0 <= i < built && i < keys.len() && 0 <= k < keys[i].1@.len() ==> (#[trigger] adj[i]@[k])
                < nodes.len() && nodes[adj[i]@[k] as int]@ == keys[i].1@[k]@
        &&& forall|i: int| keys.len() <= i < built ==> (#[trigger] adj[i])@.len() == 0
    }

    /// Dependencies between nodes are dependencies between their modules.
    proof fn lemma_edges(&self, nodes: Seq<ModuleId>, adj: Seq<Vec<usize>>, i: int, j: int)
        requires
            self.wf(),
            self.nodes_ok(nodes, self.dependencies.seq().len() as int),
            self.adj_ok(nodes, adj, nodes.len() as int),
            0 <= i < nodes.len(),
            0 <= j < nodes.len(),
        ensures
            topo::edge(adj, i, j) == self.depends_on(nodes[i]@, nodes[j]@),
    {
        let keys = self.dependencies.seq();
        if self.depends_on(nodes[i]@, nodes[j]@) {
            let a = self.dependencies.index_of(nodes[i]@);
            if a < i {
                assert(nodes[a]@ != nodes[i]@);
            }
            let k = choose|k: int| 0 <= k < keys[i].1@.len() && #[trigger] keys[i].1@[k]@ == nodes[j]@;
            let t = adj[i]@[k] as int;
        }
    }

    /// The nodes are exactly the modules of the graph.
    proof fn lemma_nodes(&self, nodes: Seq<ModuleId>, m: ModuleIdView)
        requires
            self.wf(),
            self.nodes_ok(nodes, self.dependencies.seq().len() as int),
        ensures
            self.mentions(m) == id_listed(nodes, nodes.len() as int, m),
    {
        let keys = self.dependencies.seq();
        if self.mentions(m) {
            if self.deps().contains_key(m) {
                let a = self.dependencies.index_of(m);
                assert(nodes[a]@ == m);
            }
        }
        if id_listed(nodes, nodes.len() as int, m) {
            let j = choose|j: int| 0 <= j < nodes.len() && j < nodes.len() && #[trigger] nodes[j]@ == m;
            if j >= keys.len() {
                let (a, k) = choose|a: int, k: int|
                    0 <= a < keys.len() && 0 <= k < keys[a].1@.len() && #[trigger] keys[a].1@[k]@
                        == nodes[j]@;
                assert(self.depends_on(keys[a].0@, m));
            }
        }
    }

    /// Lists the modules of the graph.
    fn collect_nodes(&self) -> (nodes: Vec<ModuleId>)
        requires
            self.wf(),
        ensures
            self.nodes_ok(nodes@, self.dependencies.seq().len() as int),
    {
        let mut nodes: Vec<ModuleId> = Vec::new();
        let count = self.dependencies.len();
        let mut i: usize = 0;
        while i < count
            invariant
                self.wf(),
                count == self.dependencies.seq().len(),
                i <= count,
                nodes@.len() == i,
                forall|j: int| 0 <= j < i ==> (#[trigger] nodes@[j])@ == self.dependencies.seq()[j].0@,
            decreases count - i,
        {
            nodes.push(self.dependencies.key_at(i).clone());
            i += 1;
        }
        let mut a: usize = 0;
        while a < count
            invariant
                self.wf(),
                count == self.dependencies.seq().len(),
                a <= count,
                self.nodes_ok(nodes@, a as int),
            decreases count - a,
        {
            let deps = self.dependencies.value_at(a);
            let mut k: usize = 0;
            while k < deps.len()
                invariant
                    self.wf(),
                    count == self.dependencies.seq().len(),
                    a < count,
                    *deps == self.dependencies.seq()[a as int].1,
                    k <= deps@.len(),
                    self.nodes_ok(nodes@, a as int),
                    forall|q: int|
                        0 <= q < k ==> id_listed(nodes@, nodes@.len() as int, #[trigger] deps@[q]@),
                decreases deps@.len() - k,
            {
                let ghost before = nodes@;
                let found = position(&nodes, &deps[k]);
                if found.is_none() {
                    nodes.push(deps[k].clone());
                    proof {
                        let last = nodes@.len() - 1;
                        assert(nodes@[last]@ == deps@[k as int]@);
                        assert forall|x: ModuleIdView|
                            id_listed(before, before.len() as int, x) implies id_listed(
                            nodes@,
                            nodes@.len() as int,
                            x,
                        ) by {
                            let j = choose|j: int|
                                0 <= j < before.len() && j < before.len() && #[trigger] before[j]@ == x;
                            assert(nodes@[j]@ == x);
                        }
                        assert forall|j: int|
                            self.dependencies.seq().len() <= j
                                < nodes@.len() implies is_listed_dependency(
                            self.dependencies.seq(),
                            (#[trigger] nodes@[j])@,
                        ) by {
                            if j >= last {
                                assert(self.dependencies.seq()[a as int].1@[k as int]@
                                    == nodes@[j]@);
                            }
                        }
                    }
                }
                k += 1;
            }
            a += 1;
        }
        nodes
    }

    /// Builds the adjacency lists of the graph over `nodes`.
    fn link(&self, nodes: &Vec<ModuleId>) -> (adj: Vec<Vec<usize>>)
        requires
            self.wf(),
            self.nodes_ok(nodes@, self.dependencies.seq().len() as int),
        ensures
            self.adj_ok(nodes@, adj@, nodes@.len() as int),
            topo::graph_wf(adj@),
    {
        let count = self.dependencies.len();
        let mut adj: Vec<Vec<usize>> = Vec::new();
        let mut i: usize = 0;
        while i < nodes.len()
            invariant
                self.wf(),
                self.nodes_ok(nodes@, self.dependencies.seq().len() as int),
                count == self.dependencies.seq().len(),
                i <= nodes@.len(),
                self.adj_ok(nodes@, adj@, i as int),
            decreases nodes@.len() - i,
        {
            let mut list: Vec<usize> = Vec::new();
            if i < count {
                let deps = self.dependencies.value_at(i);
                let mut k: usize = 0;
                while k < deps.len()
                    invariant
                        self.nodes_ok(nodes@, self.dependencies.seq().len() as int),
                        count == self.dependencies.seq().len(),
                        i < count,
                        *deps == self.dependencies.seq()[i as int].1,
                        k <= deps@.len(),
                        list@.len() == k,
                        forall|q: int|
                            0 <= q < k ==> (#[trigger] list@[q]) < nodes@.len() && nodes@[list@[q] as int]@
                                == deps@[q]@,
                    decreases deps@.len() - k,
                {
                    match position(nodes, &deps[k]) {
                        Some(j) => {
                            list.push(j);
                        },
                        None => {
                        },
                    }
                    k += 1;
                }
            }
            adj.push(list);
            i += 1;
        }
        adj
    }

    /// The modules of the graph in build order: every module behind all
    /// modules that it depends on.
    ///
    /// The order lists every module that was added, and every dependency
    /// of one, exactly once. It exists exactly if no modules depend on each
    /// other in a circle; where some do, the error names such a circle.
    pub fn build_order(&self) -> (r: Result<Vec<ModuleId>, BuildError>)
        requires
            self.wf(),
        ensures
            r is Ok <==> !self.has_cycle(),
            match r {
                Ok(order) => self.is_build_order(ids_view(order@)),
                Err(BuildError::CircularDependency { cycle }) => self.is_cycle(ids_view(cycle@)),
            },
    {
        let nodes = self.collect_nodes();
        let adj = self.link(&nodes);
        match topo::sort(&adj) {
            Ok(order) => {
                let ids = pick(&nodes, &order);
                proof {
                    self.lemma_order(nodes@, adj@, order@, ids@);
                }
                Ok(ids)
            },
            Err(cycle) => {
                let ids = pick(&nodes, &cycle);
                proof {
                    let path = ids_view(ids@);
                    assert forall|k: int| 0 <= k < path.len() - 1 implies self.depends_on(
                        #[trigger] path[k],
                        path[k + 1],
                    ) by {}
                    assert(self.is_cycle(path));
                }
                Err(BuildError::CircularDependency { cycle: ids })
            },
        }
    }

    /// A topological order of the nodes is a build order of the modules,
    /// and rules out circles.
    proof fn lemma_order(
        &self,
        nodes: Seq<ModuleId>,
        adj: Seq<Vec<usize>>,
        order: Seq<usize>,
        ids: Seq<ModuleId>,
    )
        requires
            self.wf(),
            self.nodes_ok(nodes, self.dependencies.seq().len() as int),
            self.adj_ok(nodes, adj, nodes.len() as int),
            topo::graph_wf(adj),
            topo::is_topological(adj, order),
            forall|path: Seq<usize>| !topo::is_cycle(adj, path),
            ids.len() == order.len(),
            forall|a: int| 0 <= a < order.len() ==> #[trigger] ids[a] == nodes[order[a] as int],
        ensures
            self.is_build_order(ids_view(ids)),
            !self.has_cycle(),
    {
        let ov = ids_view(ids);
        assert forall|a: int, b: int| 0 <= a < b < ov.len() implies ov[a] != ov[b] by {}
        assert forall|a: int| 0 <= a < ov.len() implies self.mentions(#[trigger] ov[a]) by {
            self.lemma_nodes(nodes, ov[a]);
        }
        assert forall|m: ModuleIdView| self.mentions(m) implies ov.contains(m) by {
            self.lemma_nodes(nodes, m);
            let j = choose|j: int| 0 <= j < nodes.len() && j < nodes.len() && #[trigger] nodes[j]@ == m;
            assert(topo::listed(order, j));
            let a = choose|a: int| 0 <= a < order.len() && a < order.len() && #[trigger] order[a] == j;
            assert(ov[a] == m);
        }
        assert forall|a: int, b: int|
            0 <= a < ov.len() && 0 <= b < ov.len() && self.depends_on(
                #[trigger] ov[a],
                #[trigger] ov[b],
            ) implies b < a by {
            self.lemma_edges(nodes, adj, order[a] as int, order[b] as int);
        }
        if self.has_cycle() {
            let path = choose|path: Seq<ModuleIdView>| self.is_cycle(path);
            let index = |k: int| (choose|j: int| 0 <= j < nodes.len() && j < nodes.len() && #[trigger] nodes[j]@ == path[k]) as usize;
            let walk = Seq::new(path.len(), index);
            assert forall|k: int| 0 <= k < path.len() implies 0 <= #[trigger] walk[k] < nodes.len()
                && nodes[walk[k] as int]@ == path[k] by {
                self.lemma_nodes(nodes, path[k]);
            }
            assert forall|k: int| 0 <= k < walk.len() - 1 implies topo::edge(
                adj,
                #[trigger] walk[k] as int,
                walk[k + 1] as int,
            ) by {
                self.lemma_edges(nodes, adj, walk[k] as int, walk[k + 1] as int);
            }
            assert(topo::is_cycle(adj, walk));
        }
    }
}

/// Index of the identity equal to `id` in `nodes`.
fn position(nodes: &Vec<ModuleId>, id: &ModuleId) -> (r: Option<usize>)
    ensures
        match r {
            Some(j) => j < nodes@.len() && nodes@[j as int]@ == id@,
            None => !id_listed(nodes@, nodes@.len() as int, id@),
        },
{
    let mut j: usize = 0;
    while j < nodes.len()
        invariant
            j <= nodes@.len(),
            forall|q: int| 0 <= q < j ==> (#[trigger] nodes@[q])@ != id@,
        decreases nodes@.len() - j,
    {
        if nodes[j].same_key(id) {
            return Some(j);
        }
        j += 1;
    }
    None
}

/// The identities at the given indices.
fn pick(nodes: &Vec<ModuleId>, indices: &Vec<usize>) -> (ids: Vec<ModuleId>)
    requires
        forall|a: int| 0 <= a < indices@.len() ==> #[trigger] indices@[a] < nodes@.len(),
    ensures
        ids@.len() == indices@.len(),
        forall|a: int| 0 <= a < indices@.len() ==> #[trigger] ids@[a] == nodes@[indices@[a] as int],
{
    let mut ids: Vec<ModuleId> = Vec::new();
    let mut a: usize = 0;
    while a < indices.len()
        invariant
            a <= indices@.len(),
            ids@.len() == a,
            forall|q: int| 0 <= q < indices@.len() ==> #[trigger] indices@[q] < nodes@.len(),
            forall|q: int| 0 <= q < a ==> #[trigger] ids@[q] == nodes@[indices@[q] as int],
        decreases indices@.len() - a,
    {
        ids.push(nodes[indices[a]].clone());
        a += 1;
    }
    ids
}

/// In a build order, positions fall along dependencies: the module `k`
/// steps down a chain of dependencies stands at least `k` places before
/// the module at its start.
proof fn lemma_chain_falls(
    graph: &DependencyGraph,
    order: Seq<ModuleIdView>,
    path: Seq<ModuleIdView>,
    k: int,
)
    requires
        graph.is_build_order(order),
        path.len() >= 2,
        forall|i: int| 0 <= i < path.len() - 1 ==> graph.depends_on(#[trigger] path[i], path[i + 1]),
        1 <= k < path.len(),
    ensures
        exists|a: int, b: int|
            0 <= a < order.len() && 0 <= b < order.len() && order[a] == path[0] && order[b]
                == path[k] && b + k <= a,
    decreases k,
{
    assert(graph.mentions(path[k - 1]));
    assert(order.contains(path[k]));
    if k > 1 {
        lemma_chain_falls(graph, order, path, k - 1);
    }
}

/// Topological order: in a build order, every dependency of a module
/// stands strictly before the module.
pub proof fn law_dependencies_first(
    graph: &DependencyGraph,
    order: Seq<ModuleIdView>,
    module: ModuleIdView,
    dependency: ModuleIdView,
)
    requires
        graph.is_build_order(order),
        graph.depends_on(module, dependency),
    ensures
        exists|a: int, b: int|
            0 <= b < a < order.len() && order[a] == module && order[b] == dependency,
{
    lemma_chain_falls(graph, order, seq![module, dependency], 1);
}

/// Cycle detection: a graph in which modules depend on each other in a
/// circle has no build order, so that asking for one yields the error.
pub proof fn law_cycle_excludes_order(
    graph: &DependencyGraph,
    order: Seq<ModuleIdView>,
    cycle: Seq<ModuleIdView>,
)
    requires
        graph.is_cycle(cycle),
    ensures
        !graph.is_build_order(order),
{
    if graph.is_build_order(order) {
        let k = cycle.len() - 1;
        lemma_chain_falls(graph, order, cycle, k);
    }
}

/// Cache precision: after a tree was cached for a path and a source, the
/// cache answers with that tree for the same path and source; it has no
/// answer for the path with a source of another content hash; and its
/// answers for other paths are what they were. (Content hashes have 64
/// bits, so two sources can share one; the cache cannot tell such sources
/// apart.)
pub proof fn law_cache_precision(
    cache: Map<Seq<char>, (rowan::GreenNode, u64)>,
    path: Seq<char>,
    source: Seq<char>,
    tree: rowan::GreenNode,
    other_path: Seq<char>,
    other_source: Seq<char>,
)
    ensures
        lookup(cache.insert(path, (tree, content_hash(source))), path, source) == Some(tree),
        content_hash(other_source) != content_hash(source) ==> lookup(
            cache.insert(path, (tree, content_hash(source))),
            path,
            other_source,
        ) is None,
        other_path != path ==> lookup(
            cache.insert(path, (tree, content_hash(source))),
            other_path,
            other_source,
        ) == lookup(cache, other_path, other_source),
{
}

/// Coarse invalidation: one watched file whose observed modification time
/// is not the recorded one, or cannot be read, makes the whole graph
/// stale, whatever was observed of the other files.
pub proof fn law_touch_makes_stale(
    graph: &DependencyGraph,
    observed: Seq<Option<Timestamp>>,
    touched: int,
)
    requires
        0 <= touched < graph.watched().len(),
        touched < observed.len() ==> observed[touched] != Some(graph.watched()[touched].1),
    ensures
        !graph.up_to_date(observed),
{
}

} // verus!
